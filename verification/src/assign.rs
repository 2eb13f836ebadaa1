use vstd::prelude::*;

use crate::errors::PortError;
use crate::expand::{expanded_ceiling, next_ceiling, MAX_PORT};

verus! {

/// Assignment Orchestrator.
///
/// One assignment run is a little state machine. The caller performs the
/// outside work — reading the history store, querying the ownership
/// inventories, probing a port with a bind attempt, persisting the chosen
/// record — and the machine makes every decision. After `start`, the caller
/// repeatedly asks `next_action` what to do, does it, and hands the outcome
/// back through `step`, until the action is `Report`.
///
/// The run's policy:
/// - an invalid range (`min >= max`) fails at once, before any other work;
/// - unless the run is forced or no application name was supplied, the
///   stored record for the key is read, and when it lies in range and the
///   ownership resolver does *not* confirm it as held by the application,
///   it is reused directly, with no probe of it;
/// - otherwise every port of `[min, ceiling]` is probed in ascending order
///   and the first available one wins; a probe error counts as "skip and
///   continue", never as a run failure;
/// - an exhausted range fails with `ScanFailed` unless expansion is
///   enabled, in which case the ceiling grows by the expansion policy and
///   the scan resumes just above the old ceiling (ports already probed are
///   not probed again);
/// - the chosen port is persisted; a persistence failure is reported by
///   the event but the chosen port remains the run's result.

/// The caller-supplied parameters of one run.
#[derive(Clone, Copy, Debug, PartialEq, Eq)]
pub struct RunConfig {
    pub min: u16,
    pub max: u16,
    pub forced: bool,
    pub expand_max: bool,
    pub has_app_name: bool,
}

/// What one bind probe of a port observed.
#[derive(Clone, Copy, Debug, PartialEq, Eq)]
pub enum ProbeResult {
    /// The bind succeeded and was released at once.
    Available,
    /// The bind failed because the address is already in use.
    Unavailable,
    /// The bind failed for any other reason.
    Error,
}

/// The outcome of the outside work an action asked for.
#[derive(Clone, Copy, Debug, PartialEq, Eq)]
pub enum Event {
    /// The store was read; `previous` is the record found for the key, if
    /// any (a missing or unreadable store reads as none).
    StoreRead { previous: Option<u16> },
    /// The ownership resolver's verdict on the reuse candidate.
    Ownership { owned: bool },
    /// A probe of the port the machine asked about.
    Probed { result: ProbeResult },
    /// The record was written (or the write failed).
    Persisted { ok: bool },
}

/// The outside work the machine asks for next.
#[derive(Clone, Copy, Debug, PartialEq, Eq)]
pub enum Action {
    /// Read the history store and answer with `StoreRead`.
    ReadStore,
    /// Ask the ownership resolver about `port` and answer with `Ownership`.
    CheckOwnership { port: u16 },
    /// Probe `port` and answer with `Probed`.
    Probe { port: u16 },
    /// Persist the record for `port` and answer with `Persisted`.
    Persist { port: u16 },
    /// The run is over with this outcome; no answer is expected.
    Report { outcome: Result<u16, PortError> },
}

/// Where a run stands.
#[derive(Clone, Copy, Debug, PartialEq, Eq)]
pub enum RunState {
    /// Waiting for the stored record.
    AwaitStore,
    /// Waiting for the resolver's verdict on the stored record.
    AwaitOwnership { candidate: u16 },
    /// Scanning: `current` is the port whose probe is outstanding, within
    /// the pass `[pass_low, ceiling]`; `probes` counts the probes this
    /// pass has issued, the outstanding one included.
    Scanning { pass_low: u16, current: u16, ceiling: u16, probes: u32 },
    /// Waiting for the chosen port's record to be persisted.
    AwaitPersist { chosen: u16 },
    /// The run is over.
    Finished { outcome: Result<u16, PortError> },
}

/// A run in progress.
#[derive(Clone, Copy, Debug, PartialEq, Eq)]
pub struct Engine {
    pub config: RunConfig,
    pub state: RunState,
}

/// The state that begins a fresh scan over `[min, max]`.
pub open spec fn scan_start(cfg: RunConfig) -> RunState {
    RunState::Scanning { pass_low: cfg.min, current: cfg.min, ceiling: cfg.max, probes: 1 }
}

/// The state a run starts in: an invalid range fails at once; a forced run,
/// or one without an application name, skips reuse and scans directly;
/// every other run reads the store first.
pub open spec fn spec_start(cfg: RunConfig) -> RunState {
    if cfg.min >= cfg.max {
        RunState::Finished {
            outcome: Err(PortError::InvalidRange { min: cfg.min, max: cfg.max }),
        }
    } else if !cfg.forced && cfg.has_app_name {
        RunState::AwaitStore
    } else {
        scan_start(cfg)
    }
}

/// The transition relation: what each event makes of each state. An event
/// that does not answer the pending action leaves the state unchanged.
pub open spec fn spec_step(cfg: RunConfig, s: RunState, ev: Event) -> RunState {
    match (s, ev) {
        (RunState::AwaitStore, Event::StoreRead { previous }) => match previous {
            Some(p) => if cfg.min <= p && p <= cfg.max {
                RunState::AwaitOwnership { candidate: p }
            } else {
                scan_start(cfg)
            },
            None => scan_start(cfg),
        },
        (RunState::AwaitOwnership { candidate }, Event::Ownership { owned }) => if !owned {
            RunState::AwaitPersist { chosen: candidate }
        } else {
            scan_start(cfg)
        },
        (RunState::Scanning { pass_low, current, ceiling, probes }, Event::Probed { result }) => {
            if result is Available {
                RunState::AwaitPersist { chosen: current }
            } else if current < ceiling {
                RunState::Scanning {
                    pass_low,
                    current: (current + 1) as u16,
                    ceiling,
                    probes: (probes + 1) as u32,
                }
            } else if !cfg.expand_max || ceiling == MAX_PORT {
                RunState::Finished { outcome: Err(PortError::ScanFailed) }
            } else {
                RunState::Scanning {
                    pass_low: (current + 1) as u16,
                    current: (current + 1) as u16,
                    ceiling: expanded_ceiling(ceiling) as u16,
                    probes: 1,
                }
            }
        },
        (RunState::AwaitPersist { chosen }, Event::Persisted { .. }) => RunState::Finished {
            outcome: Ok(chosen),
        },
        _ => s,
    }
}

/// The action each state waits on.
pub open spec fn spec_action(s: RunState) -> Action {
    match s {
        RunState::AwaitStore => Action::ReadStore,
        RunState::AwaitOwnership { candidate } => Action::CheckOwnership { port: candidate },
        RunState::Scanning { current, .. } => Action::Probe { port: current },
        RunState::AwaitPersist { chosen } => Action::Persist { port: chosen },
        RunState::Finished { outcome } => Action::Report { outcome },
    }
}

impl Engine {
    /// Every state a run can actually reach keeps these bounds: scan
    /// positions stay inside their pass, the pass stays above `min` and
    /// below its ceiling, the probe count is exact, a reuse candidate lies
    /// in `[min, max]`, and a finished run's port lies at or above `min`.
    pub open spec fn wf(self) -> bool {
        let cfg = self.config;
        match self.state {
            RunState::AwaitStore => cfg.min < cfg.max && !cfg.forced && cfg.has_app_name,
            RunState::AwaitOwnership { candidate } => cfg.min < cfg.max && cfg.min <= candidate
                <= cfg.max && !cfg.forced && cfg.has_app_name,
            RunState::Scanning { pass_low, current, ceiling, probes } => cfg.min < cfg.max
                && cfg.min <= pass_low <= current <= ceiling && cfg.max <= ceiling && probes
                == current - pass_low + 1,
            RunState::AwaitPersist { chosen } => cfg.min < cfg.max && cfg.min <= chosen,
            RunState::Finished { outcome } => match outcome {
                Ok(p) => cfg.min < cfg.max && cfg.min <= p,
                Err(PortError::InvalidRange { min, max }) => min == cfg.min && max == cfg.max
                    && cfg.min >= cfg.max,
                Err(PortError::ScanFailed) => cfg.min < cfg.max,
            },
        }
    }

    /// Begins a run: validates the range and picks the first action.
    pub fn start(config: RunConfig) -> (e: Engine)
        ensures
            e.config == config,
            e.state == spec_start(config),
            e.wf(),
    {
        let state = if config.min >= config.max {
            RunState::Finished {
                outcome: Err(PortError::InvalidRange { min: config.min, max: config.max }),
            }
        } else if !config.forced && config.has_app_name {
            RunState::AwaitStore
        } else {
            RunState::Scanning {
                pass_low: config.min,
                current: config.min,
                ceiling: config.max,
                probes: 1,
            }
        };
        Engine { config, state }
    }

    /// The outside work the run asks its caller to perform next.
    pub fn next_action(&self) -> (a: Action)
        ensures
            a == spec_action(self.state),
    {
        match self.state {
            RunState::AwaitStore => Action::ReadStore,
            RunState::AwaitOwnership { candidate } => Action::CheckOwnership { port: candidate },
            RunState::Scanning { current, .. } => Action::Probe { port: current },
            RunState::AwaitPersist { chosen } => Action::Persist { port: chosen },
            RunState::Finished { outcome } => Action::Report { outcome },
        }
    }

    /// Advances the run by one answered action, exactly as `spec_step`
    /// describes the move.
    pub fn step(self, ev: Event) -> (r: Engine)
        requires
            self.wf(),
        ensures
            r.config == self.config,
            r.state == spec_step(self.config, self.state, ev),
            r.wf(),
    {
        let cfg = self.config;
        let state = match (self.state, ev) {
            (RunState::AwaitStore, Event::StoreRead { previous }) => match previous {
                Some(p) => if cfg.min <= p && p <= cfg.max {
                    RunState::AwaitOwnership { candidate: p }
                } else {
                    RunState::Scanning {
                        pass_low: cfg.min,
                        current: cfg.min,
                        ceiling: cfg.max,
                        probes: 1,
                    }
                },
                None => RunState::Scanning {
                    pass_low: cfg.min,
                    current: cfg.min,
                    ceiling: cfg.max,
                    probes: 1,
                },
            },
            (RunState::AwaitOwnership { candidate }, Event::Ownership { owned }) => if !owned {
                RunState::AwaitPersist { chosen: candidate }
            } else {
                RunState::Scanning {
                    pass_low: cfg.min,
                    current: cfg.min,
                    ceiling: cfg.max,
                    probes: 1,
                }
            },
            (
                RunState::Scanning { pass_low, current, ceiling, probes },
                Event::Probed { result },
            ) => {
                match result {
                    ProbeResult::Available => RunState::AwaitPersist { chosen: current },
                    _ => {
                        if current < ceiling {
                            RunState::Scanning {
                                pass_low,
                                current: current + 1,
                                ceiling,
                                probes: probes + 1,
                            }
                        } else if !cfg.expand_max {
                            RunState::Finished { outcome: Err(PortError::ScanFailed) }
                        } else {
                            match next_ceiling(ceiling) {
                                None => RunState::Finished {
                                    outcome: Err(PortError::ScanFailed),
                                },
                                Some(exp) => RunState::Scanning {
                                    pass_low: current + 1,
                                    current: current + 1,
                                    ceiling: exp.ceiling,
                                    probes: 1,
                                },
                            }
                        }
                    },
                }
            },
            (RunState::AwaitPersist { chosen }, Event::Persisted { .. }) => RunState::Finished {
                outcome: Ok(chosen),
            },
            _ => self.state,
        };
        Engine { config: cfg, state }
    }

    /// Whether the run's bounds hold, checkable by an unverified caller.
    pub fn wf_check(&self) -> (b: bool)
        ensures
            b == self.wf(),
    {
        let cfg = self.config;
        match self.state {
            RunState::AwaitStore => cfg.min < cfg.max && !cfg.forced && cfg.has_app_name,
            RunState::AwaitOwnership { candidate } => cfg.min < cfg.max && cfg.min <= candidate
                && candidate <= cfg.max && !cfg.forced && cfg.has_app_name,
            RunState::Scanning { pass_low, current, ceiling, probes } => cfg.min < cfg.max
                && cfg.min <= pass_low && pass_low <= current && current <= ceiling && cfg.max
                <= ceiling && probes == (current - pass_low) as u32 + 1,
            RunState::AwaitPersist { chosen } => cfg.min < cfg.max && cfg.min <= chosen,
            RunState::Finished { outcome } => match outcome {
                Ok(p) => cfg.min < cfg.max && cfg.min <= p,
                Err(PortError::InvalidRange { min, max }) => min == cfg.min && max == cfg.max
                    && cfg.min >= cfg.max,
                Err(PortError::ScanFailed) => cfg.min < cfg.max,
            },
        }
    }
}

/// Reuse is skipped when the run is forced (or when no application name
/// was supplied), whatever the store holds: such a run starts scanning at
/// once, so its first action is a probe of `min`, never a store read.
pub proof fn lemma_forced_skips_reuse(cfg: RunConfig)
    requires
        cfg.min < cfg.max,
        cfg.forced || !cfg.has_app_name,
    ensures
        spec_start(cfg) == scan_start(cfg),
        spec_action(spec_start(cfg)) == (Action::Probe { port: cfg.min }),
{
}

/// Per-pass probe bound: a scanning state has issued exactly
/// `current - pass_low + 1` probes this pass, never more than the pass
/// holds ports; over the initial pass `[min, max]` that is at most
/// `max - min + 1` probes before the scan either succeeds or the run
/// fails with `ScanFailed`.
pub proof fn lemma_scan_probe_bound(e: Engine)
    requires
        e.wf(),
        e.state is Scanning,
    ensures
        e.state matches RunState::Scanning { pass_low, current, ceiling, probes } ==> {
            &&& probes <= ceiling - pass_low + 1
            &&& (pass_low == e.config.min && ceiling == e.config.max ==> probes <= e.config.max
                - e.config.min + 1)
        },
{
}

} // verus!
