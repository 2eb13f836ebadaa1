use portly::assign::{Action, Engine, Event, ProbeResult, RunConfig, RunState};
use portly::errors::PortError;

struct Trace {
    outcome: Result<u16, PortError>,
    probes: Vec<u16>,
    store_reads: usize,
    ownership_checks: Vec<u16>,
    persisted: Option<u16>,
    expansions: usize,
    final_ceiling: u16,
}

/// Drives one full run against a fake environment.
fn drive(
    cfg: RunConfig,
    stored: Option<u16>,
    owned: bool,
    probe: &dyn Fn(u16) -> ProbeResult,
    persist_ok: bool,
) -> Trace {
    let mut eng = Engine::start(cfg);
    let mut probes: Vec<u16> = Vec::new();
    let mut store_reads = 0usize;
    let mut ownership_checks: Vec<u16> = Vec::new();
    let mut persisted: Option<u16> = None;
    let mut expansions = 0usize;
    let mut final_ceiling = cfg.max;
    loop {
        assert!(eng.wf_check(), "engine left its invariant");
        match eng.next_action() {
            Action::ReadStore => {
                store_reads += 1;
                eng = eng.step(Event::StoreRead { previous: stored });
            }
            Action::CheckOwnership { port } => {
                ownership_checks.push(port);
                eng = eng.step(Event::Ownership { owned });
            }
            Action::Probe { port } => {
                probes.push(port);
                eng = eng.step(Event::Probed { result: probe(port) });
                if let RunState::Scanning { ceiling, .. } = eng.state {
                    if ceiling != final_ceiling {
                        expansions += 1;
                        final_ceiling = ceiling;
                    }
                }
            }
            Action::Persist { port } => {
                persisted = Some(port);
                eng = eng.step(Event::Persisted { ok: persist_ok });
            }
            Action::Report { outcome } => {
                return Trace {
                    outcome,
                    probes,
                    store_reads,
                    ownership_checks,
                    persisted,
                    expansions,
                    final_ceiling,
                };
            }
        }
    }
}

fn cfg(min: u16, max: u16, forced: bool, expand_max: bool, has_app_name: bool) -> RunConfig {
    RunConfig { min, max, forced, expand_max, has_app_name }
}

#[test]
fn reuse_returns_stored_port_without_probing() {
    let t = drive(
        cfg(3000, 8000, false, false, true),
        Some(4000),
        false,
        &|_| ProbeResult::Available,
        true,
    );
    assert_eq!(t.outcome, Ok(4000));
    assert!(t.probes.is_empty(), "reuse must not probe any port");
    assert_eq!(t.store_reads, 1);
    assert_eq!(t.ownership_checks, vec![4000]);
    assert_eq!(t.persisted, Some(4000));
}

#[test]
fn forced_run_skips_reuse() {
    let t = drive(
        cfg(3000, 8000, true, false, true),
        Some(4000),
        false,
        &|p| if p == 3000 { ProbeResult::Available } else { ProbeResult::Unavailable },
        true,
    );
    assert_eq!(t.outcome, Ok(3000));
    assert_eq!(t.store_reads, 0, "a forced run must not read the store");
    assert!(t.ownership_checks.is_empty());
}

#[test]
fn missing_app_name_skips_reuse() {
    let t = drive(
        cfg(3000, 8000, false, false, false),
        Some(4000),
        false,
        &|p| if p == 3000 { ProbeResult::Available } else { ProbeResult::Unavailable },
        true,
    );
    assert_eq!(t.outcome, Ok(3000));
    assert_eq!(t.store_reads, 0);
}

#[test]
fn owned_candidate_falls_back_to_scan() {
    let t = drive(
        cfg(3000, 8000, false, false, true),
        Some(4000),
        true,
        &|p| if p >= 3005 { ProbeResult::Available } else { ProbeResult::Unavailable },
        true,
    );
    assert_eq!(t.outcome, Ok(3005));
    assert_eq!(t.store_reads, 1);
    assert_eq!(t.ownership_checks, vec![4000]);
    assert_eq!(t.probes, vec![3000, 3001, 3002, 3003, 3004, 3005]);
}

#[test]
fn stored_port_out_of_range_falls_back_to_scan() {
    let t = drive(
        cfg(3000, 8000, false, false, true),
        Some(2000),
        false,
        &|p| if p == 3000 { ProbeResult::Available } else { ProbeResult::Unavailable },
        true,
    );
    assert_eq!(t.outcome, Ok(3000));
    assert!(t.ownership_checks.is_empty(), "an out-of-range record is never checked");
}

#[test]
fn scan_picks_first_free_port() {
    let t = drive(
        cfg(3000, 3002, true, false, false),
        None,
        false,
        &|p| if p == 3002 { ProbeResult::Available } else { ProbeResult::Unavailable },
        true,
    );
    assert_eq!(t.outcome, Ok(3002));
    assert_eq!(t.probes, vec![3000, 3001, 3002]);
    assert_eq!(t.persisted, Some(3002));
}

#[test]
fn exhausted_range_without_expansion_fails() {
    let t = drive(
        cfg(3000, 3010, true, false, false),
        None,
        false,
        &|_| ProbeResult::Unavailable,
        true,
    );
    assert_eq!(t.outcome, Err(PortError::ScanFailed));
    assert_eq!(t.probes.len(), 11, "one probe per port of the range, no more");
    assert_eq!(t.persisted, None);
}

#[test]
fn expansion_finds_port_above_requested_ceiling() {
    let t = drive(
        cfg(3000, 3010, true, true, false),
        None,
        false,
        &|p| if p > 3010 { ProbeResult::Available } else { ProbeResult::Unavailable },
        true,
    );
    assert_eq!(t.outcome, Ok(3011));
    assert!(t.expansions >= 1, "the ceiling must expand at least once");
    assert_eq!(t.probes.len(), 12);
    assert!(t.final_ceiling > 3010);
}

#[test]
fn expansion_stops_at_port_space_end() {
    let t = drive(
        cfg(65000, 65100, true, true, false),
        None,
        false,
        &|_| ProbeResult::Unavailable,
        true,
    );
    assert_eq!(t.outcome, Err(PortError::ScanFailed));
    assert_eq!(t.final_ceiling, 65535);
    // every port of [65000, 65535] was probed exactly once
    assert_eq!(t.probes.len(), 536);
    let mut expected: Vec<u16> = (65000..=65535).collect();
    let mut got = t.probes.clone();
    got.sort_unstable();
    expected.sort_unstable();
    assert_eq!(got, expected);
}

#[test]
fn probe_errors_are_skipped_not_fatal() {
    let t = drive(
        cfg(4000, 4002, true, false, false),
        None,
        false,
        &|_| ProbeResult::Error,
        true,
    );
    assert_eq!(t.outcome, Err(PortError::ScanFailed));
    assert_eq!(t.probes.len(), 3);
}

#[test]
fn probe_error_then_free_port_still_succeeds() {
    let t = drive(
        cfg(4000, 4002, true, false, false),
        None,
        false,
        &|p| if p == 4001 { ProbeResult::Available } else { ProbeResult::Error },
        true,
    );
    assert_eq!(t.outcome, Ok(4001));
}

#[test]
fn invalid_range_fails_before_any_work() {
    let t = drive(
        cfg(5000, 5000, false, true, true),
        Some(5000),
        false,
        &|_| ProbeResult::Available,
        true,
    );
    assert_eq!(t.outcome, Err(PortError::InvalidRange { min: 5000, max: 5000 }));
    assert_eq!(t.store_reads, 0);
    assert!(t.probes.is_empty());
    assert_eq!(t.persisted, None);
}

#[test]
fn failed_persist_still_reports_the_chosen_port() {
    let t = drive(
        cfg(3000, 8000, false, false, true),
        Some(4000),
        false,
        &|_| ProbeResult::Unavailable,
        false,
    );
    assert_eq!(t.outcome, Ok(4000));
    assert_eq!(t.persisted, Some(4000));
}

#[test]
fn mismatched_event_leaves_state_unchanged() {
    let eng = Engine::start(cfg(3000, 8000, false, false, true));
    assert_eq!(eng.state, RunState::AwaitStore);
    let eng2 = eng.step(Event::Probed { result: ProbeResult::Available });
    assert_eq!(eng2.state, RunState::AwaitStore);
    assert_eq!(eng2.next_action(), Action::ReadStore);
}

#[test]
fn finished_engine_keeps_reporting() {
    let eng = Engine::start(cfg(9, 3, false, false, false));
    let outcome = Err(PortError::InvalidRange { min: 9, max: 3 });
    assert_eq!(eng.next_action(), Action::Report { outcome });
    let eng2 = eng.step(Event::Persisted { ok: true });
    assert_eq!(eng2.next_action(), Action::Report { outcome });
}
