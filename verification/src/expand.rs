use vstd::prelude::*;

verus! {

/// Highest port number a scan ceiling may reach.
pub const MAX_PORT: u16 = 65535;

/// Smallest permitted expansion step.
pub const MIN_INCREMENT: u16 = 50;

/// Largest permitted expansion step.
pub const MAX_INCREMENT: u16 = 2000;

/// The raw expansion step for a ceiling `c`: one tenth of the remaining
/// space up to `MAX_PORT`, rounded to the nearest integer.
pub open spec fn raw_increment(c: u16) -> int {
    (MAX_PORT - c + 5) / 10
}

/// The raw step clamped into `[MIN_INCREMENT, MAX_INCREMENT]`.
pub open spec fn clamped_increment(c: u16) -> int {
    if raw_increment(c) < MIN_INCREMENT {
        MIN_INCREMENT as int
    } else if raw_increment(c) > MAX_INCREMENT {
        MAX_INCREMENT as int
    } else {
        raw_increment(c)
    }
}

/// The ceiling that expansion yields for a current ceiling `c < MAX_PORT`:
/// the clamped step is added and the sum capped at `MAX_PORT`, so the
/// addition never wraps.
pub open spec fn expanded_ceiling(c: u16) -> int {
    if c + clamped_increment(c) > MAX_PORT {
        MAX_PORT as int
    } else {
        c + clamped_increment(c)
    }
}

/// One successful expansion step: the new ceiling, and whether this step
/// crossed either advisory threshold (60000, 65000). A threshold is crossed
/// when the old ceiling was at or below it and the new ceiling exceeds it,
/// so over a run of strictly growing ceilings each crossing is reported
/// exactly once.
#[derive(Clone, Copy, Debug, PartialEq, Eq)]
pub struct Expansion {
    pub ceiling: u16,
    pub crossed_60000: bool,
    pub crossed_65000: bool,
}

/// Range Expansion Policy: how far to raise a scan ceiling once a range is
/// exhausted. Returns `None` exactly when the ceiling already sits at
/// `MAX_PORT` and cannot grow.
pub fn next_ceiling(current_max: u16) -> (r: Option<Expansion>)
    ensures
        r is None <==> current_max == MAX_PORT,
        (r matches Some(e) ==> {
            &&& e.ceiling == expanded_ceiling(current_max)
            &&& e.ceiling > current_max
            &&& e.crossed_60000 == (current_max <= 60000 && e.ceiling > 60000)
            &&& e.crossed_65000 == (current_max <= 65000 && e.ceiling > 65000)
        }),
{
    if current_max == MAX_PORT {
        return None;
    }
    let remaining: u32 = (MAX_PORT - current_max) as u32;
    let mut increment: u32 = (remaining + 5) / 10;
    if increment < MIN_INCREMENT as u32 {
        increment = MIN_INCREMENT as u32;
    }
    if increment > MAX_INCREMENT as u32 {
        increment = MAX_INCREMENT as u32;
    }
    let widened: u32 = current_max as u32 + increment;
    let ceiling: u16 = if widened > MAX_PORT as u32 {
        MAX_PORT
    } else {
        widened as u16
    };
    Some(Expansion {
        ceiling,
        crossed_60000: current_max <= 60000 && ceiling > 60000,
        crossed_65000: current_max <= 65000 && ceiling > 65000,
    })
}

/// Expansion monotonicity: for every ceiling below `MAX_PORT` the expanded
/// ceiling is strictly greater, so repeated expansion always makes progress
/// toward `MAX_PORT`.
pub proof fn lemma_expansion_monotone(c: u16)
    requires
        c < MAX_PORT,
    ensures
        c < expanded_ceiling(c) <= MAX_PORT,
{
}

/// Expansion increment bounds: the applied step always lies in
/// `[MIN_INCREMENT, MAX_INCREMENT]`, and the new ceiling differs from the
/// old one by exactly that step unless capped at `MAX_PORT`.
pub proof fn lemma_increment_bounds(c: u16)
    requires
        c < MAX_PORT,
    ensures
        MIN_INCREMENT <= clamped_increment(c) <= MAX_INCREMENT,
        expanded_ceiling(c) == MAX_PORT || expanded_ceiling(c) - c == clamped_increment(c),
{
}

/// Each advisory threshold is reported at most once over a run: once a step
/// reports a crossing, every later ceiling lies above the threshold, so no
/// later step can report the same crossing again.
pub proof fn lemma_crossing_reported_once(c1: u16, c2: u16)
    requires
        c1 < MAX_PORT,
        c2 < MAX_PORT,
        expanded_ceiling(c1) <= c2,
    ensures
        expanded_ceiling(c1) > 60000 ==> !(c2 <= 60000 && expanded_ceiling(c2) > 60000),
        expanded_ceiling(c1) > 65000 ==> !(c2 <= 65000 && expanded_ceiling(c2) > 65000),
{
}

} // verus!
