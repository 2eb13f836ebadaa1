//! Decision engine for assigning a free TCP port to a launching process.
//!
//! The crate holds the pure, verified core of the assignment run: the
//! probe-and-scan state machine, the previous-assignment reuse policy, the
//! process-ownership cross-reference, the adaptive range-expansion policy,
//! and the `key=port` history-store line format. All socket, file and
//! subprocess work stays outside: callers perform each requested `Action`
//! and feed the observed outcome back as an `Event`.

pub mod assign;
pub mod cli;
pub mod errors;
pub mod expand;
pub mod history;
pub mod ownership;
pub mod parse;
