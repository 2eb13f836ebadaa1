use vstd::prelude::*;

verus! {

/// A failed assignment run.
///
/// `InvalidRange` reports a request whose `min` is not below its `max`; it is
/// raised before any other work. `ScanFailed` reports a run whose scan (after
/// any permitted expansion) found no available port.
#[derive(Clone, Copy, Debug, PartialEq, Eq)]
pub enum PortError {
    ScanFailed,
    InvalidRange { min: u16, max: u16 },
}

impl PortError {
    /// A short description of the failure, one fixed text per variant.
    pub fn message(&self) -> (m: &'static str)
        ensures
            self is ScanFailed ==> m@ == "Port scanning failed"@,
            self is InvalidRange ==> m@ == "Invalid range: min must be less than max"@,
    {
        match self {
            PortError::ScanFailed => "Port scanning failed",
            PortError::InvalidRange { .. } => "Invalid range: min must be less than max",
        }
    }
}

} // verus!
