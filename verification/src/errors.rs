use vstd::prelude::*;

verus! {

/// Failure taxonomy of the bridge.
///
/// `NotFound` (key or file absent) and `Cancelled` (user dismissed a picker)
/// are expected outcomes, not exceptional ones. `BadRequest` marks malformed
/// input caught at the dispatch boundary, `IoFailure` a local disk error,
/// `NetworkFailure` and `Timeout` an unreachable or slow remote, and
/// `ConfigurationError` a missing remote credential or base URL.
#[derive(Clone, Copy, Debug, PartialEq, Eq, Structural)]
pub enum BridgeError {
    NotFound,
    Cancelled,
    BadRequest,
    IoFailure,
    NetworkFailure,
    Timeout,
    ConfigurationError,
}

} // verus!
