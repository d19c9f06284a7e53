use vstd::prelude::*;

use crate::errors::BridgeError;

verus! {

/// What the shell observed when reading the file at a caller-supplied path:
/// its bytes, an absent file, or a disk error. Each read is
/// open-read-close — no handle outlives the call.
pub enum FileReadOutcome {
    Data(Vec<u8>),
    Missing,
    Failed,
}

/// What the shell observed when writing bytes at the location the user chose
/// in the native save dialog: the resolved path, or a disk error.
pub enum FileWriteOutcome {
    Written(String),
    Failed,
}

/// Outcome of the native open dialog. A dismissed picker arrives as `None`
/// and becomes `Cancelled` — an expected outcome, distinct from every
/// failure kind, never an `IoFailure`.
pub fn resolve_open_file(picked: Option<String>) -> (r: Result<String, BridgeError>)
    ensures
        (picked matches Some(p) ==> (r matches Ok(q) && q@ == p@)),
        picked is None ==> (r matches Err(e) && e == BridgeError::Cancelled),
{
    match picked {
        Some(p) => Ok(p),
        None => Err(BridgeError::Cancelled),
    }
}

/// Outcome of reading a file the caller already knows the path of: the exact
/// bytes on success, `NotFound` for an absent file — expected, not
/// exceptional — and `IoFailure` for a disk error, surfaced verbatim.
pub fn resolve_read_file(outcome: FileReadOutcome) -> (r: Result<Vec<u8>, BridgeError>)
    ensures
        (outcome matches FileReadOutcome::Data(bytes) ==> (r matches Ok(b) && b@ == bytes@)),
        outcome is Missing ==> (r matches Err(e) && e == BridgeError::NotFound),
        outcome is Failed ==> (r matches Err(e) && e == BridgeError::IoFailure),
{
    match outcome {
        FileReadOutcome::Data(bytes) => Ok(bytes),
        FileReadOutcome::Missing => Err(BridgeError::NotFound),
        FileReadOutcome::Failed => Err(BridgeError::IoFailure),
    }
}

/// Outcome of persisting bytes through the native save dialog: the resolved
/// path on success, `IoFailure` for a disk error, surfaced verbatim.
pub fn resolve_save_file(outcome: FileWriteOutcome) -> (r: Result<String, BridgeError>)
    ensures
        (outcome matches FileWriteOutcome::Written(path) ==> (r matches Ok(p) && p@ == path@)),
        outcome is Failed ==> (r matches Err(e) && e == BridgeError::IoFailure),
{
    match outcome {
        FileWriteOutcome::Written(path) => Ok(path),
        FileWriteOutcome::Failed => Err(BridgeError::IoFailure),
    }
}

} // verus!
