use vstd::prelude::*;

verus! {

/// The library's error type. Only startup credential problems surface as
/// errors; everything else the pipeline contains and recovers from: bad
/// frames and sequence gaps are handled per message, and a lost
/// connection ends one session without touching its siblings.
#[derive(Debug)]
pub enum OrderbookError {
    /// The credential text is not a usable key.
    AuthError(String),
}

} // verus!
