use vstd::prelude::*;

verus! {

/// Flat classification taxonomy for one target's poll outcome.
///
/// `NotFound` is the expected "target unavailable" case; `RateLimited`
/// triggers a cool-down; the transient variants carry the HTTP status that
/// caused them; `NetworkFailure` is a transport-level failure;
/// `MisconfiguredAdapter` marks an adapter declared without detection logic;
/// `UnknownTarget` marks a key no adapter handles.
#[derive(Clone, Copy, Debug, PartialEq, Eq, Structural)]
pub enum NotifyError {
    NotFound,
    RateLimited,
    TransientServerError(u16),
    TransientClientError(u16),
    BadStatus(u16),
    NetworkFailure,
    MisconfiguredAdapter,
    UnknownTarget,
}

} // verus!
