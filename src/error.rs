//! Error kinds surfaced to callers.
use vstd::prelude::*;

verus! {

#[derive(Debug, Clone, Copy, PartialEq, Eq, Structural)]
pub enum SpdmStatus {
    InvalidParameter,
    InvalidState,
    IoFailure,
    DecodeFailure,
    CryptoFailure,
    Unsupported,
    SessionExhausted,
    BufferOverflow,
}

pub type SpdmResult<T = ()> = Result<T, SpdmStatus>;

} // verus!
