//! Random bytes for the exchange messages.
use vstd::prelude::*;
use crate::error::{SpdmResult, SpdmStatus};

verus! {

/// Relies on ring::rand::SystemRandom (its `SecureRandom::fill`): the
/// buffer is filled from the operating system's generator, or the call
/// fails. Nothing is promised of the bytes themselves.
#[verifier::external_body]
fn system_fill(len: usize) -> (r: Result<Vec<u8>, ()>)
    ensures
        r matches Ok(v) ==> v@.len() == len,
{
    let mut v = vec![0u8; len];
    match ring::rand::SecureRandom::fill(&ring::rand::SystemRandom::new(), &mut v) {
        Ok(()) => Ok(v),
        Err(_) => Err(()),
    }
}

/// `len` fresh random bytes.
pub fn get_random(len: usize) -> (r: SpdmResult<Vec<u8>>)
    ensures
        r matches Ok(v) ==> v@.len() == len,
{
    match system_fill(len) {
        Ok(v) => Ok(v),
        Err(()) => Err(SpdmStatus::CryptoFailure),
    }
}

} // verus!
