//! Certificate chain parsing and validation.
use vstd::prelude::*;
use crate::crypto::{SpdmCryptoProvider, SpdmCryptoRegistry};
use crate::error::{SpdmResult, SpdmStatus};

verus! {

/// Offers `provider` for certificate operations; only the first registration is kept.
pub fn register<P>(registry: &mut SpdmCryptoRegistry<P>, provider: P) -> (r: bool)
    ensures
        r == (old(registry).cert_operation@ is None),
        final(registry).cert_operation@ == if r { Some(provider) } else { old(registry).cert_operation@ },
        final(registry).hash == old(registry).hash,
        final(registry).hmac == old(registry).hmac,
        final(registry).aead == old(registry).aead,
        final(registry).asym_sign == old(registry).asym_sign,
        final(registry).asym_verify == old(registry).asym_verify,
        final(registry).dhe == old(registry).dhe,
        final(registry).hkdf == old(registry).hkdf,
{
    registry.cert_operation.try_init_once(provider)
}

/// Offset and length of certificate `index` in `cert_chain` (-1: the last);
/// the range lies inside the chain.
pub fn get_cert_from_cert_chain<P: SpdmCryptoProvider>(
    registry: &SpdmCryptoRegistry<P>,
    cert_chain: &[u8],
    index: isize,
) -> (r: SpdmResult<(usize, usize)>)
    ensures
        r matches Ok((off, len)) ==> off + len <= cert_chain@.len(),
        registry.cert_operation@ is None ==> r is Err,
{
    match registry.cert_operation.get() {
        Some(p) => match p.get_cert_from_cert_chain(cert_chain, index) {
            Ok((offset, length)) => if offset <= cert_chain.len() && length <= cert_chain.len() - offset {
                Ok((offset, length))
            } else {
                Err(SpdmStatus::CryptoFailure)
            },
            Err(e) => Err(e),
        },
        None => Err(SpdmStatus::CryptoFailure),
    }
}

/// Validates `cert_chain`; an empty chain is refused.
pub fn verify_cert_chain<P: SpdmCryptoProvider>(
    registry: &SpdmCryptoRegistry<P>,
    cert_chain: &[u8],
) -> (r: SpdmResult)
    ensures
        registry.cert_operation@ is None ==> r is Err,
        cert_chain@.len() == 0 ==> r is Err,
{
    if cert_chain.len() == 0 {
        return Err(SpdmStatus::InvalidParameter);
    }
    match registry.cert_operation.get() {
        Some(p) => p.verify_cert_chain(cert_chain),
        None => Err(SpdmStatus::CryptoFailure),
    }
}

} // verus!
