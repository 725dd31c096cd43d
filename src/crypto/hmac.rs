//! HMAC over the negotiated hash.
use vstd::prelude::*;
use crate::crypto::{SpdmCryptoProvider, SpdmCryptoRegistry};
use crate::error::{SpdmResult, SpdmStatus};
use crate::msgs::{hash_size, SpdmBaseHashAlgo, SpdmDigestStruct};

verus! {

/// Offers `provider` for HMAC; only the first registration is kept.
pub fn register<P>(registry: &mut SpdmCryptoRegistry<P>, provider: P) -> (r: bool)
    ensures
        r == (old(registry).hmac@ is None),
        final(registry).hmac@ == if r { Some(provider) } else { old(registry).hmac@ },
        final(registry).hash == old(registry).hash,
        final(registry).aead == old(registry).aead,
        final(registry).asym_sign == old(registry).asym_sign,
        final(registry).asym_verify == old(registry).asym_verify,
        final(registry).dhe == old(registry).dhe,
        final(registry).cert_operation == old(registry).cert_operation,
        final(registry).hkdf == old(registry).hkdf,
{
    registry.hmac.try_init_once(provider)
}

/// The HMAC of `data` under `key`; `None` without a provider, for an
/// algorithm that is not a single selection, or when the provider's result
/// has the wrong length.
pub fn hmac<P: SpdmCryptoProvider>(
    registry: &SpdmCryptoRegistry<P>,
    base_hash_algo: SpdmBaseHashAlgo,
    key: &[u8],
    data: &[u8],
) -> (r: Option<SpdmDigestStruct>)
    ensures
        r is Some ==> r->0@.len() == hash_size(base_hash_algo.bits) > 0,
        registry.hmac@ is None ==> r is None,
        hash_size(base_hash_algo.bits) == 0 ==> r is None,
{
    let size = base_hash_algo.get_size();
    if size == 0 {
        return None;
    }
    match registry.hmac.get() {
        Some(p) => match p.hmac(base_hash_algo, key, data) {
            Some(d) => if d.data.len() == size as usize {
                Some(d)
            } else {
                None
            },
            None => None,
        },
        None => None,
    }
}

/// Checks `hmac` against `data` under `key`. A value of the wrong length
/// is refused before the provider sees it.
pub fn hmac_verify<P: SpdmCryptoProvider>(
    registry: &SpdmCryptoRegistry<P>,
    base_hash_algo: SpdmBaseHashAlgo,
    key: &[u8],
    data: &[u8],
    hmac: &SpdmDigestStruct,
) -> (r: SpdmResult)
    ensures
        registry.hmac@ is None ==> r is Err,
        hmac@.len() != hash_size(base_hash_algo.bits) ==> r is Err,
        hash_size(base_hash_algo.bits) == 0 ==> r is Err,
{
    let size = base_hash_algo.get_size();
    if size == 0 || hmac.data.len() != size as usize {
        return Err(SpdmStatus::CryptoFailure);
    }
    match registry.hmac.get() {
        Some(p) => p.hmac_verify(base_hash_algo, key, data, hmac),
        None => Err(SpdmStatus::CryptoFailure),
    }
}

} // verus!
