//! HKDF expansion.
use vstd::prelude::*;
use crate::crypto::{SpdmCryptoProvider, SpdmCryptoRegistry};
use crate::msgs::{SpdmBaseHashAlgo, SpdmDigestStruct};

verus! {

/// Offers `provider` for HKDF; only the first registration is kept.
pub fn register<P>(registry: &mut SpdmCryptoRegistry<P>, provider: P) -> (r: bool)
    ensures
        r == (old(registry).hkdf@ is None),
        final(registry).hkdf@ == if r { Some(provider) } else { old(registry).hkdf@ },
        final(registry).hash == old(registry).hash,
        final(registry).hmac == old(registry).hmac,
        final(registry).aead == old(registry).aead,
        final(registry).asym_sign == old(registry).asym_sign,
        final(registry).asym_verify == old(registry).asym_verify,
        final(registry).dhe == old(registry).dhe,
        final(registry).cert_operation == old(registry).cert_operation,
{
    registry.hkdf.try_init_once(provider)
}

/// Expands `prk` with `info` to `out_size` bytes; `None` without a
/// provider or when the provider's result has the wrong length.
pub fn hkdf_expand<P: SpdmCryptoProvider>(
    registry: &SpdmCryptoRegistry<P>,
    base_hash_algo: SpdmBaseHashAlgo,
    prk: &[u8],
    info: &[u8],
    out_size: u16,
) -> (r: Option<SpdmDigestStruct>)
    ensures
        r is Some ==> r->0@.len() == out_size,
        registry.hkdf@ is None ==> r is None,
{
    match registry.hkdf.get() {
        Some(p) => match p.hkdf_expand(base_hash_algo, prk, info, out_size) {
            Some(d) => if d.data.len() == out_size as usize {
                Some(d)
            } else {
                None
            },
            None => None,
        },
        None => None,
    }
}

} // verus!
