//! Signing with the device's private key.
use vstd::prelude::*;
use crate::crypto::{SpdmCryptoProvider, SpdmCryptoRegistry};
use crate::msgs::{asym_size, SpdmBaseAsymAlgo, SpdmBaseHashAlgo, SpdmSignatureStruct};

verus! {

/// Offers `provider` for signing; only the first registration is kept.
pub fn register<P>(registry: &mut SpdmCryptoRegistry<P>, provider: P) -> (r: bool)
    ensures
        r == (old(registry).asym_sign@ is None),
        final(registry).asym_sign@ == if r { Some(provider) } else { old(registry).asym_sign@ },
        final(registry).hash == old(registry).hash,
        final(registry).hmac == old(registry).hmac,
        final(registry).aead == old(registry).aead,
        final(registry).asym_verify == old(registry).asym_verify,
        final(registry).dhe == old(registry).dhe,
        final(registry).cert_operation == old(registry).cert_operation,
        final(registry).hkdf == old(registry).hkdf,
{
    registry.asym_sign.try_init_once(provider)
}

/// Signs `data`; `None` without a provider, for an algorithm that is not a
/// single selection, or when the signature has the wrong length.
pub fn sign<P: SpdmCryptoProvider>(
    registry: &SpdmCryptoRegistry<P>,
    base_hash_algo: SpdmBaseHashAlgo,
    base_asym_algo: SpdmBaseAsymAlgo,
    data: &[u8],
) -> (r: Option<SpdmSignatureStruct>)
    ensures
        r is Some ==> r->0@.len() == asym_size(base_asym_algo.bits) > 0,
        registry.asym_sign@ is None ==> r is None,
{
    let size = base_asym_algo.get_size();
    if size == 0 {
        return None;
    }
    match registry.asym_sign.get() {
        Some(p) => match p.sign(base_hash_algo, base_asym_algo, data) {
            Some(s) => if s.data.len() == size as usize {
                Some(s)
            } else {
                None
            },
            None => None,
        },
        None => None,
    }
}

} // verus!
