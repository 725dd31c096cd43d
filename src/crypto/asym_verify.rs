//! Signature verification against a peer certificate.
use vstd::prelude::*;
use crate::crypto::{SpdmCryptoProvider, SpdmCryptoRegistry};
use crate::error::{SpdmResult, SpdmStatus};
use crate::msgs::{asym_size, SpdmBaseAsymAlgo, SpdmBaseHashAlgo, SpdmSignatureStruct};

verus! {

/// Offers `provider` for signature verification; only the first registration is kept.
pub fn register<P>(registry: &mut SpdmCryptoRegistry<P>, provider: P) -> (r: bool)
    ensures
        r == (old(registry).asym_verify@ is None),
        final(registry).asym_verify@ == if r { Some(provider) } else { old(registry).asym_verify@ },
        final(registry).hash == old(registry).hash,
        final(registry).hmac == old(registry).hmac,
        final(registry).aead == old(registry).aead,
        final(registry).asym_sign == old(registry).asym_sign,
        final(registry).dhe == old(registry).dhe,
        final(registry).cert_operation == old(registry).cert_operation,
        final(registry).hkdf == old(registry).hkdf,
{
    registry.asym_verify.try_init_once(provider)
}

/// Verifies `signature` over `data` with the key of `public_cert_der`. A
/// signature of the wrong length is refused before the provider sees it.
pub fn verify<P: SpdmCryptoProvider>(
    registry: &SpdmCryptoRegistry<P>,
    base_hash_algo: SpdmBaseHashAlgo,
    base_asym_algo: SpdmBaseAsymAlgo,
    public_cert_der: &[u8],
    data: &[u8],
    signature: &SpdmSignatureStruct,
) -> (r: SpdmResult)
    ensures
        registry.asym_verify@ is None ==> r is Err,
        signature@.len() != asym_size(base_asym_algo.bits) ==> r is Err,
        asym_size(base_asym_algo.bits) == 0 ==> r is Err,
{
    let size = base_asym_algo.get_size();
    if size == 0 || signature.data.len() != size as usize {
        return Err(SpdmStatus::CryptoFailure);
    }
    match registry.asym_verify.get() {
        Some(p) => p.verify(base_hash_algo, base_asym_algo, public_cert_der, data, signature),
        None => Err(SpdmStatus::CryptoFailure),
    }
}

} // verus!
