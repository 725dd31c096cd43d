//! Hashing: the registered provider, or SHA-2 from ring when none is.
use vstd::prelude::*;
use crate::crypto::{SpdmCryptoProvider, SpdmCryptoRegistry};
use crate::msgs::{
    hash_size, SpdmBaseHashAlgo, SpdmDigestStruct, SPDM_HASH_SHA_256, SPDM_HASH_SHA_384,
    SPDM_HASH_SHA_512,
};

verus! {

/// The digest that ring computes for algorithm `bits` (a single SHA-2
/// selection) over `data`.
pub uninterp spec fn ring_digest(bits: u32, data: Seq<u8>) -> Seq<u8>;

/// The SHA-2 variants ring offers.
pub enum RingDigestAlgorithm {
    Sha256,
    Sha384,
    Sha512,
}

pub open spec fn ring_algorithm_bits(a: RingDigestAlgorithm) -> u32 {
    match a {
        RingDigestAlgorithm::Sha256 => SPDM_HASH_SHA_256,
        RingDigestAlgorithm::Sha384 => SPDM_HASH_SHA_384,
        RingDigestAlgorithm::Sha512 => SPDM_HASH_SHA_512,
    }
}

/// Relies on ring::digest::digest: the digest of `data`, whose length is the
/// algorithm's output length (32, 48 or 64 bytes). It panics only on input
/// longer than the algorithm's bit counter admits, which `requires` excludes.
#[verifier::external_body]
fn ring_digest_of(algorithm: RingDigestAlgorithm, data: &[u8]) -> (r: Vec<u8>)
    requires
        data@.len() < 0x1000_0000_0000_0000,
    ensures
        r@ == ring_digest(ring_algorithm_bits(algorithm), data@),
        r@.len() == hash_size(ring_algorithm_bits(algorithm)),
{
    let a = match algorithm {
        RingDigestAlgorithm::Sha256 => &ring::digest::SHA256,
        RingDigestAlgorithm::Sha384 => &ring::digest::SHA384,
        RingDigestAlgorithm::Sha512 => &ring::digest::SHA512,
    };
    ring::digest::digest(a, data).as_ref().to_vec()
}

/// Offers `provider` for hashing; only the first registration is kept.
pub fn register<P>(registry: &mut SpdmCryptoRegistry<P>, provider: P) -> (r: bool)
    ensures
        r == (old(registry).hash@ is None),
        final(registry).hash@ == if r { Some(provider) } else { old(registry).hash@ },
        final(registry).hmac == old(registry).hmac,
        final(registry).aead == old(registry).aead,
        final(registry).asym_sign == old(registry).asym_sign,
        final(registry).asym_verify == old(registry).asym_verify,
        final(registry).dhe == old(registry).dhe,
        final(registry).cert_operation == old(registry).cert_operation,
        final(registry).hkdf == old(registry).hkdf,
{
    registry.hash.try_init_once(provider)
}

/// The SHA-2 digest by the built-in backend: `None` for an algorithm that
/// is not a single SHA-2 selection.
pub fn ring_hash_all(base_hash_algo: SpdmBaseHashAlgo, data: &[u8]) -> (r: Option<SpdmDigestStruct>)
    requires
        data@.len() < 0x1000_0000_0000_0000,
    ensures
        hash_size(base_hash_algo.bits) == 0 <==> r is None,
        r is Some ==> r->0@ == ring_digest(base_hash_algo.bits, data@),
        r is Some ==> r->0@.len() == hash_size(base_hash_algo.bits),
{
    let bits = base_hash_algo.bits;
    let algorithm = if bits == SPDM_HASH_SHA_256 {
        RingDigestAlgorithm::Sha256
    } else if bits == SPDM_HASH_SHA_384 {
        RingDigestAlgorithm::Sha384
    } else if bits == SPDM_HASH_SHA_512 {
        RingDigestAlgorithm::Sha512
    } else {
        return None;
    };
    Some(SpdmDigestStruct { data: ring_digest_of(algorithm, data) })
}

/// Hashes `data` with the registered provider, or with the built-in SHA-2
/// backend when none is registered. A provider result of the wrong length
/// is discarded.
pub fn hash_all<P: SpdmCryptoProvider>(
    registry: &SpdmCryptoRegistry<P>,
    base_hash_algo: SpdmBaseHashAlgo,
    data: &[u8],
) -> (r: Option<SpdmDigestStruct>)
    requires
        data@.len() < 0x1000_0000_0000_0000,
    ensures
        r is Some ==> r->0@.len() == hash_size(base_hash_algo.bits) > 0,
        hash_size(base_hash_algo.bits) == 0 ==> r is None,
        registry.hash@ is None ==> match r {
            Some(d) => hash_size(base_hash_algo.bits) > 0 && d@ == ring_digest(base_hash_algo.bits, data@),
            None => hash_size(base_hash_algo.bits) == 0,
        },
{
    let size = base_hash_algo.get_size();
    match registry.hash.get() {
        Some(p) => {
            if size == 0 {
                return None;
            }
            match p.hash_all(base_hash_algo, data) {
                Some(d) => if d.data.len() == size as usize {
                    Some(d)
                } else {
                    None
                },
                None => None,
            }
        },
        None => ring_hash_all(base_hash_algo, data),
    }
}

} // verus!
