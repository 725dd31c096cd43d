//! Ephemeral Diffie-Hellman key agreement.
use vstd::prelude::*;
use crate::crypto::{SpdmCryptoProvider, SpdmCryptoRegistry};
use crate::msgs::{dhe_size, SpdmDheAlgo, SpdmDheExchangeStruct, SpdmDheFinalKeyStruct};

verus! {

/// Offers `provider` for key agreement; only the first registration is kept.
pub fn register<P>(registry: &mut SpdmCryptoRegistry<P>, provider: P) -> (r: bool)
    ensures
        r == (old(registry).dhe@ is None),
        final(registry).dhe@ == if r { Some(provider) } else { old(registry).dhe@ },
        final(registry).hash == old(registry).hash,
        final(registry).hmac == old(registry).hmac,
        final(registry).aead == old(registry).aead,
        final(registry).asym_sign == old(registry).asym_sign,
        final(registry).asym_verify == old(registry).asym_verify,
        final(registry).cert_operation == old(registry).cert_operation,
        final(registry).hkdf == old(registry).hkdf,
{
    registry.dhe.try_init_once(provider)
}

/// A fresh key pair: the public value, of the group's size, and the private
/// key to hand to [`compute_final_key`].
pub fn generate_key_pair<P: SpdmCryptoProvider>(
    registry: &SpdmCryptoRegistry<P>,
    dhe_algo: SpdmDheAlgo,
) -> (r: Option<(SpdmDheExchangeStruct, Vec<u8>)>)
    ensures
        r matches Some((e, _)) ==> e@.len() == dhe_size(dhe_algo.bits) > 0,
        registry.dhe@ is None ==> r is None,
{
    let size = dhe_algo.get_size();
    if size == 0 {
        return None;
    }
    match registry.dhe.get() {
        Some(p) => match p.generate_key_pair(dhe_algo) {
            Some((exchange, private_key)) => if exchange.data.len() == size as usize {
                Some((exchange, private_key))
            } else {
                None
            },
            None => None,
        },
        None => None,
    }
}

/// The shared secret from our private key and the peer's public value,
/// which must have the group's size.
pub fn compute_final_key<P: SpdmCryptoProvider>(
    registry: &SpdmCryptoRegistry<P>,
    dhe_algo: SpdmDheAlgo,
    private_key: Vec<u8>,
    peer_public: &SpdmDheExchangeStruct,
) -> (r: Option<SpdmDheFinalKeyStruct>)
    ensures
        r is Some ==> peer_public@.len() == dhe_size(dhe_algo.bits) > 0,
        r is Some ==> r->0@.len() > 0,
        registry.dhe@ is None ==> r is None,
{
    let size = dhe_algo.get_size();
    if size == 0 || peer_public.data.len() != size as usize {
        return None;
    }
    match registry.dhe.get() {
        Some(p) => match p.compute_final_key(dhe_algo, private_key, peer_public) {
            Some(k) => if k.data.len() > 0 {
                Some(k)
            } else {
                None
            },
            None => None,
        },
        None => None,
    }
}

} // verus!
