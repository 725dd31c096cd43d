//! Authenticated encryption of session records.
use vstd::prelude::*;
use crate::crypto::{SpdmCryptoProvider, SpdmCryptoRegistry};
use crate::error::{SpdmResult, SpdmStatus};
use crate::msgs::{aead_iv_size, aead_key_size, SpdmAeadAlgo};

verus! {

/// Offers `provider` for AEAD; only the first registration is kept.
pub fn register<P>(registry: &mut SpdmCryptoRegistry<P>, provider: P) -> (r: bool)
    ensures
        r == (old(registry).aead@ is None),
        final(registry).aead@ == if r { Some(provider) } else { old(registry).aead@ },
        final(registry).hash == old(registry).hash,
        final(registry).hmac == old(registry).hmac,
        final(registry).asym_sign == old(registry).asym_sign,
        final(registry).asym_verify == old(registry).asym_verify,
        final(registry).dhe == old(registry).dhe,
        final(registry).cert_operation == old(registry).cert_operation,
        final(registry).hkdf == old(registry).hkdf,
{
    registry.aead.try_init_once(provider)
}

/// Size of every AEAD tag.
pub const AEAD_TAG_SIZE: usize = 16;

/// Encrypts `plain_text`; returns the cipher text and the tag. Key and
/// nonce must have the algorithm's sizes; a provider result whose cipher
/// text is not as long as the plain text, or whose tag is not 16 bytes, is
/// refused.
pub fn encrypt<P: SpdmCryptoProvider>(
    registry: &SpdmCryptoRegistry<P>,
    aead_algo: SpdmAeadAlgo,
    key: &[u8],
    iv: &[u8],
    aad: &[u8],
    plain_text: &[u8],
) -> (r: SpdmResult<(Vec<u8>, Vec<u8>)>)
    ensures
        r matches Ok((c, t)) ==> c@.len() == plain_text@.len() && t@.len() == AEAD_TAG_SIZE,
        r is Ok ==> key@.len() == aead_key_size(aead_algo.bits) > 0 && iv@.len() == aead_iv_size(aead_algo.bits),
        registry.aead@ is None ==> r is Err,
{
    let key_size = aead_algo.get_key_size();
    if key_size == 0 || key.len() != key_size as usize || iv.len() != aead_algo.get_iv_size() as usize {
        return Err(SpdmStatus::InvalidParameter);
    }
    match registry.aead.get() {
        Some(p) => match p.encrypt(aead_algo, key, iv, aad, plain_text) {
            Ok((cipher, tag)) => if cipher.len() == plain_text.len() && tag.len() == AEAD_TAG_SIZE {
                Ok((cipher, tag))
            } else {
                Err(SpdmStatus::CryptoFailure)
            },
            Err(e) => Err(e),
        },
        None => Err(SpdmStatus::CryptoFailure),
    }
}

/// Decrypts `cipher_text` and checks `tag`; returns the plain text, which
/// must be as long as the cipher text.
pub fn decrypt<P: SpdmCryptoProvider>(
    registry: &SpdmCryptoRegistry<P>,
    aead_algo: SpdmAeadAlgo,
    key: &[u8],
    iv: &[u8],
    aad: &[u8],
    cipher_text: &[u8],
    tag: &[u8],
) -> (r: SpdmResult<Vec<u8>>)
    ensures
        r matches Ok(p) ==> p@.len() == cipher_text@.len(),
        r is Ok ==> key@.len() == aead_key_size(aead_algo.bits) > 0 && iv@.len() == aead_iv_size(aead_algo.bits),
        r is Ok ==> tag@.len() == AEAD_TAG_SIZE,
        registry.aead@ is None ==> r is Err,
{
    let key_size = aead_algo.get_key_size();
    if key_size == 0 || key.len() != key_size as usize || iv.len() != aead_algo.get_iv_size() as usize
        || tag.len() != AEAD_TAG_SIZE {
        return Err(SpdmStatus::InvalidParameter);
    }
    match registry.aead.get() {
        Some(p) => match p.decrypt(aead_algo, key, iv, aad, cipher_text, tag) {
            Ok(plain) => if plain.len() == cipher_text.len() {
                Ok(plain)
            } else {
                Err(SpdmStatus::CryptoFailure)
            },
            Err(e) => Err(e),
        },
        None => Err(SpdmStatus::CryptoFailure),
    }
}

} // verus!
