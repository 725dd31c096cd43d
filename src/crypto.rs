//! The crypto capability registry. A provider is anything that implements
//! [`SpdmCryptoProvider`]; the registry keeps one write-once slot per
//! capability family, and the functions of each submodule look the provider
//! up, call it, and check the shape of what it returns.

pub mod aead;
pub mod asym_sign;
pub mod asym_verify;
pub mod cert_operation;
pub mod dhe;
pub mod hash;
pub mod hkdf;
pub mod hmac;
pub mod rand;

use vstd::prelude::*;
use crate::error::SpdmResult;
use crate::msgs::{
    SpdmAeadAlgo, SpdmBaseAsymAlgo, SpdmBaseHashAlgo, SpdmDheAlgo, SpdmDheExchangeStruct,
    SpdmDheFinalKeyStruct, SpdmDigestStruct, SpdmSignatureStruct,
};

verus! {

/// The cryptographic operations the protocol needs, supplied by the user.
pub trait SpdmCryptoProvider {
    fn hash_all(&self, base_hash_algo: SpdmBaseHashAlgo, data: &[u8]) -> Option<SpdmDigestStruct>;

    fn hmac(&self, base_hash_algo: SpdmBaseHashAlgo, key: &[u8], data: &[u8]) -> Option<SpdmDigestStruct>;

    fn hmac_verify(
        &self,
        base_hash_algo: SpdmBaseHashAlgo,
        key: &[u8],
        data: &[u8],
        hmac: &SpdmDigestStruct,
    ) -> SpdmResult;

    fn hkdf_expand(
        &self,
        base_hash_algo: SpdmBaseHashAlgo,
        prk: &[u8],
        info: &[u8],
        out_size: u16,
    ) -> Option<SpdmDigestStruct>;

    /// Returns the cipher text and the tag.
    fn encrypt(
        &self,
        aead_algo: SpdmAeadAlgo,
        key: &[u8],
        iv: &[u8],
        aad: &[u8],
        plain_text: &[u8],
    ) -> SpdmResult<(Vec<u8>, Vec<u8>)>;

    /// Returns the plain text.
    fn decrypt(
        &self,
        aead_algo: SpdmAeadAlgo,
        key: &[u8],
        iv: &[u8],
        aad: &[u8],
        cipher_text: &[u8],
        tag: &[u8],
    ) -> SpdmResult<Vec<u8>>;

    fn sign(
        &self,
        base_hash_algo: SpdmBaseHashAlgo,
        base_asym_algo: SpdmBaseAsymAlgo,
        data: &[u8],
    ) -> Option<SpdmSignatureStruct>;

    fn verify(
        &self,
        base_hash_algo: SpdmBaseHashAlgo,
        base_asym_algo: SpdmBaseAsymAlgo,
        public_cert_der: &[u8],
        data: &[u8],
        signature: &SpdmSignatureStruct,
    ) -> SpdmResult;

    /// Returns the public value and the private key, which is handed back,
    /// once, to `compute_final_key`.
    fn generate_key_pair(&self, dhe_algo: SpdmDheAlgo) -> Option<(SpdmDheExchangeStruct, Vec<u8>)>;

    fn compute_final_key(
        &self,
        dhe_algo: SpdmDheAlgo,
        private_key: Vec<u8>,
        peer_public: &SpdmDheExchangeStruct,
    ) -> Option<SpdmDheFinalKeyStruct>;

    /// Offset and length of certificate `index` of the chain; -1 is the last.
    fn get_cert_from_cert_chain(&self, cert_chain: &[u8], index: isize) -> SpdmResult<(usize, usize)>;

    fn verify_cert_chain(&self, cert_chain: &[u8]) -> SpdmResult;
}

/// A slot that can be filled once.
pub struct OnceSlot<P> {
    value: Option<P>,
}

impl<P> View for OnceSlot<P> {
    type V = Option<P>;

    closed spec fn view(&self) -> Option<P> {
        self.value
    }
}

impl<P> OnceSlot<P> {
    pub fn new() -> (s: OnceSlot<P>)
        ensures
            s@ is None,
    {
        OnceSlot { value: None }
    }

    /// The first value offered is kept; later ones are refused.
    pub fn try_init_once(&mut self, v: P) -> (r: bool)
        ensures
            r == (old(self)@ is None),
            final(self)@ == if r { Some(v) } else { old(self)@ },
    {
        if self.value.is_some() {
            false
        } else {
            self.value = Some(v);
            true
        }
    }

    pub fn get(&self) -> (r: Option<&P>)
        ensures
            r is Some <==> self@ is Some,
            r is Some ==> *r->0 == self@->0,
    {
        match &self.value {
            Some(p) => Some(p),
            None => None,
        }
    }
}

/// One write-once provider slot per capability family.
pub struct SpdmCryptoRegistry<P> {
    pub hash: OnceSlot<P>,
    pub hmac: OnceSlot<P>,
    pub aead: OnceSlot<P>,
    pub asym_sign: OnceSlot<P>,
    pub asym_verify: OnceSlot<P>,
    pub dhe: OnceSlot<P>,
    pub cert_operation: OnceSlot<P>,
    pub hkdf: OnceSlot<P>,
}

impl<P> SpdmCryptoRegistry<P> {
    /// A registry with every slot empty.
    pub fn new() -> (r: SpdmCryptoRegistry<P>)
        ensures
            r.hash@ is None,
            r.hmac@ is None,
            r.aead@ is None,
            r.asym_sign@ is None,
            r.asym_verify@ is None,
            r.dhe@ is None,
            r.cert_operation@ is None,
            r.hkdf@ is None,
    {
        SpdmCryptoRegistry {
            hash: OnceSlot::new(),
            hmac: OnceSlot::new(),
            aead: OnceSlot::new(),
            asym_sign: OnceSlot::new(),
            asym_verify: OnceSlot::new(),
            dhe: OnceSlot::new(),
            cert_operation: OnceSlot::new(),
            hkdf: OnceSlot::new(),
        }
    }
}

} // verus!
