//! Message header, codes, negotiated algorithm selections and the
//! length-driven byte structures.
use vstd::prelude::*;
use crate::codec::{encode_bytes, parse_bytes, lemma_bytes_round_trip, Reader};

verus! {

/// Protocol version carried in every header.
#[derive(Debug, Clone, Copy, PartialEq, Eq, Structural)]
pub enum SpdmVersion {
    SpdmVersion10,
    SpdmVersion11,
    Unknown(u8),
}

pub open spec fn version_to_u8(v: SpdmVersion) -> u8 {
    match v {
        SpdmVersion::SpdmVersion10 => 0x10,
        SpdmVersion::SpdmVersion11 => 0x11,
        SpdmVersion::Unknown(b) => b,
    }
}

pub open spec fn version_from_u8(b: u8) -> SpdmVersion {
    if b == 0x10 {
        SpdmVersion::SpdmVersion10
    } else if b == 0x11 {
        SpdmVersion::SpdmVersion11
    } else {
        SpdmVersion::Unknown(b)
    }
}

/// A version value is valid when an `Unknown` one holds no recognised byte.
pub open spec fn version_valid(v: SpdmVersion) -> bool {
    match v {
        SpdmVersion::Unknown(b) => b != 0x10 && b != 0x11,
        _ => true,
    }
}

impl SpdmVersion {
    pub fn get_u8(&self) -> (r: u8)
        ensures
            r == version_to_u8(*self),
    {
        match self {
            SpdmVersion::SpdmVersion10 => 0x10,
            SpdmVersion::SpdmVersion11 => 0x11,
            SpdmVersion::Unknown(b) => *b,
        }
    }

    pub fn from_u8(b: u8) -> (r: SpdmVersion)
        ensures
            r == version_from_u8(b),
            version_valid(r),
    {
        if b == 0x10 {
            SpdmVersion::SpdmVersion10
        } else if b == 0x11 {
            SpdmVersion::SpdmVersion11
        } else {
            SpdmVersion::Unknown(b)
        }
    }
}

pub proof fn lemma_version_byte(v: SpdmVersion)
    requires
        version_valid(v),
    ensures
        version_from_u8(version_to_u8(v)) == v,
{
}

pub const SPDM_GET_DIGESTS: u8 = 0x81;
pub const SPDM_GET_CERTIFICATE: u8 = 0x82;
pub const SPDM_CHALLENGE: u8 = 0x83;
pub const SPDM_GET_VERSION: u8 = 0x84;
pub const SPDM_GET_MEASUREMENTS: u8 = 0xE0;
pub const SPDM_GET_CAPABILITIES: u8 = 0xE1;
pub const SPDM_NEGOTIATE_ALGORITHMS: u8 = 0xE3;
pub const SPDM_KEY_EXCHANGE: u8 = 0xE4;
pub const SPDM_FINISH: u8 = 0xE5;
pub const SPDM_PSK_EXCHANGE: u8 = 0xE6;
pub const SPDM_PSK_FINISH: u8 = 0xE7;
pub const SPDM_HEARTBEAT: u8 = 0xE8;
pub const SPDM_KEY_UPDATE: u8 = 0xE9;
pub const SPDM_END_SESSION: u8 = 0xEC;
pub const SPDM_DIGESTS: u8 = 0x01;
pub const SPDM_CERTIFICATE: u8 = 0x02;
pub const SPDM_CHALLENGE_AUTH: u8 = 0x03;
pub const SPDM_VERSION: u8 = 0x04;
pub const SPDM_MEASUREMENTS: u8 = 0x60;
pub const SPDM_CAPABILITIES: u8 = 0x61;
pub const SPDM_ALGORITHMS: u8 = 0x63;
pub const SPDM_KEY_EXCHANGE_RSP: u8 = 0x64;
pub const SPDM_FINISH_RSP: u8 = 0x65;
pub const SPDM_PSK_EXCHANGE_RSP: u8 = 0x66;
pub const SPDM_PSK_FINISH_RSP: u8 = 0x67;
pub const SPDM_HEARTBEAT_ACK: u8 = 0x68;
pub const SPDM_KEY_UPDATE_ACK: u8 = 0x69;
pub const SPDM_END_SESSION_ACK: u8 = 0x6C;
pub const SPDM_ERROR: u8 = 0x7F;

/// The first two bytes of every message. The request/response code is kept
/// as its wire byte; the codes are the `SPDM_*` constants.
#[derive(Debug, Clone, Copy, PartialEq, Eq, Structural)]
pub struct SpdmMessageHeader {
    pub version: SpdmVersion,
    pub request_response_code: u8,
}

pub open spec fn spec_header(h: SpdmMessageHeader) -> Seq<u8> {
    seq![version_to_u8(h.version), h.request_response_code]
}

pub open spec fn parse_header(s: Seq<u8>) -> Option<(SpdmMessageHeader, Seq<u8>)> {
    if s.len() >= 2 {
        Some((
            SpdmMessageHeader { version: version_from_u8(s[0]), request_response_code: s[1] },
            s.skip(2),
        ))
    } else {
        None
    }
}

impl SpdmMessageHeader {
    pub fn encode(&self, w: &mut Vec<u8>)
        ensures
            final(w)@ == old(w)@ + spec_header(*self),
    {
        w.push(self.version.get_u8());
        w.push(self.request_response_code);
        assert(final(w)@ =~= old(w)@ + spec_header(*self));
    }

    pub fn read(r: &mut Reader) -> (h: Option<SpdmMessageHeader>)
        requires
            old(r).wf(),
        ensures
            final(r).wf(),
            final(r).buf@ == old(r).buf@,
            match parse_header(old(r).rest()) {
                Some((v, rest)) => h == Some(v) && final(r).rest() == rest,
                None => h is None,
            },
    {
        let v = r.read_u8();
        match v {
            None => None,
            Some(v) => {
                let c = r.read_u8();
                match c {
                    None => None,
                    Some(c) => {
                        assert(old(r).rest().skip(1).skip(1) =~= old(r).rest().skip(2));
                        Some(SpdmMessageHeader { version: SpdmVersion::from_u8(v), request_response_code: c })
                    },
                }
            },
        }
    }
}

pub proof fn lemma_header_round_trip(h: SpdmMessageHeader, rest: Seq<u8>)
    requires
        version_valid(h.version),
    ensures
        parse_header(spec_header(h) + rest) == Some((h, rest)),
{
    assert((spec_header(h) + rest).skip(2) =~= rest);
}

pub const SPDM_HASH_SHA_256: u32 = 0x1;
pub const SPDM_HASH_SHA_384: u32 = 0x2;
pub const SPDM_HASH_SHA_512: u32 = 0x4;

/// Base hash algorithm, as its on-wire bit mask.
#[derive(Debug, Clone, Copy, PartialEq, Eq, Structural)]
pub struct SpdmBaseHashAlgo {
    pub bits: u32,
}

pub open spec fn hash_size(bits: u32) -> u16 {
    if bits == SPDM_HASH_SHA_256 {
        32
    } else if bits == SPDM_HASH_SHA_384 {
        48
    } else if bits == SPDM_HASH_SHA_512 {
        64
    } else {
        0
    }
}

impl SpdmBaseHashAlgo {
    /// Digest size of a single selection; zero when none or several bits are set.
    pub fn get_size(&self) -> (r: u16)
        ensures
            r == hash_size(self.bits),
            r <= 64,
    {
        if self.bits == SPDM_HASH_SHA_256 {
            32
        } else if self.bits == SPDM_HASH_SHA_384 {
            48
        } else if self.bits == SPDM_HASH_SHA_512 {
            64
        } else {
            0
        }
    }
}

pub const SPDM_ASYM_RSASSA_2048: u32 = 0x1;
pub const SPDM_ASYM_RSAPSS_2048: u32 = 0x2;
pub const SPDM_ASYM_RSASSA_3072: u32 = 0x4;
pub const SPDM_ASYM_RSAPSS_3072: u32 = 0x8;
pub const SPDM_ASYM_ECDSA_P256: u32 = 0x10;
pub const SPDM_ASYM_RSASSA_4096: u32 = 0x20;
pub const SPDM_ASYM_RSAPSS_4096: u32 = 0x40;
pub const SPDM_ASYM_ECDSA_P384: u32 = 0x80;
pub const SPDM_ASYM_ECDSA_P521: u32 = 0x100;

/// Base asymmetric (signature) algorithm, as its on-wire bit mask.
#[derive(Debug, Clone, Copy, PartialEq, Eq, Structural)]
pub struct SpdmBaseAsymAlgo {
    pub bits: u32,
}

pub open spec fn asym_size(bits: u32) -> u16 {
    if bits == SPDM_ASYM_RSASSA_2048 || bits == SPDM_ASYM_RSAPSS_2048 {
        256
    } else if bits == SPDM_ASYM_RSASSA_3072 || bits == SPDM_ASYM_RSAPSS_3072 {
        384
    } else if bits == SPDM_ASYM_RSASSA_4096 || bits == SPDM_ASYM_RSAPSS_4096 {
        512
    } else if bits == SPDM_ASYM_ECDSA_P256 {
        64
    } else if bits == SPDM_ASYM_ECDSA_P384 {
        96
    } else if bits == SPDM_ASYM_ECDSA_P521 {
        132
    } else {
        0
    }
}

impl SpdmBaseAsymAlgo {
    /// Signature size of a single selection; zero when none or several bits are set.
    pub fn get_size(&self) -> (r: u16)
        ensures
            r == asym_size(self.bits),
            r <= 512,
    {
        let b = self.bits;
        if b == SPDM_ASYM_RSASSA_2048 || b == SPDM_ASYM_RSAPSS_2048 {
            256
        } else if b == SPDM_ASYM_RSASSA_3072 || b == SPDM_ASYM_RSAPSS_3072 {
            384
        } else if b == SPDM_ASYM_RSASSA_4096 || b == SPDM_ASYM_RSAPSS_4096 {
            512
        } else if b == SPDM_ASYM_ECDSA_P256 {
            64
        } else if b == SPDM_ASYM_ECDSA_P384 {
            96
        } else if b == SPDM_ASYM_ECDSA_P521 {
            132
        } else {
            0
        }
    }
}

pub const SPDM_DHE_FFDHE_2048: u16 = 0x1;
pub const SPDM_DHE_FFDHE_3072: u16 = 0x2;
pub const SPDM_DHE_FFDHE_4096: u16 = 0x4;
pub const SPDM_DHE_SECP_256_R1: u16 = 0x8;
pub const SPDM_DHE_SECP_384_R1: u16 = 0x10;
pub const SPDM_DHE_SECP_521_R1: u16 = 0x20;

/// DHE group, as its on-wire bit mask.
#[derive(Debug, Clone, Copy, PartialEq, Eq, Structural)]
pub struct SpdmDheAlgo {
    pub bits: u16,
}

pub open spec fn dhe_size(bits: u16) -> u16 {
    if bits == SPDM_DHE_FFDHE_2048 {
        256
    } else if bits == SPDM_DHE_FFDHE_3072 {
        384
    } else if bits == SPDM_DHE_FFDHE_4096 {
        512
    } else if bits == SPDM_DHE_SECP_256_R1 {
        64
    } else if bits == SPDM_DHE_SECP_384_R1 {
        96
    } else if bits == SPDM_DHE_SECP_521_R1 {
        132
    } else {
        0
    }
}

impl SpdmDheAlgo {
    /// Public value size of a single selection; zero when none or several bits are set.
    pub fn get_size(&self) -> (r: u16)
        ensures
            r == dhe_size(self.bits),
            r <= 512,
    {
        let b = self.bits;
        if b == SPDM_DHE_FFDHE_2048 {
            256
        } else if b == SPDM_DHE_FFDHE_3072 {
            384
        } else if b == SPDM_DHE_FFDHE_4096 {
            512
        } else if b == SPDM_DHE_SECP_256_R1 {
            64
        } else if b == SPDM_DHE_SECP_384_R1 {
            96
        } else if b == SPDM_DHE_SECP_521_R1 {
            132
        } else {
            0
        }
    }
}

pub const SPDM_AEAD_AES_128_GCM: u16 = 0x1;
pub const SPDM_AEAD_AES_256_GCM: u16 = 0x2;
pub const SPDM_AEAD_CHACHA20_POLY1305: u16 = 0x4;

/// AEAD algorithm, as its on-wire bit mask.
#[derive(Debug, Clone, Copy, PartialEq, Eq, Structural)]
pub struct SpdmAeadAlgo {
    pub bits: u16,
}

pub open spec fn aead_key_size(bits: u16) -> u16 {
    if bits == SPDM_AEAD_AES_128_GCM {
        16
    } else if bits == SPDM_AEAD_AES_256_GCM || bits == SPDM_AEAD_CHACHA20_POLY1305 {
        32
    } else {
        0
    }
}

pub open spec fn aead_iv_size(bits: u16) -> u16 {
    if aead_key_size(bits) == 0 { 0 } else { 12 }
}

impl SpdmAeadAlgo {
    pub fn get_key_size(&self) -> (r: u16)
        ensures
            r == aead_key_size(self.bits),
    {
        if self.bits == SPDM_AEAD_AES_128_GCM {
            16
        } else if self.bits == SPDM_AEAD_AES_256_GCM || self.bits == SPDM_AEAD_CHACHA20_POLY1305 {
            32
        } else {
            0
        }
    }

    pub fn get_iv_size(&self) -> (r: u16)
        ensures
            r == aead_iv_size(self.bits),
    {
        if self.get_key_size() == 0 { 0 } else { 12 }
    }
}

pub const SPDM_KEY_SCHEDULE_SPDM: u16 = 0x1;

/// Key schedule algorithm, as its on-wire bit mask.
#[derive(Debug, Clone, Copy, PartialEq, Eq, Structural)]
pub struct SpdmKeyScheduleAlgo {
    pub bits: u16,
}

pub const SPDM_MEASUREMENT_SUMMARY_HASH_NONE: u8 = 0x0;
pub const SPDM_MEASUREMENT_SUMMARY_HASH_TCB: u8 = 0x1;
pub const SPDM_MEASUREMENT_SUMMARY_HASH_ALL: u8 = 0xFF;

/// A byte structure whose length comes from a negotiated algorithm: a
/// digest, a signature, a DHE public value or a shared secret.
#[derive(Debug, Clone, PartialEq, Eq)]
pub struct SpdmDigestStruct {
    pub data: Vec<u8>,
}

#[derive(Debug, Clone, PartialEq, Eq)]
pub struct SpdmSignatureStruct {
    pub data: Vec<u8>,
}

#[derive(Debug, Clone, PartialEq, Eq)]
pub struct SpdmDheExchangeStruct {
    pub data: Vec<u8>,
}

#[derive(Debug, Clone, PartialEq, Eq)]
pub struct SpdmDheFinalKeyStruct {
    pub data: Vec<u8>,
}

impl View for SpdmDigestStruct {
    type V = Seq<u8>;

    open spec fn view(&self) -> Seq<u8> {
        self.data@
    }
}

impl View for SpdmSignatureStruct {
    type V = Seq<u8>;

    open spec fn view(&self) -> Seq<u8> {
        self.data@
    }
}

impl View for SpdmDheExchangeStruct {
    type V = Seq<u8>;

    open spec fn view(&self) -> Seq<u8> {
        self.data@
    }
}

impl View for SpdmDheFinalKeyStruct {
    type V = Seq<u8>;

    open spec fn view(&self) -> Seq<u8> {
        self.data@
    }
}

impl SpdmDigestStruct {
    /// Writes exactly the digest bytes.
    pub fn spdm_encode(&self, w: &mut Vec<u8>)
        ensures
            final(w)@ == old(w)@ + self@,
    {
        encode_bytes(self.data.as_slice(), w);
    }

    /// Reads exactly `hash_size` bytes, the negotiated digest length.
    pub fn spdm_read(hash_size: u16, r: &mut Reader) -> (d: Option<SpdmDigestStruct>)
        requires
            old(r).wf(),
        ensures
            final(r).wf(),
            final(r).buf@ == old(r).buf@,
            match parse_bytes(old(r).rest(), hash_size as nat) {
                Some((v, rest)) => d is Some && d->0@ == v && final(r).rest() == rest,
                None => d is None,
            },
    {
        match r.read_bytes(hash_size as usize) {
            Some(data) => Some(SpdmDigestStruct { data }),
            None => None,
        }
    }
}

impl SpdmSignatureStruct {
    /// Writes exactly the signature bytes.
    pub fn spdm_encode(&self, w: &mut Vec<u8>)
        ensures
            final(w)@ == old(w)@ + self@,
    {
        encode_bytes(self.data.as_slice(), w);
    }

    /// Reads exactly `asym_size` bytes, the negotiated signature length.
    pub fn spdm_read(asym_size: u16, r: &mut Reader) -> (d: Option<SpdmSignatureStruct>)
        requires
            old(r).wf(),
        ensures
            final(r).wf(),
            final(r).buf@ == old(r).buf@,
            match parse_bytes(old(r).rest(), asym_size as nat) {
                Some((v, rest)) => d is Some && d->0@ == v && final(r).rest() == rest,
                None => d is None,
            },
    {
        match r.read_bytes(asym_size as usize) {
            Some(data) => Some(SpdmSignatureStruct { data }),
            None => None,
        }
    }
}

impl SpdmDheExchangeStruct {
    /// Writes exactly the public value bytes.
    pub fn spdm_encode(&self, w: &mut Vec<u8>)
        ensures
            final(w)@ == old(w)@ + self@,
    {
        encode_bytes(self.data.as_slice(), w);
    }

    /// Reads exactly `dhe_size` bytes, the negotiated public value length.
    pub fn spdm_read(dhe_size: u16, r: &mut Reader) -> (d: Option<SpdmDheExchangeStruct>)
        requires
            old(r).wf(),
        ensures
            final(r).wf(),
            final(r).buf@ == old(r).buf@,
            match parse_bytes(old(r).rest(), dhe_size as nat) {
                Some((v, rest)) => d is Some && d->0@ == v && final(r).rest() == rest,
                None => d is None,
            },
    {
        match r.read_bytes(dhe_size as usize) {
            Some(data) => Some(SpdmDheExchangeStruct { data }),
            None => None,
        }
    }
}

/// A structure of negotiated length `n` written and read back: the encoder
/// writes exactly `n` bytes and the decoder consumes exactly those `n` bytes,
/// leaving what follows untouched.
pub proof fn lemma_negotiated_length(data: Seq<u8>, n: nat, rest: Seq<u8>)
    requires
        data.len() == n,
    ensures
        parse_bytes(data + rest, n) == Some((data, rest)),
        (data + rest).len() - rest.len() == n,
{
    lemma_bytes_round_trip(data, rest);
}

} // verus!
