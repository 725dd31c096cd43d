//! Payloads of the attestation exchanges: DIGESTS, GET_CERTIFICATE /
//! CERTIFICATE and CHALLENGE / CHALLENGE_AUTH.
use vstd::prelude::*;
use crate::codec::{
    encode_bytes, encode_u16, lemma_bytes_round_trip, lemma_u16_round_trip, parse_bytes, parse_u16, spec_u16,
    Reader,
};
use crate::config::SPDM_RANDOM_SIZE;
use crate::spdm_codec::{lemma_opaque_round_trip, parse_opaque, spec_opaque, SpdmOpaqueStruct};

verus! {

/// DIGESTS with the digest of slot 0.
#[derive(Debug, Clone, PartialEq, Eq)]
pub struct SpdmDigestsResponsePayload {
    pub slot_mask: u8,
    pub digest: Vec<u8>,
}

pub open spec fn spec_digests(slot_mask: u8, digest: Seq<u8>) -> Seq<u8> {
    seq![0u8, slot_mask] + digest
}

pub open spec fn parse_digests(hash_size: nat, s: Seq<u8>) -> Option<((u8, Seq<u8>), Seq<u8>)> {
    if s.len() >= 2 {
        match parse_bytes(s.skip(2), hash_size) {
            Some((d, rest)) => Some(((s[1], d), rest)),
            None => None,
        }
    } else {
        None
    }
}

impl SpdmDigestsResponsePayload {
    pub fn spdm_encode(&self, w: &mut Vec<u8>)
        ensures
            final(w)@ == old(w)@ + spec_digests(self.slot_mask, self.digest@),
    {
        w.push(0);
        w.push(self.slot_mask);
        encode_bytes(self.digest.as_slice(), w);
        assert(final(w)@ =~= old(w)@ + spec_digests(self.slot_mask, self.digest@));
    }

    pub fn spdm_read(hash_size: u16, r: &mut Reader) -> (p: Option<SpdmDigestsResponsePayload>)
        requires
            old(r).wf(),
        ensures
            final(r).wf(),
            final(r).buf@ == old(r).buf@,
            match parse_digests(hash_size as nat, old(r).rest()) {
                Some((v, rest)) => p is Some && p->0.slot_mask == v.0 && p->0.digest@ == v.1 && final(r).rest() == rest,
                None => p is None,
            },
    {
        let ghost s = r.rest();
        if r.read_u8().is_none() {
            return None;
        }
        let mask = r.read_u8();
        if mask.is_none() {
            return None;
        }
        assert(s.skip(1).skip(1) =~= s.skip(2));
        match r.read_bytes(hash_size as usize) {
            Some(digest) => Some(SpdmDigestsResponsePayload { slot_mask: mask.unwrap(), digest }),
            None => None,
        }
    }
}

#[verifier::spinoff_prover]
pub proof fn lemma_digests_round_trip(slot_mask: u8, digest: Seq<u8>, rest: Seq<u8>)
    ensures
        parse_digests(digest.len(), spec_digests(slot_mask, digest) + rest) == Some(((slot_mask, digest), rest)),
{
    let s = spec_digests(slot_mask, digest) + rest;
    assert(s.skip(2) =~= digest + rest);
    lemma_bytes_round_trip(digest, rest);
}

/// GET_CERTIFICATE: slot, offset and length of the part asked for.
#[derive(Debug, Clone, Copy, PartialEq, Eq, Structural)]
pub struct SpdmGetCertificateRequestPayload {
    pub slot_id: u8,
    pub offset: u16,
    pub length: u16,
}

pub open spec fn spec_get_certificate(p: SpdmGetCertificateRequestPayload) -> Seq<u8> {
    seq![p.slot_id, 0u8] + spec_u16(p.offset) + spec_u16(p.length)
}

pub open spec fn parse_get_certificate(s: Seq<u8>) -> Option<(SpdmGetCertificateRequestPayload, Seq<u8>)> {
    if s.len() >= 2 {
        match parse_u16(s.skip(2)) {
            Some((offset, s1)) => match parse_u16(s1) {
                Some((length, s2)) => Some((SpdmGetCertificateRequestPayload { slot_id: s[0], offset, length }, s2)),
                None => None,
            },
            None => None,
        }
    } else {
        None
    }
}

impl SpdmGetCertificateRequestPayload {
    pub fn spdm_encode(&self, w: &mut Vec<u8>)
        ensures
            final(w)@ == old(w)@ + spec_get_certificate(*self),
    {
        w.push(self.slot_id);
        w.push(0);
        encode_u16(self.offset, w);
        encode_u16(self.length, w);
        assert(final(w)@ =~= old(w)@ + spec_get_certificate(*self));
    }

    pub fn spdm_read(r: &mut Reader) -> (p: Option<SpdmGetCertificateRequestPayload>)
        requires
            old(r).wf(),
        ensures
            final(r).wf(),
            final(r).buf@ == old(r).buf@,
            match parse_get_certificate(old(r).rest()) {
                Some((v, rest)) => p == Some(v) && final(r).rest() == rest,
                None => p is None,
            },
    {
        let ghost s = r.rest();
        let slot = r.read_u8();
        if slot.is_none() {
            return None;
        }
        if r.read_u8().is_none() {
            return None;
        }
        assert(s.skip(1).skip(1) =~= s.skip(2));
        let offset = r.read_u16();
        if offset.is_none() {
            return None;
        }
        let length = r.read_u16();
        if length.is_none() {
            return None;
        }
        Some(SpdmGetCertificateRequestPayload { slot_id: slot.unwrap(), offset: offset.unwrap(), length: length.unwrap() })
    }
}

#[verifier::spinoff_prover]
pub proof fn lemma_get_certificate_round_trip(p: SpdmGetCertificateRequestPayload, rest: Seq<u8>)
    ensures
        parse_get_certificate(spec_get_certificate(p) + rest) == Some((p, rest)),
{
    let s = spec_get_certificate(p) + rest;
    assert(s.skip(2) =~= spec_u16(p.offset) + (spec_u16(p.length) + rest));
    lemma_u16_round_trip(p.offset, spec_u16(p.length) + rest);
    lemma_u16_round_trip(p.length, rest);
}

/// CERTIFICATE: slot, the part sent and how many bytes remain after it.
#[derive(Debug, Clone, PartialEq, Eq)]
pub struct SpdmCertificateResponsePayload {
    pub slot_id: u8,
    pub remainder_length: u16,
    pub portion: Vec<u8>,
}

pub ghost struct CertificateModel {
    pub slot_id: u8,
    pub remainder_length: u16,
    pub portion: Seq<u8>,
}

impl View for SpdmCertificateResponsePayload {
    type V = CertificateModel;

    open spec fn view(&self) -> CertificateModel {
        CertificateModel { slot_id: self.slot_id, remainder_length: self.remainder_length, portion: self.portion@ }
    }
}

pub open spec fn spec_certificate(m: CertificateModel) -> Seq<u8> {
    seq![m.slot_id, 0u8] + spec_u16(m.portion.len() as u16) + spec_u16(m.remainder_length) + m.portion
}

pub open spec fn parse_certificate(s: Seq<u8>) -> Option<(CertificateModel, Seq<u8>)> {
    if s.len() >= 2 {
        match parse_u16(s.skip(2)) {
            Some((n, s1)) => match parse_u16(s1) {
                Some((remainder_length, s2)) => match parse_bytes(s2, n as nat) {
                    Some((portion, s3)) => Some((CertificateModel { slot_id: s[0], remainder_length, portion }, s3)),
                    None => None,
                },
                None => None,
            },
            None => None,
        }
    } else {
        None
    }
}

impl SpdmCertificateResponsePayload {
    pub fn spdm_encode(&self, w: &mut Vec<u8>)
        requires
            self.portion@.len() <= 0xFFFF,
        ensures
            final(w)@ == old(w)@ + spec_certificate(self@),
    {
        w.push(self.slot_id);
        w.push(0);
        encode_u16(self.portion.len() as u16, w);
        encode_u16(self.remainder_length, w);
        encode_bytes(self.portion.as_slice(), w);
        assert(final(w)@ =~= old(w)@ + spec_certificate(self@));
    }

    pub fn spdm_read(r: &mut Reader) -> (p: Option<SpdmCertificateResponsePayload>)
        requires
            old(r).wf(),
        ensures
            final(r).wf(),
            final(r).buf@ == old(r).buf@,
            match parse_certificate(old(r).rest()) {
                Some((v, rest)) => p is Some && p->0@ == v && final(r).rest() == rest,
                None => p is None,
            },
    {
        let ghost s = r.rest();
        let slot = r.read_u8();
        if slot.is_none() {
            return None;
        }
        if r.read_u8().is_none() {
            return None;
        }
        assert(s.skip(1).skip(1) =~= s.skip(2));
        let n = r.read_u16();
        if n.is_none() {
            return None;
        }
        let remainder = r.read_u16();
        if remainder.is_none() {
            return None;
        }
        match r.read_bytes(n.unwrap() as usize) {
            Some(portion) => Some(SpdmCertificateResponsePayload {
                slot_id: slot.unwrap(),
                remainder_length: remainder.unwrap(),
                portion,
            }),
            None => None,
        }
    }
}

#[verifier::spinoff_prover]
pub proof fn lemma_certificate_round_trip(m: CertificateModel, rest: Seq<u8>)
    requires
        m.portion.len() <= 0xFFFF,
    ensures
        parse_certificate(spec_certificate(m) + rest) == Some((m, rest)),
{
    let s = spec_certificate(m) + rest;
    let t2 = m.portion + rest;
    let t1 = spec_u16(m.remainder_length) + t2;
    assert(s.skip(2) =~= spec_u16(m.portion.len() as u16) + t1);
    lemma_u16_round_trip(m.portion.len() as u16, t1);
    lemma_u16_round_trip(m.remainder_length, t2);
    lemma_bytes_round_trip(m.portion, rest);
}

/// CHALLENGE: slot, summary hash type and the requester's nonce.
#[derive(Debug, Clone, PartialEq, Eq)]
pub struct SpdmChallengeRequestPayload {
    pub slot_id: u8,
    pub measurement_summary_hash_type: u8,
    pub nonce: Vec<u8>,
}

pub open spec fn spec_challenge(slot_id: u8, hash_type: u8, nonce: Seq<u8>) -> Seq<u8> {
    seq![slot_id, hash_type] + nonce
}

pub open spec fn parse_challenge(s: Seq<u8>) -> Option<((u8, u8, Seq<u8>), Seq<u8>)> {
    if s.len() >= 2 {
        match parse_bytes(s.skip(2), SPDM_RANDOM_SIZE as nat) {
            Some((nonce, rest)) => Some(((s[0], s[1], nonce), rest)),
            None => None,
        }
    } else {
        None
    }
}

impl SpdmChallengeRequestPayload {
    pub fn spdm_encode(&self, w: &mut Vec<u8>)
        ensures
            final(w)@ == old(w)@ + spec_challenge(self.slot_id, self.measurement_summary_hash_type, self.nonce@),
    {
        w.push(self.slot_id);
        w.push(self.measurement_summary_hash_type);
        encode_bytes(self.nonce.as_slice(), w);
        assert(final(w)@ =~= old(w)@ + spec_challenge(self.slot_id, self.measurement_summary_hash_type, self.nonce@));
    }

    pub fn spdm_read(r: &mut Reader) -> (p: Option<SpdmChallengeRequestPayload>)
        requires
            old(r).wf(),
        ensures
            final(r).wf(),
            final(r).buf@ == old(r).buf@,
            match parse_challenge(old(r).rest()) {
                Some((v, rest)) => p is Some && p->0.slot_id == v.0 && p->0.measurement_summary_hash_type == v.1
                    && p->0.nonce@ == v.2 && final(r).rest() == rest,
                None => p is None,
            },
    {
        let ghost s = r.rest();
        let slot = r.read_u8();
        if slot.is_none() {
            return None;
        }
        let hash_type = r.read_u8();
        if hash_type.is_none() {
            return None;
        }
        assert(s.skip(1).skip(1) =~= s.skip(2));
        match r.read_bytes(SPDM_RANDOM_SIZE) {
            Some(nonce) => Some(SpdmChallengeRequestPayload {
                slot_id: slot.unwrap(),
                measurement_summary_hash_type: hash_type.unwrap(),
                nonce,
            }),
            None => None,
        }
    }
}

#[verifier::spinoff_prover]
pub proof fn lemma_challenge_round_trip(slot_id: u8, hash_type: u8, nonce: Seq<u8>, rest: Seq<u8>)
    requires
        nonce.len() == SPDM_RANDOM_SIZE,
    ensures
        parse_challenge(spec_challenge(slot_id, hash_type, nonce) + rest) == Some(((slot_id, hash_type, nonce), rest)),
{
    let s = spec_challenge(slot_id, hash_type, nonce) + rest;
    assert(s.skip(2) =~= nonce + rest);
    lemma_bytes_round_trip(nonce, rest);
}

/// CHALLENGE_AUTH. The measurement summary hash is empty when none was
/// asked for.
#[derive(Debug, Clone, PartialEq, Eq)]
pub struct SpdmChallengeAuthResponsePayload {
    pub slot_id: u8,
    pub slot_mask: u8,
    pub cert_chain_hash: Vec<u8>,
    pub nonce: Vec<u8>,
    pub measurement_summary_hash: Vec<u8>,
    pub opaque: SpdmOpaqueStruct,
    pub signature: Vec<u8>,
}

pub ghost struct ChallengeAuthModel {
    pub slot_id: u8,
    pub slot_mask: u8,
    pub cert_chain_hash: Seq<u8>,
    pub nonce: Seq<u8>,
    pub measurement_summary_hash: Seq<u8>,
    pub opaque: Seq<u8>,
    pub signature: Seq<u8>,
}

impl View for SpdmChallengeAuthResponsePayload {
    type V = ChallengeAuthModel;

    open spec fn view(&self) -> ChallengeAuthModel {
        ChallengeAuthModel {
            slot_id: self.slot_id,
            slot_mask: self.slot_mask,
            cert_chain_hash: self.cert_chain_hash@,
            nonce: self.nonce@,
            measurement_summary_hash: self.measurement_summary_hash@,
            opaque: self.opaque.data@,
            signature: self.signature@,
        }
    }
}

/// Everything up to the signature.
pub open spec fn spec_challenge_auth_head(m: ChallengeAuthModel) -> Seq<u8> {
    seq![m.slot_id, m.slot_mask] + m.cert_chain_hash + m.nonce + m.measurement_summary_hash + spec_opaque(m.opaque)
}

pub open spec fn spec_challenge_auth(m: ChallengeAuthModel) -> Seq<u8> {
    spec_challenge_auth_head(m) + m.signature
}

pub open spec fn parse_challenge_auth(hash_size: nat, summary_size: nat, sig_size: nat, s: Seq<u8>) -> Option<(ChallengeAuthModel, Seq<u8>)> {
    if s.len() >= 2 {
        match parse_bytes(s.skip(2), hash_size) {
            Some((ct, s1)) => match parse_bytes(s1, SPDM_RANDOM_SIZE as nat) {
                Some((nonce, s2)) => match parse_bytes(s2, summary_size) {
                    Some((msh, s3)) => match parse_opaque(s3) {
                        Some((opaque, s4)) => match parse_bytes(s4, sig_size) {
                            Some((signature, s5)) => Some((
                                ChallengeAuthModel {
                                    slot_id: s[0],
                                    slot_mask: s[1],
                                    cert_chain_hash: ct,
                                    nonce,
                                    measurement_summary_hash: msh,
                                    opaque,
                                    signature,
                                },
                                s5,
                            )),
                            None => None,
                        },
                        None => None,
                    },
                    None => None,
                },
                None => None,
            },
            None => None,
        }
    } else {
        None
    }
}

impl SpdmChallengeAuthResponsePayload {
    pub fn spdm_encode(&self, w: &mut Vec<u8>)
        requires
            self.opaque.data@.len() <= 0xFFFF,
        ensures
            final(w)@ == old(w)@ + spec_challenge_auth(self@),
            final(w)@ == old(w)@ + spec_challenge_auth_head(self@) + self.signature@,
    {
        w.push(self.slot_id);
        w.push(self.slot_mask);
        encode_bytes(self.cert_chain_hash.as_slice(), w);
        encode_bytes(self.nonce.as_slice(), w);
        encode_bytes(self.measurement_summary_hash.as_slice(), w);
        self.opaque.spdm_encode(w);
        encode_bytes(self.signature.as_slice(), w);
        assert(final(w)@ =~= old(w)@ + spec_challenge_auth(self@));
    }

    pub fn spdm_read(hash_size: u16, summary_size: u16, sig_size: u16, r: &mut Reader) -> (p: Option<SpdmChallengeAuthResponsePayload>)
        requires
            old(r).wf(),
        ensures
            final(r).wf(),
            final(r).buf@ == old(r).buf@,
            match parse_challenge_auth(hash_size as nat, summary_size as nat, sig_size as nat, old(r).rest()) {
                Some((v, rest)) => p is Some && p->0@ == v && final(r).rest() == rest,
                None => p is None,
            },
    {
        let ghost s = r.rest();
        let slot = r.read_u8();
        if slot.is_none() {
            return None;
        }
        let mask = r.read_u8();
        if mask.is_none() {
            return None;
        }
        assert(s.skip(1).skip(1) =~= s.skip(2));
        let ct = r.read_bytes(hash_size as usize);
        if ct.is_none() {
            return None;
        }
        let nonce = r.read_bytes(SPDM_RANDOM_SIZE);
        if nonce.is_none() {
            return None;
        }
        let msh = r.read_bytes(summary_size as usize);
        if msh.is_none() {
            return None;
        }
        let opaque = SpdmOpaqueStruct::spdm_read(r);
        if opaque.is_none() {
            return None;
        }
        let signature = r.read_bytes(sig_size as usize);
        if signature.is_none() {
            return None;
        }
        Some(SpdmChallengeAuthResponsePayload {
            slot_id: slot.unwrap(),
            slot_mask: mask.unwrap(),
            cert_chain_hash: ct.unwrap(),
            nonce: nonce.unwrap(),
            measurement_summary_hash: msh.unwrap(),
            opaque: opaque.unwrap(),
            signature: signature.unwrap(),
        })
    }
}

#[verifier::rlimit(60)]
#[verifier::spinoff_prover]
pub proof fn lemma_challenge_auth_round_trip(m: ChallengeAuthModel, rest: Seq<u8>)
    requires
        m.nonce.len() == SPDM_RANDOM_SIZE,
        m.opaque.len() <= 0xFFFF,
    ensures
        parse_challenge_auth(m.cert_chain_hash.len(), m.measurement_summary_hash.len(), m.signature.len(),
            spec_challenge_auth(m) + rest) == Some((m, rest)),
{
    let s = spec_challenge_auth(m) + rest;
    let t5 = m.signature + rest;
    let t4 = spec_opaque(m.opaque) + t5;
    let t3 = m.measurement_summary_hash + t4;
    let t2 = m.nonce + t3;
    assert(s.skip(2) =~= m.cert_chain_hash + t2);
    lemma_bytes_round_trip(m.cert_chain_hash, t2);
    lemma_bytes_round_trip(m.nonce, t3);
    lemma_bytes_round_trip(m.measurement_summary_hash, t4);
    lemma_opaque_round_trip(m.opaque, t5);
    lemma_bytes_round_trip(m.signature, rest);
}

} // verus!
