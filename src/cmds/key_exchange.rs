//! KEY_EXCHANGE and KEY_EXCHANGE_RSP payloads.
use vstd::prelude::*;
use crate::codec::{
    encode_bytes, encode_u16, lemma_bytes_round_trip, lemma_u16_round_trip, parse_bytes, parse_u16,
    spec_u16, Reader,
};
use crate::config::SPDM_RANDOM_SIZE;
use crate::msgs::{SpdmDheExchangeStruct, SpdmDigestStruct, SpdmSignatureStruct};
use crate::spdm_codec::{lemma_opaque_round_trip, parse_opaque, spec_opaque, SpdmOpaqueStruct};

verus! {

/// KEY_EXCHANGE: summary hash type, slot, requester session id, random,
/// DHE public value and opaque data.
#[derive(Debug, Clone, PartialEq, Eq)]
pub struct SpdmKeyExchangeRequestPayload {
    pub measurement_summary_hash_type: u8,
    pub slot_id: u8,
    pub req_session_id: u16,
    pub random: Vec<u8>,
    pub exchange: SpdmDheExchangeStruct,
    pub opaque: SpdmOpaqueStruct,
}

pub ghost struct KeyExchangeReqModel {
    pub measurement_summary_hash_type: u8,
    pub slot_id: u8,
    pub req_session_id: u16,
    pub random: Seq<u8>,
    pub exchange: Seq<u8>,
    pub opaque: Seq<u8>,
}

impl View for SpdmKeyExchangeRequestPayload {
    type V = KeyExchangeReqModel;

    open spec fn view(&self) -> KeyExchangeReqModel {
        KeyExchangeReqModel {
            measurement_summary_hash_type: self.measurement_summary_hash_type,
            slot_id: self.slot_id,
            req_session_id: self.req_session_id,
            random: self.random@,
            exchange: self.exchange@,
            opaque: self.opaque.data@,
        }
    }
}

pub open spec fn spec_key_exchange_req(m: KeyExchangeReqModel) -> Seq<u8> {
    seq![m.measurement_summary_hash_type, m.slot_id] + spec_u16(m.req_session_id) + spec_u16(0) + m.random
        + m.exchange + spec_opaque(m.opaque)
}

pub open spec fn parse_key_exchange_req(dhe_size: nat, s: Seq<u8>) -> Option<(KeyExchangeReqModel, Seq<u8>)> {
    if s.len() >= 2 {
        match parse_u16(s.skip(2)) {
            Some((sid, s1)) => match parse_u16(s1) {
                Some((_, s2)) => match parse_bytes(s2, SPDM_RANDOM_SIZE as nat) {
                    Some((random, s3)) => match parse_bytes(s3, dhe_size) {
                        Some((exchange, s4)) => match parse_opaque(s4) {
                            Some((opaque, s5)) => Some((
                                KeyExchangeReqModel {
                                    measurement_summary_hash_type: s[0],
                                    slot_id: s[1],
                                    req_session_id: sid,
                                    random,
                                    exchange,
                                    opaque,
                                },
                                s5,
                            )),
                            None => None,
                        },
                        None => None,
                    },
                    None => None,
                },
                None => None,
            },
            None => None,
        }
    } else {
        None
    }
}

pub open spec fn key_exchange_req_valid(m: KeyExchangeReqModel, dhe_size: nat) -> bool {
    &&& m.random.len() == SPDM_RANDOM_SIZE
    &&& m.exchange.len() == dhe_size
    &&& m.opaque.len() <= 0xFFFF
}

impl SpdmKeyExchangeRequestPayload {
    pub fn spdm_encode(&self, w: &mut Vec<u8>)
        requires
            self.opaque.data@.len() <= 0xFFFF,
        ensures
            final(w)@ == old(w)@ + spec_key_exchange_req(self@),
    {
        w.push(self.measurement_summary_hash_type);
        w.push(self.slot_id);
        encode_u16(self.req_session_id, w);
        encode_u16(0, w);
        encode_bytes(self.random.as_slice(), w);
        self.exchange.spdm_encode(w);
        self.opaque.spdm_encode(w);
        assert(final(w)@ =~= old(w)@ + spec_key_exchange_req(self@));
    }

    /// Reads the request; the public value has the negotiated DHE size.
    pub fn spdm_read(dhe_size: u16, r: &mut Reader) -> (p: Option<SpdmKeyExchangeRequestPayload>)
        requires
            old(r).wf(),
        ensures
            final(r).wf(),
            final(r).buf@ == old(r).buf@,
            match parse_key_exchange_req(dhe_size as nat, old(r).rest()) {
                Some((v, rest)) => p is Some && p->0@ == v && final(r).rest() == rest,
                None => p is None,
            },
    {
        let ghost s = r.rest();
        let hash_type = r.read_u8();
        if hash_type.is_none() {
            return None;
        }
        let slot_id = r.read_u8();
        if slot_id.is_none() {
            return None;
        }
        assert(s.skip(1).skip(1) =~= s.skip(2));
        let sid = r.read_u16();
        if sid.is_none() {
            return None;
        }
        if r.read_u16().is_none() {
            return None;
        }
        let random = r.read_bytes(SPDM_RANDOM_SIZE);
        if random.is_none() {
            return None;
        }
        let exchange = SpdmDheExchangeStruct::spdm_read(dhe_size, r);
        if exchange.is_none() {
            return None;
        }
        let opaque = SpdmOpaqueStruct::spdm_read(r);
        if opaque.is_none() {
            return None;
        }
        Some(SpdmKeyExchangeRequestPayload {
            measurement_summary_hash_type: hash_type.unwrap(),
            slot_id: slot_id.unwrap(),
            req_session_id: sid.unwrap(),
            random: random.unwrap(),
            exchange: exchange.unwrap(),
            opaque: opaque.unwrap(),
        })
    }
}

/// A valid KEY_EXCHANGE payload decodes from its encoding to itself.
#[verifier::rlimit(60)]
#[verifier::spinoff_prover]
pub proof fn lemma_key_exchange_req_round_trip(m: KeyExchangeReqModel, dhe_size: nat, rest: Seq<u8>)
    requires
        key_exchange_req_valid(m, dhe_size),
    ensures
        parse_key_exchange_req(dhe_size, spec_key_exchange_req(m) + rest) == Some((m, rest)),
{
    let s = spec_key_exchange_req(m) + rest;
    let t4 = spec_opaque(m.opaque) + rest;
    let t3 = m.exchange + t4;
    let t2 = m.random + t3;
    let t1 = spec_u16(0) + t2;
    assert(s.skip(2) =~= spec_u16(m.req_session_id) + t1);
    lemma_u16_round_trip(m.req_session_id, t1);
    lemma_u16_round_trip(0, t2);
    lemma_bytes_round_trip(m.random, t3);
    lemma_bytes_round_trip(m.exchange, t4);
    lemma_opaque_round_trip(m.opaque, rest);
}

/// KEY_EXCHANGE_RSP. The measurement summary hash is empty when none was
/// asked for.
#[derive(Debug, Clone, PartialEq, Eq)]
pub struct SpdmKeyExchangeResponsePayload {
    pub heartbeat_period: u8,
    pub rsp_session_id: u16,
    pub mut_auth_req: u8,
    pub req_slot_id: u8,
    pub random: Vec<u8>,
    pub exchange: SpdmDheExchangeStruct,
    pub measurement_summary_hash: Vec<u8>,
    pub opaque: SpdmOpaqueStruct,
    pub signature: SpdmSignatureStruct,
    pub verify_data: SpdmDigestStruct,
}

pub ghost struct KeyExchangeRspModel {
    pub heartbeat_period: u8,
    pub rsp_session_id: u16,
    pub mut_auth_req: u8,
    pub req_slot_id: u8,
    pub random: Seq<u8>,
    pub exchange: Seq<u8>,
    pub measurement_summary_hash: Seq<u8>,
    pub opaque: Seq<u8>,
    pub signature: Seq<u8>,
    pub verify_data: Seq<u8>,
}

impl View for SpdmKeyExchangeResponsePayload {
    type V = KeyExchangeRspModel;

    open spec fn view(&self) -> KeyExchangeRspModel {
        KeyExchangeRspModel {
            heartbeat_period: self.heartbeat_period,
            rsp_session_id: self.rsp_session_id,
            mut_auth_req: self.mut_auth_req,
            req_slot_id: self.req_slot_id,
            random: self.random@,
            exchange: self.exchange@,
            measurement_summary_hash: self.measurement_summary_hash@,
            opaque: self.opaque.data@,
            signature: self.signature@,
            verify_data: self.verify_data@,
        }
    }
}

/// Everything up to the signature.
pub open spec fn spec_key_exchange_rsp_head(m: KeyExchangeRspModel) -> Seq<u8> {
    seq![m.heartbeat_period, 0u8] + spec_u16(m.rsp_session_id) + seq![m.mut_auth_req, m.req_slot_id] + m.random
        + m.exchange + m.measurement_summary_hash + spec_opaque(m.opaque)
}

pub open spec fn spec_key_exchange_rsp(m: KeyExchangeRspModel) -> Seq<u8> {
    spec_key_exchange_rsp_head(m) + m.signature + m.verify_data
}

pub open spec fn parse_key_exchange_rsp(
    dhe_size: nat,
    summary_size: nat,
    sig_size: nat,
    hash_size: nat,
    s: Seq<u8>,
) -> Option<(KeyExchangeRspModel, Seq<u8>)> {
    if s.len() >= 2 {
        match parse_u16(s.skip(2)) {
            Some((sid, s1)) => if s1.len() >= 2 {
                match parse_bytes(s1.skip(2), SPDM_RANDOM_SIZE as nat) {
                    Some((random, s3)) => match parse_bytes(s3, dhe_size) {
                        Some((exchange, s4)) => match parse_bytes(s4, summary_size) {
                            Some((msh, s5)) => match parse_opaque(s5) {
                                Some((opaque, s6)) => match parse_bytes(s6, sig_size) {
                                    Some((signature, s7)) => match parse_bytes(s7, hash_size) {
                                        Some((verify_data, s8)) => Some((
                                            KeyExchangeRspModel {
                                                heartbeat_period: s[0],
                                                rsp_session_id: sid,
                                                mut_auth_req: s1[0],
                                                req_slot_id: s1[1],
                                                random,
                                                exchange,
                                                measurement_summary_hash: msh,
                                                opaque,
                                                signature,
                                                verify_data,
                                            },
                                            s8,
                                        )),
                                        None => None,
                                    },
                                    None => None,
                                },
                                None => None,
                            },
                            None => None,
                        },
                        None => None,
                    },
                    None => None,
                }
            } else {
                None
            },
            None => None,
        }
    } else {
        None
    }
}

impl SpdmKeyExchangeResponsePayload {
    pub fn spdm_encode(&self, w: &mut Vec<u8>)
        requires
            self.opaque.data@.len() <= 0xFFFF,
        ensures
            final(w)@ == old(w)@ + spec_key_exchange_rsp(self@),
            final(w)@ == old(w)@ + spec_key_exchange_rsp_head(self@) + self.signature@ + self.verify_data@,
    {
        w.push(self.heartbeat_period);
        w.push(0);
        encode_u16(self.rsp_session_id, w);
        w.push(self.mut_auth_req);
        w.push(self.req_slot_id);
        encode_bytes(self.random.as_slice(), w);
        self.exchange.spdm_encode(w);
        encode_bytes(self.measurement_summary_hash.as_slice(), w);
        self.opaque.spdm_encode(w);
        self.signature.spdm_encode(w);
        self.verify_data.spdm_encode(w);
        assert(final(w)@ =~= old(w)@ + spec_key_exchange_rsp(self@));
    }

    /// Reads the response; every variable field has the size given.
    pub fn spdm_read(
        dhe_size: u16,
        summary_size: u16,
        sig_size: u16,
        hash_size: u16,
        r: &mut Reader,
    ) -> (p: Option<SpdmKeyExchangeResponsePayload>)
        requires
            old(r).wf(),
        ensures
            final(r).wf(),
            final(r).buf@ == old(r).buf@,
            match parse_key_exchange_rsp(dhe_size as nat, summary_size as nat, sig_size as nat, hash_size as nat, old(r).rest()) {
                Some((v, rest)) => p is Some && p->0@ == v && final(r).rest() == rest,
                None => p is None,
            },
    {
        let ghost s = r.rest();
        let hb = r.read_u8();
        if hb.is_none() {
            return None;
        }
        if r.read_u8().is_none() {
            return None;
        }
        assert(s.skip(1).skip(1) =~= s.skip(2));
        let sid = r.read_u16();
        if sid.is_none() {
            return None;
        }
        let ghost s1 = r.rest();
        let mut_auth = r.read_u8();
        if mut_auth.is_none() {
            return None;
        }
        let slot = r.read_u8();
        if slot.is_none() {
            return None;
        }
        assert(s1.skip(1).skip(1) =~= s1.skip(2));
        let random = r.read_bytes(SPDM_RANDOM_SIZE);
        if random.is_none() {
            return None;
        }
        let exchange = SpdmDheExchangeStruct::spdm_read(dhe_size, r);
        if exchange.is_none() {
            return None;
        }
        let msh = r.read_bytes(summary_size as usize);
        if msh.is_none() {
            return None;
        }
        let opaque = SpdmOpaqueStruct::spdm_read(r);
        if opaque.is_none() {
            return None;
        }
        let signature = SpdmSignatureStruct::spdm_read(sig_size, r);
        if signature.is_none() {
            return None;
        }
        let verify_data = SpdmDigestStruct::spdm_read(hash_size, r);
        if verify_data.is_none() {
            return None;
        }
        Some(SpdmKeyExchangeResponsePayload {
            heartbeat_period: hb.unwrap(),
            rsp_session_id: sid.unwrap(),
            mut_auth_req: mut_auth.unwrap(),
            req_slot_id: slot.unwrap(),
            random: random.unwrap(),
            exchange: exchange.unwrap(),
            measurement_summary_hash: msh.unwrap(),
            opaque: opaque.unwrap(),
            signature: signature.unwrap(),
            verify_data: verify_data.unwrap(),
        })
    }
}

} // verus!
verus! {

pub open spec fn key_exchange_rsp_valid(m: KeyExchangeRspModel, dhe_size: nat, summary_size: nat, sig_size: nat, hash_size: nat) -> bool {
    &&& m.random.len() == SPDM_RANDOM_SIZE
    &&& m.exchange.len() == dhe_size
    &&& m.measurement_summary_hash.len() == summary_size
    &&& m.opaque.len() <= 0xFFFF
    &&& m.signature.len() == sig_size
    &&& m.verify_data.len() == hash_size
}

/// A valid KEY_EXCHANGE_RSP payload decodes from its encoding to itself.
#[verifier::rlimit(60)]
#[verifier::spinoff_prover]
pub proof fn lemma_key_exchange_rsp_round_trip(
    m: KeyExchangeRspModel,
    dhe_size: nat,
    summary_size: nat,
    sig_size: nat,
    hash_size: nat,
    rest: Seq<u8>,
)
    requires
        key_exchange_rsp_valid(m, dhe_size, summary_size, sig_size, hash_size),
    ensures
        parse_key_exchange_rsp(dhe_size, summary_size, sig_size, hash_size, spec_key_exchange_rsp(m) + rest)
            == Some((m, rest)),
{
    let s = spec_key_exchange_rsp(m) + rest;
    let t8 = m.verify_data + rest;
    let t7 = m.signature + t8;
    let t6 = spec_opaque(m.opaque) + t7;
    let t5 = m.measurement_summary_hash + t6;
    let t4 = m.exchange + t5;
    let t3 = m.random + t4;
    let t1 = seq![m.mut_auth_req, m.req_slot_id] + t3;
    assert(s.skip(2) =~= spec_u16(m.rsp_session_id) + t1);
    lemma_u16_round_trip(m.rsp_session_id, t1);
    assert(t1.skip(2) =~= t3);
    lemma_bytes_round_trip(m.random, t4);
    lemma_bytes_round_trip(m.exchange, t5);
    lemma_bytes_round_trip(m.measurement_summary_hash, t6);
    lemma_opaque_round_trip(m.opaque, t7);
    lemma_bytes_round_trip(m.signature, t8);
    lemma_bytes_round_trip(m.verify_data, rest);
}

} // verus!
