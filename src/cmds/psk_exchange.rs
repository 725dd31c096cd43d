//! PSK_EXCHANGE and PSK_EXCHANGE_RSP payloads.
use vstd::prelude::*;
use crate::codec::{
    encode_bytes, encode_u16, lemma_bytes_round_trip, lemma_u16_round_trip, parse_bytes, parse_u16,
    spec_u16, Reader,
};
use crate::msgs::SpdmDigestStruct;
use crate::spdm_codec::{SpdmPskContextStruct, SpdmPskHintStruct};

verus! {

/// PSK_EXCHANGE: summary hash type, requester session id, PSK hint,
/// requester context and opaque data, each of the length its field gives.
#[derive(Debug, Clone, PartialEq, Eq)]
pub struct SpdmPskExchangeRequestPayload {
    pub measurement_summary_hash_type: u8,
    pub req_session_id: u16,
    pub psk_hint: SpdmPskHintStruct,
    pub psk_context: SpdmPskContextStruct,
    pub opaque: Vec<u8>,
}

pub ghost struct PskExchangeReqModel {
    pub measurement_summary_hash_type: u8,
    pub req_session_id: u16,
    pub psk_hint: Seq<u8>,
    pub psk_context: Seq<u8>,
    pub opaque: Seq<u8>,
}

impl View for SpdmPskExchangeRequestPayload {
    type V = PskExchangeReqModel;

    open spec fn view(&self) -> PskExchangeReqModel {
        PskExchangeReqModel {
            measurement_summary_hash_type: self.measurement_summary_hash_type,
            req_session_id: self.req_session_id,
            psk_hint: self.psk_hint.data@,
            psk_context: self.psk_context.data@,
            opaque: self.opaque@,
        }
    }
}

pub open spec fn spec_psk_exchange_req(m: PskExchangeReqModel) -> Seq<u8> {
    seq![m.measurement_summary_hash_type, 0u8] + spec_u16(m.req_session_id) + spec_u16(m.psk_hint.len() as u16)
        + spec_u16(m.psk_context.len() as u16) + spec_u16(m.opaque.len() as u16) + m.psk_hint + m.psk_context
        + m.opaque
}

pub open spec fn parse_psk_exchange_req(s: Seq<u8>) -> Option<(PskExchangeReqModel, Seq<u8>)> {
    if s.len() >= 2 {
        match parse_u16(s.skip(2)) {
            Some((sid, s1)) => match parse_u16(s1) {
                Some((p, s2)) => match parse_u16(s2) {
                    Some((c, s3)) => match parse_u16(s3) {
                        Some((o, s4)) => match parse_bytes(s4, p as nat) {
                            Some((hint, s5)) => match parse_bytes(s5, c as nat) {
                                Some((context, s6)) => match parse_bytes(s6, o as nat) {
                                    Some((opaque, s7)) => Some((
                                        PskExchangeReqModel {
                                            measurement_summary_hash_type: s[0],
                                            req_session_id: sid,
                                            psk_hint: hint,
                                            psk_context: context,
                                            opaque,
                                        },
                                        s7,
                                    )),
                                    None => None,
                                },
                                None => None,
                            },
                            None => None,
                        },
                        None => None,
                    },
                    None => None,
                },
                None => None,
            },
            None => None,
        }
    } else {
        None
    }
}

pub open spec fn psk_exchange_req_valid(m: PskExchangeReqModel) -> bool {
    m.psk_hint.len() <= 0xFFFF && m.psk_context.len() <= 0xFFFF && m.opaque.len() <= 0xFFFF
}

impl SpdmPskExchangeRequestPayload {
    pub fn spdm_encode(&self, w: &mut Vec<u8>)
        requires
            psk_exchange_req_valid(self@),
        ensures
            final(w)@ == old(w)@ + spec_psk_exchange_req(self@),
    {
        w.push(self.measurement_summary_hash_type);
        w.push(0);
        encode_u16(self.req_session_id, w);
        encode_u16(self.psk_hint.data.len() as u16, w);
        encode_u16(self.psk_context.data.len() as u16, w);
        encode_u16(self.opaque.len() as u16, w);
        self.psk_hint.spdm_encode(w);
        self.psk_context.spdm_encode(w);
        encode_bytes(self.opaque.as_slice(), w);
        assert(final(w)@ =~= old(w)@ + spec_psk_exchange_req(self@));
    }

    pub fn spdm_read(r: &mut Reader) -> (p: Option<SpdmPskExchangeRequestPayload>)
        requires
            old(r).wf(),
        ensures
            final(r).wf(),
            final(r).buf@ == old(r).buf@,
            match parse_psk_exchange_req(old(r).rest()) {
                Some((v, rest)) => p is Some && p->0@ == v && final(r).rest() == rest,
                None => p is None,
            },
    {
        let ghost s = r.rest();
        let hash_type = r.read_u8();
        if hash_type.is_none() {
            return None;
        }
        if r.read_u8().is_none() {
            return None;
        }
        assert(s.skip(1).skip(1) =~= s.skip(2));
        let sid = r.read_u16();
        if sid.is_none() {
            return None;
        }
        let p = r.read_u16();
        if p.is_none() {
            return None;
        }
        let c = r.read_u16();
        if c.is_none() {
            return None;
        }
        let o = r.read_u16();
        if o.is_none() {
            return None;
        }
        let psk_hint = SpdmPskHintStruct::spdm_read(p.unwrap(), r);
        if psk_hint.is_none() {
            return None;
        }
        let psk_context = SpdmPskContextStruct::spdm_read(c.unwrap(), r);
        if psk_context.is_none() {
            return None;
        }
        let opaque = r.read_bytes(o.unwrap() as usize);
        if opaque.is_none() {
            return None;
        }
        Some(SpdmPskExchangeRequestPayload {
            measurement_summary_hash_type: hash_type.unwrap(),
            req_session_id: sid.unwrap(),
            psk_hint: psk_hint.unwrap(),
            psk_context: psk_context.unwrap(),
            opaque: opaque.unwrap(),
        })
    }
}

/// A valid PSK_EXCHANGE payload decodes from its encoding to itself.
#[verifier::rlimit(60)]
#[verifier::spinoff_prover]
pub proof fn lemma_psk_exchange_req_round_trip(m: PskExchangeReqModel, rest: Seq<u8>)
    requires
        psk_exchange_req_valid(m),
    ensures
        parse_psk_exchange_req(spec_psk_exchange_req(m) + rest) == Some((m, rest)),
{
    let s = spec_psk_exchange_req(m) + rest;
    let t7 = m.opaque + rest;
    let t6 = m.psk_context + t7;
    let t5 = m.psk_hint + t6;
    let t4 = spec_u16(m.opaque.len() as u16) + t5;
    let t3 = spec_u16(m.psk_context.len() as u16) + t4;
    let t2 = spec_u16(m.psk_hint.len() as u16) + t3;
    assert(s.skip(2) =~= spec_u16(m.req_session_id) + t2);
    lemma_u16_round_trip(m.req_session_id, t2);
    lemma_u16_round_trip(m.psk_hint.len() as u16, t3);
    lemma_u16_round_trip(m.psk_context.len() as u16, t4);
    lemma_u16_round_trip(m.opaque.len() as u16, t5);
    lemma_bytes_round_trip(m.psk_hint, t6);
    lemma_bytes_round_trip(m.psk_context, t7);
    lemma_bytes_round_trip(m.opaque, rest);
}

/// PSK_EXCHANGE_RSP. The measurement summary hash is empty when none was
/// asked for.
#[derive(Debug, Clone, PartialEq, Eq)]
pub struct SpdmPskExchangeResponsePayload {
    pub heartbeat_period: u8,
    pub rsp_session_id: u16,
    pub measurement_summary_hash: Vec<u8>,
    pub psk_context: SpdmPskContextStruct,
    pub opaque: Vec<u8>,
    pub verify_data: SpdmDigestStruct,
}

pub ghost struct PskExchangeRspModel {
    pub heartbeat_period: u8,
    pub rsp_session_id: u16,
    pub measurement_summary_hash: Seq<u8>,
    pub psk_context: Seq<u8>,
    pub opaque: Seq<u8>,
    pub verify_data: Seq<u8>,
}

impl View for SpdmPskExchangeResponsePayload {
    type V = PskExchangeRspModel;

    open spec fn view(&self) -> PskExchangeRspModel {
        PskExchangeRspModel {
            heartbeat_period: self.heartbeat_period,
            rsp_session_id: self.rsp_session_id,
            measurement_summary_hash: self.measurement_summary_hash@,
            psk_context: self.psk_context.data@,
            opaque: self.opaque@,
            verify_data: self.verify_data@,
        }
    }
}

/// Everything up to the verify data.
pub open spec fn spec_psk_exchange_rsp_head(m: PskExchangeRspModel) -> Seq<u8> {
    seq![m.heartbeat_period, 0u8] + spec_u16(m.rsp_session_id) + spec_u16(0) + spec_u16(m.psk_context.len() as u16)
        + spec_u16(m.opaque.len() as u16) + m.measurement_summary_hash + m.psk_context + m.opaque
}

pub open spec fn spec_psk_exchange_rsp(m: PskExchangeRspModel) -> Seq<u8> {
    spec_psk_exchange_rsp_head(m) + m.verify_data
}

pub open spec fn parse_psk_exchange_rsp(summary_size: nat, hash_size: nat, s: Seq<u8>) -> Option<(PskExchangeRspModel, Seq<u8>)> {
    if s.len() >= 2 {
        match parse_u16(s.skip(2)) {
            Some((sid, s1)) => match parse_u16(s1) {
                Some((_, s2)) => match parse_u16(s2) {
                    Some((q, s3)) => match parse_u16(s3) {
                        Some((o, s4)) => match parse_bytes(s4, summary_size) {
                            Some((msh, s5)) => match parse_bytes(s5, q as nat) {
                                Some((context, s6)) => match parse_bytes(s6, o as nat) {
                                    Some((opaque, s7)) => match parse_bytes(s7, hash_size) {
                                        Some((verify_data, s8)) => Some((
                                            PskExchangeRspModel {
                                                heartbeat_period: s[0],
                                                rsp_session_id: sid,
                                                measurement_summary_hash: msh,
                                                psk_context: context,
                                                opaque,
                                                verify_data,
                                            },
                                            s8,
                                        )),
                                        None => None,
                                    },
                                    None => None,
                                },
                                None => None,
                            },
                            None => None,
                        },
                        None => None,
                    },
                    None => None,
                },
                None => None,
            },
            None => None,
        }
    } else {
        None
    }
}

impl SpdmPskExchangeResponsePayload {
    pub fn spdm_encode(&self, w: &mut Vec<u8>)
        requires
            self.psk_context.data@.len() <= 0xFFFF,
            self.opaque@.len() <= 0xFFFF,
        ensures
            final(w)@ == old(w)@ + spec_psk_exchange_rsp(self@),
            final(w)@ == old(w)@ + spec_psk_exchange_rsp_head(self@) + self.verify_data@,
    {
        w.push(self.heartbeat_period);
        w.push(0);
        encode_u16(self.rsp_session_id, w);
        encode_u16(0, w);
        encode_u16(self.psk_context.data.len() as u16, w);
        encode_u16(self.opaque.len() as u16, w);
        encode_bytes(self.measurement_summary_hash.as_slice(), w);
        self.psk_context.spdm_encode(w);
        encode_bytes(self.opaque.as_slice(), w);
        self.verify_data.spdm_encode(w);
        assert(final(w)@ =~= old(w)@ + spec_psk_exchange_rsp(self@));
    }

    pub fn spdm_read(summary_size: u16, hash_size: u16, r: &mut Reader) -> (p: Option<SpdmPskExchangeResponsePayload>)
        requires
            old(r).wf(),
        ensures
            final(r).wf(),
            final(r).buf@ == old(r).buf@,
            match parse_psk_exchange_rsp(summary_size as nat, hash_size as nat, old(r).rest()) {
                Some((v, rest)) => p is Some && p->0@ == v && final(r).rest() == rest,
                None => p is None,
            },
    {
        let ghost s = r.rest();
        let hb = r.read_u8();
        if hb.is_none() {
            return None;
        }
        if r.read_u8().is_none() {
            return None;
        }
        assert(s.skip(1).skip(1) =~= s.skip(2));
        let sid = r.read_u16();
        if sid.is_none() {
            return None;
        }
        if r.read_u16().is_none() {
            return None;
        }
        let q = r.read_u16();
        if q.is_none() {
            return None;
        }
        let o = r.read_u16();
        if o.is_none() {
            return None;
        }
        let msh = r.read_bytes(summary_size as usize);
        if msh.is_none() {
            return None;
        }
        let psk_context = SpdmPskContextStruct::spdm_read(q.unwrap(), r);
        if psk_context.is_none() {
            return None;
        }
        let opaque = r.read_bytes(o.unwrap() as usize);
        if opaque.is_none() {
            return None;
        }
        let verify_data = SpdmDigestStruct::spdm_read(hash_size, r);
        if verify_data.is_none() {
            return None;
        }
        Some(SpdmPskExchangeResponsePayload {
            heartbeat_period: hb.unwrap(),
            rsp_session_id: sid.unwrap(),
            measurement_summary_hash: msh.unwrap(),
            psk_context: psk_context.unwrap(),
            opaque: opaque.unwrap(),
            verify_data: verify_data.unwrap(),
        })
    }
}

} // verus!
verus! {

pub open spec fn psk_exchange_rsp_valid(m: PskExchangeRspModel, summary_size: nat, hash_size: nat) -> bool {
    &&& m.measurement_summary_hash.len() == summary_size
    &&& m.psk_context.len() <= 0xFFFF
    &&& m.opaque.len() <= 0xFFFF
    &&& m.verify_data.len() == hash_size
}

/// A valid PSK_EXCHANGE_RSP payload decodes from its encoding to itself.
#[verifier::rlimit(60)]
#[verifier::spinoff_prover]
pub proof fn lemma_psk_exchange_rsp_round_trip(m: PskExchangeRspModel, summary_size: nat, hash_size: nat, rest: Seq<u8>)
    requires
        psk_exchange_rsp_valid(m, summary_size, hash_size),
    ensures
        parse_psk_exchange_rsp(summary_size, hash_size, spec_psk_exchange_rsp(m) + rest) == Some((m, rest)),
{
    let s = spec_psk_exchange_rsp(m) + rest;
    let t8 = m.verify_data + rest;
    let t7 = m.opaque + t8;
    let t6 = m.psk_context + t7;
    let t5 = m.measurement_summary_hash + t6;
    let t4 = spec_u16(m.opaque.len() as u16) + t5;
    let t3 = spec_u16(m.psk_context.len() as u16) + t4;
    let t2 = spec_u16(0) + t3;
    assert(s.skip(2) =~= spec_u16(m.rsp_session_id) + t2);
    lemma_u16_round_trip(m.rsp_session_id, t2);
    lemma_u16_round_trip(0, t3);
    lemma_u16_round_trip(m.psk_context.len() as u16, t4);
    lemma_u16_round_trip(m.opaque.len() as u16, t5);
    lemma_bytes_round_trip(m.measurement_summary_hash, t6);
    lemma_bytes_round_trip(m.psk_context, t7);
    lemma_bytes_round_trip(m.opaque, t8);
    lemma_bytes_round_trip(m.verify_data, rest);
}

} // verus!
