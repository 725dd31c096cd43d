//! Session establishment, use and teardown on the Requester side.
use vstd::prelude::*;
use crate::cmds::key_exchange::{parse_key_exchange_rsp, spec_key_exchange_req, KeyExchangeReqModel, SpdmKeyExchangeRequestPayload, SpdmKeyExchangeResponsePayload};
use crate::cmds::psk_exchange::{parse_psk_exchange_rsp, spec_psk_exchange_req, PskExchangeReqModel, SpdmPskExchangeRequestPayload, SpdmPskExchangeResponsePayload};
use crate::codec::Reader;
use crate::common::{SpdmConnectionState, SpdmDeviceIo, SpdmNegotiateInfo, SpdmTransportEncap};
use crate::config::{MAX_SPDM_MESSAGE_BUFFER_SIZE, SPDM_RANDOM_SIZE};
use crate::crypto::{asym_verify, cert_operation, dhe, rand, SpdmCryptoProvider};
use crate::error::{SpdmResult, SpdmStatus};
use crate::msgs::{
    spec_header, SpdmMessageHeader, SpdmVersion, SPDM_END_SESSION, SPDM_ERROR, SPDM_FINISH, SPDM_FINISH_RSP,
    SPDM_HEARTBEAT, SPDM_HEARTBEAT_ACK, SPDM_KEY_EXCHANGE, SPDM_KEY_EXCHANGE_RSP, SPDM_KEY_UPDATE, SPDM_KEY_UPDATE_ACK,
    SPDM_MEASUREMENT_SUMMARY_HASH_NONE, SPDM_PSK_EXCHANGE, SPDM_PSK_EXCHANGE_RSP, SPDM_PSK_FINISH,
    SPDM_PSK_FINISH_RSP,
};
use crate::requester::RequesterContext;
use crate::responder::{make_session_id, opaque_version_selection, spec_session_id};
use crate::responder::session_rsp::bare_frame;
use crate::session::{is_active, secrets_zeroed, SpdmSession, SpdmSessionCryptoParam, SpdmSessionState};
use crate::spdm_codec::{SpdmOpaqueStruct, SpdmPskContextStruct, SpdmPskHintStruct};
use crate::transcript::ManagedBuffer;

verus! {

/// The pool after an attempt on session `session_id`: every other slot is
/// as it was, and that slot keeps its id or is free.
pub open spec fn only_session_changed(
    old_s: Seq<SpdmSession>,
    new_s: Seq<SpdmSession>,
    session_id: u32,
) -> bool {
    &&& new_s.len() == old_s.len()
    &&& forall|j: int| 0 <= j < old_s.len() ==> (#[trigger] new_s[j] == old_s[j] || (is_active(old_s[j])
        && old_s[j].session_id == session_id && (new_s[j].session_id == session_id || !is_active(new_s[j]))))
}

/// The algorithms a new session takes from the negotiated selections.
pub open spec fn negotiated_crypto(n: SpdmNegotiateInfo) -> SpdmSessionCryptoParam {
    SpdmSessionCryptoParam {
        base_hash_algo: n.base_hash_sel,
        dhe_algo: n.dhe_sel,
        aead_algo: n.aead_sel,
        key_schedule_algo: n.key_schedule_sel,
    }
}

/// The requester's half of the session id for slot `index`.
pub open spec fn req_session_id_of(index: int) -> u16 {
    (0xFFFF - index) as u16
}

/// The first free slot of a pool is `i`.
pub open spec fn first_free_at(s: Seq<SpdmSession>, i: int) -> bool {
    &&& 0 <= i < s.len()
    &&& !is_active(s[i])
    &&& forall|j: int| 0 <= j < i ==> is_active(#[trigger] s[j])
}

/// A new session, handshaking, has been placed in the first free slot:
/// its id carries that slot's requester part, and it runs with `cp`.
/// The transcript `k` of a new session starts with the exchange request
/// that was sent: KEY_EXCHANGE (or PSK_EXCHANGE when `use_psk`) carrying the
/// requester's session id part, the slot (KEY_EXCHANGE only) and the
/// summary hash type.
pub open spec fn request_sent(
    k: Seq<u8>,
    use_psk: bool,
    version: SpdmVersion,
    req_session_id: u16,
    slot_id: u8,
    hash_type: u8,
) -> bool {
    if use_psk {
        exists|m: PskExchangeReqModel| {
            &&& k.len() >= 2 + spec_psk_exchange_req(m).len()
            &&& k.take(2 + spec_psk_exchange_req(m).len() as int) == spec_header(SpdmMessageHeader { version, request_response_code: SPDM_PSK_EXCHANGE })
                + #[trigger] spec_psk_exchange_req(m)
            &&& m.req_session_id == req_session_id
            &&& m.measurement_summary_hash_type == hash_type
        }
    } else {
        exists|m: KeyExchangeReqModel| {
            &&& k.len() >= 2 + spec_key_exchange_req(m).len()
            &&& k.take(2 + spec_key_exchange_req(m).len() as int) == spec_header(SpdmMessageHeader { version, request_response_code: SPDM_KEY_EXCHANGE })
                + #[trigger] spec_key_exchange_req(m)
            &&& m.req_session_id == req_session_id
            &&& m.slot_id == slot_id
            &&& m.measurement_summary_hash_type == hash_type
        }
    }
}

pub open spec fn session_added(
    old_s: Seq<SpdmSession>,
    new_s: Seq<SpdmSession>,
    session_id: u32,
    use_psk: bool,
    cp: SpdmSessionCryptoParam,
    version: SpdmVersion,
    slot_id: u8,
    hash_type: u8,
) -> bool {
    exists|i: int| {
        &&& #[trigger] first_free_at(old_s, i)
        &&& new_s == old_s.update(i, new_s[i])
        &&& new_s[i].state == SpdmSessionState::SpdmSessionHandshaking
        &&& new_s[i].session_id == session_id
        &&& new_s[i].use_psk == use_psk
        &&& new_s[i].crypto_param == cp
        &&& exists|rsp: u16| session_id == #[trigger] spec_session_id(req_session_id_of(i), rsp)
        &&& request_sent(new_s[i].runtime_info.message_k@, use_psk, version, req_session_id_of(i), slot_id, hash_type)
    }
}

/// The error kind of an answer that is not the expected response: an
/// ERROR frame saying the session limit is reached, another ERROR frame,
/// or anything else.
pub open spec fn spec_unexpected_answer(s: Seq<u8>) -> SpdmStatus {
    if s.len() >= 3 && s[1] == SPDM_ERROR && s[2] == 0x0A {
        SpdmStatus::SessionExhausted
    } else if s.len() >= 2 && s[1] == SPDM_ERROR {
        SpdmStatus::Unsupported
    } else {
        SpdmStatus::DecodeFailure
    }
}

fn unexpected_answer(rsp: &Vec<u8>) -> (r: SpdmStatus)
    ensures
        r == spec_unexpected_answer(rsp@),
{
    if rsp.len() >= 3 && rsp[1] == SPDM_ERROR && rsp[2] == 0x0A {
        SpdmStatus::SessionExhausted
    } else if rsp.len() >= 2 && rsp[1] == SPDM_ERROR {
        SpdmStatus::Unsupported
    } else {
        SpdmStatus::DecodeFailure
    }
}

/// Takes a received KEY_EXCHANGE_RSP apart: the payload, and the length of
/// the frame up to its signature. Another code gives the error kind of
/// [`spec_unexpected_answer`]; a payload that does not decode with the
/// given sizes gives DecodeFailure.
pub fn accept_key_exchange_rsp(rsp: &Vec<u8>, dhe_size: u16, summary_size: u16, asym_size: u16, hash_size: u16)
    -> (r: SpdmResult<(SpdmKeyExchangeResponsePayload, usize)>)
    ensures
        rsp@.len() < 2 || rsp@[1] != SPDM_KEY_EXCHANGE_RSP ==> r == Err::<(SpdmKeyExchangeResponsePayload, usize), SpdmStatus>(
            spec_unexpected_answer(rsp@)),
        rsp@.len() >= 2 && rsp@[1] == SPDM_KEY_EXCHANGE_RSP ==> match parse_key_exchange_rsp(dhe_size as nat,
            summary_size as nat, asym_size as nat, hash_size as nat, rsp@.skip(2)) {
            None => r == Err::<(SpdmKeyExchangeResponsePayload, usize), SpdmStatus>(SpdmStatus::DecodeFailure),
            Some((m, rest)) => if rsp@.len() - rest.len() >= asym_size + hash_size {
                r matches Ok((p, h)) && p@ == m && h == rsp@.len() - rest.len() - asym_size - hash_size
            } else {
                r == Err::<(SpdmKeyExchangeResponsePayload, usize), SpdmStatus>(SpdmStatus::DecodeFailure)
            },
        },
{
    if rsp.len() < 2 || rsp[1] != SPDM_KEY_EXCHANGE_RSP {
        return Err(unexpected_answer(rsp));
    }
    let mut reader = Reader::init(rsp.as_slice());
    let _ = reader.read_bytes(2);
    assert(reader.rest() =~= rsp@.skip(2));
    let answer = match SpdmKeyExchangeResponsePayload::spdm_read(dhe_size, summary_size, asym_size, hash_size, &mut reader) {
        Some(p) => p,
        None => {
            return Err(SpdmStatus::DecodeFailure);
        },
    };
    let used = reader.used();
    if used < asym_size as usize + hash_size as usize {
        return Err(SpdmStatus::DecodeFailure);
    }
    Ok((answer, used - asym_size as usize - hash_size as usize))
}

/// Takes a received PSK_EXCHANGE_RSP apart: the payload, and the length of
/// the frame up to its verify data. Another code gives the error kind of
/// [`spec_unexpected_answer`]; a payload that does not decode with the
/// given sizes gives DecodeFailure.
pub fn accept_psk_exchange_rsp(rsp: &Vec<u8>, summary_size: u16, hash_size: u16)
    -> (r: SpdmResult<(SpdmPskExchangeResponsePayload, usize)>)
    ensures
        rsp@.len() < 2 || rsp@[1] != SPDM_PSK_EXCHANGE_RSP ==> r == Err::<(SpdmPskExchangeResponsePayload, usize), SpdmStatus>(
            spec_unexpected_answer(rsp@)),
        rsp@.len() >= 2 && rsp@[1] == SPDM_PSK_EXCHANGE_RSP ==> match parse_psk_exchange_rsp(summary_size as nat,
            hash_size as nat, rsp@.skip(2)) {
            None => r == Err::<(SpdmPskExchangeResponsePayload, usize), SpdmStatus>(SpdmStatus::DecodeFailure),
            Some((m, rest)) => if rsp@.len() - rest.len() >= hash_size {
                r matches Ok((p, h)) && p@ == m && h == rsp@.len() - rest.len() - hash_size
            } else {
                r == Err::<(SpdmPskExchangeResponsePayload, usize), SpdmStatus>(SpdmStatus::DecodeFailure)
            },
        },
{
    if rsp.len() < 2 || rsp[1] != SPDM_PSK_EXCHANGE_RSP {
        return Err(unexpected_answer(rsp));
    }
    let mut reader = Reader::init(rsp.as_slice());
    let _ = reader.read_bytes(2);
    assert(reader.rest() =~= rsp@.skip(2));
    let answer = match SpdmPskExchangeResponsePayload::spdm_read(summary_size, hash_size, &mut reader) {
        Some(p) => p,
        None => {
            return Err(SpdmStatus::DecodeFailure);
        },
    };
    let used = reader.used();
    if used < hash_size as usize {
        return Err(SpdmStatus::DecodeFailure);
    }
    Ok((answer, used - hash_size as usize))
}

impl<D: SpdmDeviceIo, T: SpdmTransportEncap, C: SpdmCryptoProvider> RequesterContext<D, T, C> {
    /// KEY_EXCHANGE / KEY_EXCHANGE_RSP: checks the responder's signature
    /// over `message_a || Ct || message_k` with the leaf of the peer chain,
    /// derives the handshake keys from TH1, checks the responder verify
    /// data, and places the new session, handshaking, in a free slot.
    /// Returns its id; on failure the pool is unchanged.
    pub fn send_receive_spdm_key_exchange(&mut self, slot_id: u8, measurement_summary_hash_type: u8) -> (r: SpdmResult<u32>)
        requires
            old(self).common.wf(),
        ensures
            final(self).common.wf(),
            r matches Ok(id) ==> session_added(old(self).common.session_pool.sessions@, final(self).common.session_pool.sessions@, id,
                false, negotiated_crypto(old(self).common.negotiate_info), old(self).common.negotiate_info.spdm_version_sel, slot_id,
                measurement_summary_hash_type),
            r is Err ==> final(self).common.session_pool == old(self).common.session_pool,
            old(self).common.runtime_info.connection_state != SpdmConnectionState::SpdmConnectionNegotiated ==> r
                == Err::<u32, SpdmStatus>(SpdmStatus::InvalidState),
            old(self).common.runtime_info.connection_state == SpdmConnectionState::SpdmConnectionNegotiated && (forall|i: int|
                0 <= i < old(self).common.session_pool.sessions@.len() ==> is_active(
                #[trigger] old(self).common.session_pool.sessions@[i])) ==> r == Err::<u32, SpdmStatus>(SpdmStatus::SessionExhausted),
    {
        if self.common.runtime_info.connection_state != SpdmConnectionState::SpdmConnectionNegotiated {
            return Err(SpdmStatus::InvalidState);
        }
        let index = match self.common.session_pool.get_next_available_session() {
            Some(i) => i,
            None => {
                return Err(SpdmStatus::SessionExhausted);
            },
        };
        let version = self.common.negotiate_info.spdm_version_sel;
        let hash_sel = self.common.negotiate_info.base_hash_sel;
        let asym_sel = self.common.negotiate_info.base_asym_sel;
        let dhe_sel = self.common.negotiate_info.dhe_sel;
        let hash_size = self.common.get_hash_size();
        let asym_size = self.common.get_asym_key_size();
        let dhe_size = self.common.get_dhe_key_size();
        if hash_size == 0 || asym_size == 0 || dhe_size == 0 {
            return Err(SpdmStatus::InvalidState);
        }
        let (exchange, private_key) = match dhe::generate_key_pair(&self.common.crypto, dhe_sel) {
            Some(kp) => kp,
            None => {
                return Err(SpdmStatus::CryptoFailure);
            },
        };
        let random = rand::get_random(SPDM_RANDOM_SIZE)?;
        let req_session_id: u16 = (0xFFFF - index) as u16;
        let payload = SpdmKeyExchangeRequestPayload {
            measurement_summary_hash_type,
            slot_id,
            req_session_id,
            random,
            exchange,
            opaque: SpdmOpaqueStruct { data: opaque_version_selection() },
        };
        let mut request: Vec<u8> = Vec::new();
        SpdmMessageHeader { version, request_response_code: SPDM_KEY_EXCHANGE }.encode(&mut request);
        payload.spdm_encode(&mut request);
        let ghost sent = request@;
        let ghost sent_model = payload@;
        self.send_message(request.as_slice())?;
        let rsp = self.receive_message()?;
        let summary_size = if measurement_summary_hash_type == SPDM_MEASUREMENT_SUMMARY_HASH_NONE { 0 } else { hash_size };
        let (answer, head_len) = accept_key_exchange_rsp(&rsp, dhe_size, summary_size, asym_size, hash_size)?;
        let mut message_k = ManagedBuffer::new();
        if message_k.append_message(request.as_slice()).is_none() {
            return Err(SpdmStatus::BufferOverflow);
        }
        if message_k.append_message(&rsp.as_slice()[0..head_len]).is_none() {
            return Err(SpdmStatus::BufferOverflow);
        }
        let ct = match self.common.cert_chain_hash(false) {
            Some(h) => h,
            None => {
                return Err(SpdmStatus::InvalidState);
            },
        };
        let transcript = match self.common.calc_transcript_data(Some(&ct), &message_k, None) {
            Some(t) => t,
            None => {
                return Err(SpdmStatus::BufferOverflow);
            },
        };
        let verified = match &self.common.provision_info.peer_cert_chain {
            Some(chain) => match cert_operation::get_cert_from_cert_chain(&self.common.crypto, chain.as_slice(), -1) {
                Ok((offset, length)) => if offset > chain.len() || length > chain.len() - offset {
                    Err(SpdmStatus::InvalidState)
                } else {
                    asym_verify::verify(&self.common.crypto, hash_sel, asym_sel,
                        &chain.as_slice()[offset..offset + length], transcript.as_slice(), &answer.signature)
                },
                Err(e) => Err(e),
            },
            None => Err(SpdmStatus::InvalidState),
        };
        if verified.is_err() {
            return Err(SpdmStatus::CryptoFailure);
        }
        if message_k.append_message(answer.signature.data.as_slice()).is_none() {
            return Err(SpdmStatus::BufferOverflow);
        }
        let final_key = match dhe::compute_final_key(&self.common.crypto, dhe_sel, private_key, &answer.exchange) {
            Some(k) => k,
            None => {
                return Err(SpdmStatus::CryptoFailure);
            },
        };
        let th1 = match self.common.calc_transcript_hash(Some(&ct), &message_k, None) {
            Some(h) => h,
            None => {
                return Err(SpdmStatus::CryptoFailure);
            },
        };
        let session_id = make_session_id(req_session_id, answer.rsp_session_id);
        assert(session_id == spec_session_id(req_session_id_of(index as int), answer.rsp_session_id));
        let mut session = SpdmSession::new();
        let _ = session.setup(session_id);
        session.set_use_psk(false);
        session.set_crypto_param(hash_sel, dhe_sel, self.common.negotiate_info.aead_sel,
            self.common.negotiate_info.key_schedule_sel);
        let sequence_number_count = self.common.transport_encap.get_sequence_number_count();
        let max_random_count = self.common.transport_encap.get_max_random_count();
        if sequence_number_count > 8 {
            return Err(SpdmStatus::InvalidState);
        }
        session.set_transport_param(sequence_number_count, max_random_count);
        session.set_dhe_secret(final_key.data.as_slice());
        session.generate_handshake_secret(&self.common.crypto, &th1)?;
        if session.verify_hmac_with_response_finished_key(&self.common.crypto, th1.data.as_slice(), &answer.verify_data).is_err() {
            return Err(SpdmStatus::CryptoFailure);
        }
        if message_k.append_message(answer.verify_data.data.as_slice()).is_none() {
            return Err(SpdmStatus::BufferOverflow);
        }
        assert(message_k@.take(sent.len() as int) =~= sent);
        session.runtime_info.message_k = message_k;
        if self.common.session_pool.install(index, session).is_err() {
            return Err(SpdmStatus::InvalidState);
        }
        proof {
            let olds = old(self).common.session_pool.sessions@;
            assert(first_free_at(olds, index as int));
            assert(self.common.session_pool.sessions@[index as int].crypto_param == negotiated_crypto(
                old(self).common.negotiate_info));
        }
        Ok(session_id)
    }

    /// PSK_EXCHANGE / PSK_EXCHANGE_RSP: the provisioned PSK is the base
    /// secret; derives the handshake keys from TH1 = H(message_a ||
    /// message_k), checks the responder verify data and places the new
    /// session, handshaking, in a free slot. On failure the pool is
    /// unchanged.
    pub fn send_receive_spdm_psk_exchange(&mut self, measurement_summary_hash_type: u8) -> (r: SpdmResult<u32>)
        requires
            old(self).common.wf(),
        ensures
            final(self).common.wf(),
            r matches Ok(id) ==> session_added(old(self).common.session_pool.sessions@, final(self).common.session_pool.sessions@, id,
                true, negotiated_crypto(old(self).common.negotiate_info), old(self).common.negotiate_info.spdm_version_sel, 0,
                measurement_summary_hash_type),
            r is Err ==> final(self).common.session_pool == old(self).common.session_pool,
            old(self).common.runtime_info.connection_state != SpdmConnectionState::SpdmConnectionNegotiated ==> r
                == Err::<u32, SpdmStatus>(SpdmStatus::InvalidState),
            old(self).common.runtime_info.connection_state == SpdmConnectionState::SpdmConnectionNegotiated && (forall|i: int|
                0 <= i < old(self).common.session_pool.sessions@.len() ==> is_active(
                #[trigger] old(self).common.session_pool.sessions@[i])) ==> r == Err::<u32, SpdmStatus>(SpdmStatus::SessionExhausted),
    {
        if self.common.runtime_info.connection_state != SpdmConnectionState::SpdmConnectionNegotiated {
            return Err(SpdmStatus::InvalidState);
        }
        let index = match self.common.session_pool.get_next_available_session() {
            Some(i) => i,
            None => {
                return Err(SpdmStatus::SessionExhausted);
            },
        };
        let version = self.common.negotiate_info.spdm_version_sel;
        let hash_sel = self.common.negotiate_info.base_hash_sel;
        let hash_size = self.common.get_hash_size();
        if hash_size == 0 {
            return Err(SpdmStatus::InvalidState);
        }
        let context = rand::get_random(hash_size as usize)?;
        let req_session_id: u16 = (0xFFFF - index) as u16;
        let opaque = opaque_version_selection();
        let payload = SpdmPskExchangeRequestPayload {
            measurement_summary_hash_type,
            req_session_id,
            psk_hint: SpdmPskHintStruct { data: Vec::new() },
            psk_context: SpdmPskContextStruct { data: context },
            opaque,
        };
        let mut request: Vec<u8> = Vec::new();
        SpdmMessageHeader { version, request_response_code: SPDM_PSK_EXCHANGE }.encode(&mut request);
        payload.spdm_encode(&mut request);
        let ghost sent = request@;
        let ghost sent_model = payload@;
        self.send_message(request.as_slice())?;
        let rsp = self.receive_message()?;
        let summary_size = if measurement_summary_hash_type == SPDM_MEASUREMENT_SUMMARY_HASH_NONE { 0 } else { hash_size };
        let (answer, head_len) = accept_psk_exchange_rsp(&rsp, summary_size, hash_size)?;
        let mut message_k = ManagedBuffer::new();
        if message_k.append_message(request.as_slice()).is_none() {
            return Err(SpdmStatus::BufferOverflow);
        }
        if message_k.append_message(&rsp.as_slice()[0..head_len]).is_none() {
            return Err(SpdmStatus::BufferOverflow);
        }
        let th1 = match self.common.calc_transcript_hash(None, &message_k, None) {
            Some(h) => h,
            None => {
                return Err(SpdmStatus::CryptoFailure);
            },
        };
        let session_id = make_session_id(req_session_id, answer.rsp_session_id);
        assert(session_id == spec_session_id(req_session_id_of(index as int), answer.rsp_session_id));
        let mut session = SpdmSession::new();
        let _ = session.setup(session_id);
        session.set_use_psk(true);
        session.set_crypto_param(hash_sel, self.common.negotiate_info.dhe_sel, self.common.negotiate_info.aead_sel,
            self.common.negotiate_info.key_schedule_sel);
        let sequence_number_count = self.common.transport_encap.get_sequence_number_count();
        let max_random_count = self.common.transport_encap.get_max_random_count();
        if sequence_number_count > 8 {
            return Err(SpdmStatus::InvalidState);
        }
        session.set_transport_param(sequence_number_count, max_random_count);
        session.set_dhe_secret(self.common.provision_info.psk.as_slice());
        session.generate_handshake_secret(&self.common.crypto, &th1)?;
        if session.verify_hmac_with_response_finished_key(&self.common.crypto, th1.data.as_slice(), &answer.verify_data).is_err() {
            return Err(SpdmStatus::CryptoFailure);
        }
        if message_k.append_message(answer.verify_data.data.as_slice()).is_none() {
            return Err(SpdmStatus::BufferOverflow);
        }
        assert(message_k@.take(sent.len() as int) =~= sent);
        session.runtime_info.message_k = message_k;
        if self.common.session_pool.install(index, session).is_err() {
            return Err(SpdmStatus::InvalidState);
        }
        proof {
            let olds = old(self).common.session_pool.sessions@;
            assert(first_free_at(olds, index as int));
            assert(self.common.session_pool.sessions@[index as int].crypto_param == negotiated_crypto(
                old(self).common.negotiate_info));
        }
        Ok(session_id)
    }
}

} // verus!
verus! {

/// What an exchange inside a session may change of it.
pub open spec fn kept_in_exchange(old_s: SpdmSession, new_s: SpdmSession) -> bool {
    &&& new_s.session_id == old_s.session_id || !is_active(new_s)
    &&& new_s.transport_param == old_s.transport_param
}

impl<D: SpdmDeviceIo, T: SpdmTransportEncap, C: SpdmCryptoProvider> RequesterContext<D, T, C> {
    /// FINISH / FINISH_RSP in a handshaking DHE session: sends the requester
    /// verify data over `message_a || Ct || message_k || FINISH head` under
    /// the handshake keys, then switches to the data keys derived from TH2
    /// and to the established state.
    pub fn finish_with(&mut self, session: &mut SpdmSession) -> (r: SpdmResult)
        requires
            old(self).common.wf(),
            old(session).transport_param.sequence_number_count <= 8,
        ensures
            final(self).common.wf(),
            final(self).common.session_pool == old(self).common.session_pool,
            kept_in_exchange(*old(session), *final(session)),
            r is Ok ==> old(session).state == SpdmSessionState::SpdmSessionHandshaking && !old(session).use_psk,
            r is Ok ==> final(session).use_psk == old(session).use_psk && final(session).crypto_param == old(session).crypto_param,
            r is Ok ==> final(session).runtime_info.message_k == old(session).runtime_info.message_k,
            r is Ok ==> final(session).state == SpdmSessionState::SpdmSessionEstablished && final(session).session_id
                == old(session).session_id,
    {
        if session.state != SpdmSessionState::SpdmSessionHandshaking || session.use_psk
            || session.runtime_info.message_k.len() > MAX_SPDM_MESSAGE_BUFFER_SIZE {
            return Err(SpdmStatus::InvalidState);
        }
        let version = self.common.negotiate_info.spdm_version_sel;
        let head = bare_frame(SpdmMessageHeader { version, request_response_code: SPDM_FINISH }, 0, 0);
        let mut message_f = ManagedBuffer::new();
        let _ = message_f.append_message(head.as_slice());
        let ct = match self.common.cert_chain_hash(false) {
            Some(h) => h,
            None => {
                return Err(SpdmStatus::InvalidState);
            },
        };
        let th = match self.common.calc_transcript_hash(Some(&ct), &session.runtime_info.message_k, Some(&message_f)) {
            Some(h) => h,
            None => {
                return Err(SpdmStatus::CryptoFailure);
            },
        };
        let verify_data = session.generate_hmac_with_request_finished_key(&self.common.crypto, th.data.as_slice())?;
        let _ = message_f.append_message(verify_data.data.as_slice());
        let mut request = head;
        crate::codec::encode_bytes(verify_data.data.as_slice(), &mut request);
        self.send_in_session(session, request.as_slice())?;
        if session.state != SpdmSessionState::SpdmSessionHandshaking {
            return Err(SpdmStatus::InvalidState);
        }
        let rsp = self.receive_in_session(session)?;
        if rsp.len() < 2 || rsp[1] != SPDM_FINISH_RSP {
            return Err(unexpected_answer(&rsp));
        }
        if message_f.append_message(rsp.as_slice()).is_none() {
            return Err(SpdmStatus::BufferOverflow);
        }
        let th2 = match self.common.calc_transcript_hash(Some(&ct), &session.runtime_info.message_k, Some(&message_f)) {
            Some(h) => h,
            None => {
                return Err(SpdmStatus::CryptoFailure);
            },
        };
        session.generate_data_secret(&self.common.crypto, &th2)?;
        session.runtime_info.message_f = message_f;
        session.set_session_state(SpdmSessionState::SpdmSessionEstablished);
        Ok(())
    }

    /// PSK_FINISH / PSK_FINISH_RSP in a handshaking PSK session: as FINISH,
    /// with no certificate chain hash in the transcript.
    pub fn psk_finish_with(&mut self, session: &mut SpdmSession) -> (r: SpdmResult)
        requires
            old(self).common.wf(),
            old(session).transport_param.sequence_number_count <= 8,
        ensures
            final(self).common.wf(),
            final(self).common.session_pool == old(self).common.session_pool,
            kept_in_exchange(*old(session), *final(session)),
            r is Ok ==> old(session).state == SpdmSessionState::SpdmSessionHandshaking && old(session).use_psk,
            r is Ok ==> final(session).use_psk == old(session).use_psk && final(session).crypto_param == old(session).crypto_param,
            r is Ok ==> final(session).runtime_info.message_k == old(session).runtime_info.message_k,
            r is Ok ==> final(session).state == SpdmSessionState::SpdmSessionEstablished && final(session).session_id
                == old(session).session_id,
    {
        if session.state != SpdmSessionState::SpdmSessionHandshaking || !session.use_psk
            || session.runtime_info.message_k.len() > MAX_SPDM_MESSAGE_BUFFER_SIZE {
            return Err(SpdmStatus::InvalidState);
        }
        let version = self.common.negotiate_info.spdm_version_sel;
        let head = bare_frame(SpdmMessageHeader { version, request_response_code: SPDM_PSK_FINISH }, 0, 0);
        let mut message_f = ManagedBuffer::new();
        let _ = message_f.append_message(head.as_slice());
        let th = match self.common.calc_transcript_hash(None, &session.runtime_info.message_k, Some(&message_f)) {
            Some(h) => h,
            None => {
                return Err(SpdmStatus::CryptoFailure);
            },
        };
        let verify_data = session.generate_hmac_with_request_finished_key(&self.common.crypto, th.data.as_slice())?;
        let _ = message_f.append_message(verify_data.data.as_slice());
        let mut request = head;
        crate::codec::encode_bytes(verify_data.data.as_slice(), &mut request);
        self.send_in_session(session, request.as_slice())?;
        if session.state != SpdmSessionState::SpdmSessionHandshaking {
            return Err(SpdmStatus::InvalidState);
        }
        let rsp = self.receive_in_session(session)?;
        if rsp.len() < 2 || rsp[1] != SPDM_PSK_FINISH_RSP {
            return Err(unexpected_answer(&rsp));
        }
        if message_f.append_message(rsp.as_slice()).is_none() {
            return Err(SpdmStatus::BufferOverflow);
        }
        let th2 = match self.common.calc_transcript_hash(None, &session.runtime_info.message_k, Some(&message_f)) {
            Some(h) => h,
            None => {
                return Err(SpdmStatus::CryptoFailure);
            },
        };
        session.generate_data_secret(&self.common.crypto, &th2)?;
        session.runtime_info.message_f = message_f;
        session.set_session_state(SpdmSessionState::SpdmSessionEstablished);
        Ok(())
    }

    /// Runs FINISH (or PSK_FINISH when `use_psk`) in session `session_id`.
    pub fn send_receive_spdm_finish_of(&mut self, session_id: u32, use_psk: bool) -> (r: SpdmResult)
        requires
            old(self).common.wf(),
        ensures
            final(self).common.wf(),
            only_session_changed(old(self).common.session_pool.sessions@, final(self).common.session_pool.sessions@, session_id),
            r is Ok ==> forall|j: int| 0 <= j < old(self).common.session_pool.sessions@.len() && is_active(
                #[trigger] old(self).common.session_pool.sessions@[j]) && old(self).common.session_pool.sessions@[j].session_id
                == session_id ==> {
                let f = final(self).common.session_pool.sessions@[j];
                let o = old(self).common.session_pool.sessions@[j];
                &&& f.state == SpdmSessionState::SpdmSessionEstablished
                &&& f.session_id == session_id
                &&& f.use_psk == o.use_psk
                &&& f.crypto_param == o.crypto_param
                &&& f.runtime_info.message_k == o.runtime_info.message_k
            },
    {
        let index = match self.common.session_pool.get_session_via_id(session_id) {
            Some(i) => i,
            None => {
                return Err(SpdmStatus::InvalidParameter);
            },
        };
        if self.common.session_pool.sessions[index].transport_param.sequence_number_count > 8 {
            return Err(SpdmStatus::InvalidState);
        }
        let ghost before = self.common.session_pool;
        let mut session = self.common.session_pool.take(index);
        let r = if use_psk { self.psk_finish_with(&mut session) } else { self.finish_with(&mut session) };
        proof {
            if is_active(session) {
                assert forall|j: int| 0 <= j < before.sessions@.len() && j != index implies !(is_active(
                    #[trigger] self.common.session_pool.sessions@[j]) && self.common.session_pool.sessions@[j].session_id
                    == session.session_id) by {
                    assert(self.common.session_pool.sessions@[j] == before.sessions@[j]);
                }
            }
        }
        self.common.session_pool.put_back(index, session);
        assert forall|j: int| 0 <= j < before.sessions@.len() implies (#[trigger] self.common.session_pool.sessions@[j]
            == before.sessions@[j] || (is_active(before.sessions@[j]) && before.sessions@[j].session_id == session_id
            && (self.common.session_pool.sessions@[j].session_id == session_id || !is_active(
            self.common.session_pool.sessions@[j])))) by {
            if j != index {
                assert(self.common.session_pool.sessions@[j] == before.sessions@[j]);
            }
        }
        proof {
            crate::session::lemma_lookup_finds_setup_slot(before, index as int, session_id);
        }
        r
    }

    /// Establishes a session: KEY_EXCHANGE then FINISH, or PSK_EXCHANGE
    /// then PSK_FINISH when `use_psk`, in the first free slot. Returns the
    /// session id, `(requester part << 16) | responder part`. A session that
    /// fails half way is torn down again: its slot is free and zeroed.
    pub fn start_session(&mut self, use_psk: bool, slot_id: u8, measurement_summary_hash_type: u8) -> (r: SpdmResult<u32>)
        requires
            old(self).common.wf(),
        ensures
            final(self).common.wf(),
            old(self).common.runtime_info.connection_state != SpdmConnectionState::SpdmConnectionNegotiated ==> r
                == Err::<u32, SpdmStatus>(SpdmStatus::InvalidState) && final(self).common.session_pool == old(self).common.session_pool,
            old(self).common.runtime_info.connection_state == SpdmConnectionState::SpdmConnectionNegotiated && (forall|i: int|
                0 <= i < old(self).common.session_pool.sessions@.len() ==> is_active(#[trigger] old(self).common.session_pool.sessions@[i])) ==> r
                == Err::<u32, SpdmStatus>(SpdmStatus::SessionExhausted) && final(self).common.session_pool == old(self).common.session_pool,
            r matches Ok(id) ==> exists|i: int| {
                let f = final(self).common.session_pool.sessions@[i];
                &&& #[trigger] first_free_at(old(self).common.session_pool.sessions@, i)
                &&& final(self).common.session_pool.sessions@ == old(self).common.session_pool.sessions@.update(i, f)
                &&& f.session_id == id
                &&& f.state == SpdmSessionState::SpdmSessionEstablished
                &&& f.use_psk == use_psk
                &&& f.crypto_param == negotiated_crypto(old(self).common.negotiate_info)
                &&& exists|rsp: u16| id == #[trigger] spec_session_id(req_session_id_of(i), rsp)
                &&& request_sent(f.runtime_info.message_k@, use_psk, old(self).common.negotiate_info.spdm_version_sel, req_session_id_of(i),
                    if use_psk { 0u8 } else { slot_id }, measurement_summary_hash_type)
            },
            r is Err ==> forall|i: int| 0 <= i < final(self).common.session_pool.sessions@.len() ==> (
                #[trigger] final(self).common.session_pool.sessions@[i] == old(self).common.session_pool.sessions@[i] || (!is_active(
                old(self).common.session_pool.sessions@[i]) && !is_active(final(self).common.session_pool.sessions@[i]) && secrets_zeroed(
                final(self).common.session_pool.sessions@[i]))),
    {
        if self.common.runtime_info.connection_state != SpdmConnectionState::SpdmConnectionNegotiated {
            return Err(SpdmStatus::InvalidState);
        }
        let index = match self.common.session_pool.get_next_available_session() {
            Some(i) => i,
            None => {
                return Err(SpdmStatus::SessionExhausted);
            },
        };
        let session_id = if use_psk {
            self.send_receive_spdm_psk_exchange(measurement_summary_hash_type)?
        } else {
            self.send_receive_spdm_key_exchange(slot_id, measurement_summary_hash_type)?
        };
        let ghost after_exchange = self.common.session_pool;
        proof {
            let olds = old(self).common.session_pool.sessions@;
            let k = choose|k: int| {
                &&& #[trigger] first_free_at(olds, k)
                &&& after_exchange.sessions@ == olds.update(k, after_exchange.sessions@[k])
                &&& after_exchange.sessions@[k].state == SpdmSessionState::SpdmSessionHandshaking
                &&& after_exchange.sessions@[k].session_id == session_id
                &&& after_exchange.sessions@[k].use_psk == use_psk
                &&& after_exchange.sessions@[k].crypto_param == negotiated_crypto(old(self).common.negotiate_info)
                &&& exists|rsp: u16| session_id == #[trigger] spec_session_id(req_session_id_of(k), rsp)
                &&& request_sent(after_exchange.sessions@[k].runtime_info.message_k@, use_psk,
                    old(self).common.negotiate_info.spdm_version_sel, req_session_id_of(k), if use_psk { 0u8 } else { slot_id },
                    measurement_summary_hash_type)
            };
            if k < index {
                assert(is_active(olds[k]));
            } else if k > index {
                assert(is_active(olds[index as int]));
            }
            assert(k == index);
            crate::session::lemma_lookup_finds_setup_slot(after_exchange, index as int, session_id);
        }
        let result = self.send_receive_spdm_finish_of(session_id, use_psk);
        if result.is_ok() {
            return Ok(session_id);
        }
        let _ = self.common.session_pool.take(index);
        match result {
            Err(e) => Err(e),
            Ok(()) => Ok(session_id),
        }
    }

    /// Sends END_SESSION in session `session_id` and waits for the ack, best
    /// effort; the local session is ended in any case.
    pub fn end_session(&mut self, session_id: u32) -> (r: SpdmResult)
        requires
            old(self).common.wf(),
        ensures
            final(self).common.wf(),
            r is Ok,
            forall|i: int| 0 <= i < final(self).common.session_pool.sessions@.len() ==> !(is_active(
                #[trigger] final(self).common.session_pool.sessions@[i]) && final(self).common.session_pool.sessions@[i].session_id
                == session_id),
            forall|i: int| 0 <= i < old(self).common.session_pool.sessions@.len() && is_active(#[trigger] old(self).common.session_pool.sessions@[i]) && old(self).common.session_pool.sessions@[i].session_id == session_id ==> {
                &&& !is_active(final(self).common.session_pool.sessions@[i])
                &&& secrets_zeroed(final(self).common.session_pool.sessions@[i])
            },
            forall|i: int| 0 <= i < old(self).common.session_pool.sessions@.len() && !(is_active(#[trigger] old(self).common.session_pool.sessions@[i]) && old(self).common.session_pool.sessions@[i].session_id == session_id)
                ==> final(self).common.session_pool.sessions@[i] == old(self).common.session_pool.sessions@[i],
            final(self).common.session_pool.sessions@.len() == old(self).common.session_pool.sessions@.len(),
    {
        let index = match self.common.session_pool.get_session_via_id(session_id) {
            Some(i) => i,
            None => {
                return Ok(());
            },
        };
        proof {
            crate::session::lemma_lookup_finds_setup_slot(self.common.session_pool, index as int, session_id);
        }
        let ghost before = self.common.session_pool;
        let mut session = self.common.session_pool.take(index);
        if session.transport_param.sequence_number_count <= 8 {
            let version = self.common.negotiate_info.spdm_version_sel;
            let request = bare_frame(SpdmMessageHeader { version, request_response_code: SPDM_END_SESSION }, 0, 0);
            if self.send_in_session(&mut session, request.as_slice()).is_ok() {
                let _ = self.receive_in_session(&mut session);
            }
        }
        let id = session.session_id;
        let _ = session.teardown(id);
        self.common.session_pool.put_back(index, session);
        assert forall|i: int| 0 <= i < self.common.session_pool.sessions@.len() implies !(is_active(
            #[trigger] self.common.session_pool.sessions@[i]) && self.common.session_pool.sessions@[i].session_id
            == session_id) by {
            if i != index {
                assert(self.common.session_pool.sessions@[i] == before.sessions@[i]);
            }
        }
        Ok(())
    }

    /// HEARTBEAT / HEARTBEAT_ACK in session `session_id`.
    pub fn send_receive_spdm_heartbeat(&mut self, session_id: u32) -> (r: SpdmResult)
        requires
            old(self).common.wf(),
        ensures
            final(self).common.wf(),
    {
        let version = self.common.negotiate_info.spdm_version_sel;
        let request = bare_frame(SpdmMessageHeader { version, request_response_code: SPDM_HEARTBEAT }, 0, 0);
        self.send_secured_message(session_id, request.as_slice())?;
        let rsp = self.receive_secured_message(session_id)?;
        if rsp.len() < 2 || rsp[1] != SPDM_HEARTBEAT_ACK {
            return Err(unexpected_answer(&rsp));
        }
        Ok(())
    }
}

} // verus!
verus! {

impl<D: SpdmDeviceIo, T: SpdmTransportEncap, C: SpdmCryptoProvider> RequesterContext<D, T, C> {
    /// KEY_UPDATE in an established session, in two phases. UpdateKey (or
    /// UpdateAllKeys when `update_all`) is sent under the current key; the
    /// request direction then moves to its new key, kept provisionally. If
    /// no matching ack comes back the old key is restored. After the ack
    /// (and, for all keys, the response direction's own rotation),
    /// VerifyNewKey is sent under the new key and, once acknowledged, the
    /// new keys are confirmed.
    pub fn key_update_with(&mut self, session: &mut SpdmSession, update_all: bool) -> (r: SpdmResult)
        requires
            old(self).common.wf(),
            old(session).transport_param.sequence_number_count <= 8,
        ensures
            final(self).common.wf(),
            final(self).common.session_pool == old(self).common.session_pool,
            kept_in_exchange(*old(session), *final(session)),
            r is Ok ==> old(session).state == SpdmSessionState::SpdmSessionEstablished,
            r is Ok ==> final(session).backup_request_direction is None && final(session).backup_response_direction is None,
    {
        if session.state != SpdmSessionState::SpdmSessionEstablished {
            return Err(SpdmStatus::InvalidState);
        }
        let version = self.common.negotiate_info.spdm_version_sel;
        let op: u8 = if update_all { 2 } else { 1 };
        let tag: u8 = 1;
        let request = bare_frame(SpdmMessageHeader { version, request_response_code: SPDM_KEY_UPDATE }, op, tag);
        self.send_in_session(session, request.as_slice())?;
        if session.state != SpdmSessionState::SpdmSessionEstablished {
            return Err(SpdmStatus::InvalidState);
        }
        session.create_data_secret_update(&self.common.crypto, true, false)?;
        let ack = match self.receive_in_session(session) {
            Ok(a) => a,
            Err(e) => {
                session.activate_data_secret_update(false);
                return Err(e);
            },
        };
        if ack.len() < 4 || ack[1] != SPDM_KEY_UPDATE_ACK || ack[2] != op || ack[3] != tag {
            session.activate_data_secret_update(false);
            return Err(SpdmStatus::DecodeFailure);
        }
        if update_all {
            if session.create_data_secret_update(&self.common.crypto, false, true).is_err() {
                session.activate_data_secret_update(false);
                return Err(SpdmStatus::CryptoFailure);
            }
        }
        let verify = bare_frame(SpdmMessageHeader { version, request_response_code: SPDM_KEY_UPDATE }, 3, tag + 1);
        self.send_in_session(session, verify.as_slice())?;
        if session.state != SpdmSessionState::SpdmSessionEstablished {
            return Err(SpdmStatus::InvalidState);
        }
        let ack = self.receive_in_session(session)?;
        if ack.len() < 4 || ack[1] != SPDM_KEY_UPDATE_ACK || ack[2] != 3 || ack[3] != tag + 1 {
            return Err(SpdmStatus::DecodeFailure);
        }
        session.activate_data_secret_update(true);
        Ok(())
    }

    /// Runs a key update in session `session_id`.
    pub fn send_receive_spdm_key_update(&mut self, session_id: u32, update_all: bool) -> (r: SpdmResult)
        requires
            old(self).common.wf(),
        ensures
            final(self).common.wf(),
            only_session_changed(old(self).common.session_pool.sessions@, final(self).common.session_pool.sessions@, session_id),
    {
        let index = match self.common.session_pool.get_session_via_id(session_id) {
            Some(i) => i,
            None => {
                return Err(SpdmStatus::InvalidParameter);
            },
        };
        if self.common.session_pool.sessions[index].transport_param.sequence_number_count > 8 {
            return Err(SpdmStatus::InvalidState);
        }
        let ghost before = self.common.session_pool;
        let mut session = self.common.session_pool.take(index);
        let r = self.key_update_with(&mut session, update_all);
        proof {
            if is_active(session) {
                assert forall|j: int| 0 <= j < before.sessions@.len() && j != index implies !(is_active(
                    #[trigger] self.common.session_pool.sessions@[j]) && self.common.session_pool.sessions@[j].session_id
                    == session.session_id) by {
                    assert(self.common.session_pool.sessions@[j] == before.sessions@[j]);
                }
            }
        }
        self.common.session_pool.put_back(index, session);
        assert forall|j: int| 0 <= j < before.sessions@.len() implies (#[trigger] self.common.session_pool.sessions@[j]
            == before.sessions@[j] || (is_active(before.sessions@[j]) && before.sessions@[j].session_id == session_id
            && (self.common.session_pool.sessions@[j].session_id == session_id || !is_active(
            self.common.session_pool.sessions@[j])))) by {
            if j != index {
                assert(self.common.session_pool.sessions@[j] == before.sessions@[j]);
            }
        }
        r
    }
}

} // verus!
