//! Handlers of the requests that arrive inside a session: FINISH,
//! PSK_FINISH, HEARTBEAT, KEY_UPDATE and END_SESSION. Each answers inside
//! the session it arrived in.
use vstd::prelude::*;
use crate::cmds::error::SpdmErrorCode;
use crate::common::{SpdmDeviceIo, SpdmTransportEncap};
use crate::crypto::SpdmCryptoProvider;
use crate::msgs::{
    SpdmDigestStruct, SpdmMessageHeader, SPDM_END_SESSION_ACK, SPDM_ERROR, SPDM_FINISH_RSP,
    SPDM_HEARTBEAT_ACK, SPDM_KEY_UPDATE_ACK, SPDM_PSK_FINISH_RSP,
};
use crate::responder::{error_frame, ResponderContext};
use crate::session::{is_active, SpdmSession, SpdmSessionState};
use crate::transcript::ManagedBuffer;

verus! {

pub const SPDM_KEY_UPDATE_OP_UPDATE_KEY: u8 = 1;
pub const SPDM_KEY_UPDATE_OP_UPDATE_ALL_KEYS: u8 = 2;
pub const SPDM_KEY_UPDATE_OP_VERIFY_NEW_KEY: u8 = 3;

/// A frame with only a header and two zero parameters.
pub fn bare_frame(header: SpdmMessageHeader, param1: u8, param2: u8) -> (r: Vec<u8>)
    ensures
        r@ == crate::msgs::spec_header(header) + seq![param1, param2],
{
    let mut r: Vec<u8> = Vec::new();
    header.encode(&mut r);
    r.push(param1);
    r.push(param2);
    assert(r@ =~= crate::msgs::spec_header(header) + seq![param1, param2]);
    r
}

/// What a handler may change of the session it runs in: its counters and
/// keys, and its state only along the session's life cycle.
pub open spec fn session_kept(old_s: SpdmSession, new_s: SpdmSession) -> bool {
    &&& !is_active(new_s) || new_s.session_id == old_s.session_id
    &&& new_s.transport_param == old_s.transport_param
}

impl<D: SpdmDeviceIo, T: SpdmTransportEncap, C: SpdmCryptoProvider> ResponderContext<D, T, C> {
    /// Sends `frame` in `session` and returns it.
    pub(crate) fn answer_in_session(&mut self, session: &mut SpdmSession, frame: Vec<u8>) -> (r: Vec<u8>)
        requires
            old(session).transport_param.sequence_number_count <= 8,
        ensures
            r@ == frame@,
            final(self).common.session_pool == old(self).common.session_pool,
            final(self).common.runtime_info == old(self).common.runtime_info,
            final(self).common.negotiate_info == old(self).common.negotiate_info,
            session_kept(*old(session), *final(session)),
            final(session).state == old(session).state || !is_active(*final(session)),
            final(session).use_psk == old(session).use_psk || !is_active(*final(session)),
            is_active(*old(session)) && !is_active(*final(session)) ==> old(session).response_direction.sequence_number == u64::MAX,
    {
        let _ = self.send_in_session(session, frame.as_slice());
        frame
    }

    /// FINISH in a DHE session that is handshaking: checks the requester
    /// verify data over `message_a || Ct || message_k || FINISH head`,
    /// answers with FINISH_RSP under the handshake keys, then switches the
    /// session to its data keys, derived from TH2, and to the established
    /// state.
    pub fn finish_in_session(&mut self, session: &mut SpdmSession, bytes: &[u8]) -> (r: Vec<u8>)
        requires
            old(self).common.wf(),
            old(session).transport_param.sequence_number_count <= 8,
        ensures
            final(self).common.wf(),
            final(self).common.session_pool == old(self).common.session_pool,
            final(self).common.runtime_info == old(self).common.runtime_info,
            final(self).common.negotiate_info == old(self).common.negotiate_info,
            session_kept(*old(session), *final(session)),
            r@.len() >= 2,
            r@[1] == SPDM_ERROR || r@[1] == SPDM_FINISH_RSP,
            r@[1] == SPDM_FINISH_RSP ==> old(session).state == SpdmSessionState::SpdmSessionHandshaking && !old(session).use_psk,
            r@[1] == SPDM_FINISH_RSP && is_active(*final(session)) ==> final(session).state == SpdmSessionState::SpdmSessionEstablished,
            r@[1] == SPDM_ERROR ==> final(session).state == old(session).state || !is_active(*final(session)),
    {
        let version = self.common.negotiate_info.spdm_version_sel;
        if session.state != SpdmSessionState::SpdmSessionHandshaking || session.use_psk {
            return self.answer_in_session(session, error_frame(version, SpdmErrorCode::SpdmErrorUnexpectedRequest, 0));
        }
        let hash_size = self.common.get_hash_size() as usize;
        if bytes.len() != 4 + hash_size || bytes[2] != 0 || session.runtime_info.message_k.len()
            > crate::config::MAX_SPDM_MESSAGE_BUFFER_SIZE {
            return self.answer_in_session(session, error_frame(version, SpdmErrorCode::SpdmErrorInvalidRequest, 0));
        }
        let mut message_f = ManagedBuffer::new();
        let _ = message_f.append_message(&bytes[0..4]);
        let ct = match self.common.cert_chain_hash(true) {
            Some(h) => h,
            None => {
                return self.answer_in_session(session, error_frame(version, SpdmErrorCode::SpdmErrorUnspecified, 0));
            },
        };
        let th = match self.common.calc_transcript_hash(Some(&ct), &session.runtime_info.message_k, Some(&message_f)) {
            Some(h) => h,
            None => {
                return self.answer_in_session(session, error_frame(version, SpdmErrorCode::SpdmErrorInvalidRequest, 0));
            },
        };
        let mut verify: Vec<u8> = Vec::new();
        crate::codec::encode_bytes(&bytes[4..4 + hash_size], &mut verify);
        let verify_data = SpdmDigestStruct { data: verify };
        if session.verify_hmac_with_request_finished_key(&self.common.crypto, th.data.as_slice(), &verify_data).is_err() {
            return self.answer_in_session(session, error_frame(version, SpdmErrorCode::SpdmErrorDecryptError, 0));
        }
        let _ = message_f.append_message(verify_data.data.as_slice());
        let response = bare_frame(SpdmMessageHeader { version, request_response_code: SPDM_FINISH_RSP }, 0, 0);
        if message_f.append_message(response.as_slice()).is_none() {
            return self.answer_in_session(session, error_frame(version, SpdmErrorCode::SpdmErrorInvalidRequest, 0));
        }
        let th2 = match self.common.calc_transcript_hash(Some(&ct), &session.runtime_info.message_k, Some(&message_f)) {
            Some(h) => h,
            None => {
                return self.answer_in_session(session, error_frame(version, SpdmErrorCode::SpdmErrorInvalidRequest, 0));
            },
        };
        let r = self.answer_in_session(session, response);
        if !is_active_exec(session) {
            return r;
        }
        if session.generate_data_secret(&self.common.crypto, &th2).is_err() {
            let id = session.session_id;
            let _ = session.teardown(id);
            return r;
        }
        session.runtime_info.message_f = message_f;
        session.set_session_state(SpdmSessionState::SpdmSessionEstablished);
        r
    }

    /// PSK_FINISH in a PSK session that is handshaking: checks the
    /// requester verify data over `message_a || message_k || PSK_FINISH
    /// head`, answers with PSK_FINISH_RSP under the handshake keys, then
    /// switches the session to its data keys and the established state.
    pub fn psk_finish_in_session(&mut self, session: &mut SpdmSession, bytes: &[u8]) -> (r: Vec<u8>)
        requires
            old(self).common.wf(),
            old(session).transport_param.sequence_number_count <= 8,
        ensures
            final(self).common.wf(),
            final(self).common.session_pool == old(self).common.session_pool,
            final(self).common.runtime_info == old(self).common.runtime_info,
            final(self).common.negotiate_info == old(self).common.negotiate_info,
            session_kept(*old(session), *final(session)),
            r@.len() >= 2,
            r@[1] == SPDM_ERROR || r@[1] == SPDM_PSK_FINISH_RSP,
            r@[1] == SPDM_PSK_FINISH_RSP ==> old(session).state == SpdmSessionState::SpdmSessionHandshaking && old(session).use_psk,
            r@[1] == SPDM_PSK_FINISH_RSP && is_active(*final(session)) ==> final(session).state == SpdmSessionState::SpdmSessionEstablished,
            r@[1] == SPDM_ERROR ==> final(session).state == old(session).state || !is_active(*final(session)),
    {
        let version = self.common.negotiate_info.spdm_version_sel;
        if session.state != SpdmSessionState::SpdmSessionHandshaking || !session.use_psk {
            return self.answer_in_session(session, error_frame(version, SpdmErrorCode::SpdmErrorUnexpectedRequest, 0));
        }
        let hash_size = self.common.get_hash_size() as usize;
        if bytes.len() != 4 + hash_size || session.runtime_info.message_k.len() > crate::config::MAX_SPDM_MESSAGE_BUFFER_SIZE {
            return self.answer_in_session(session, error_frame(version, SpdmErrorCode::SpdmErrorInvalidRequest, 0));
        }
        let mut message_f = ManagedBuffer::new();
        let _ = message_f.append_message(&bytes[0..4]);
        let th = match self.common.calc_transcript_hash(None, &session.runtime_info.message_k, Some(&message_f)) {
            Some(h) => h,
            None => {
                return self.answer_in_session(session, error_frame(version, SpdmErrorCode::SpdmErrorInvalidRequest, 0));
            },
        };
        let mut verify: Vec<u8> = Vec::new();
        crate::codec::encode_bytes(&bytes[4..4 + hash_size], &mut verify);
        let verify_data = SpdmDigestStruct { data: verify };
        if session.verify_hmac_with_request_finished_key(&self.common.crypto, th.data.as_slice(), &verify_data).is_err() {
            return self.answer_in_session(session, error_frame(version, SpdmErrorCode::SpdmErrorDecryptError, 0));
        }
        let _ = message_f.append_message(verify_data.data.as_slice());
        let response = bare_frame(SpdmMessageHeader { version, request_response_code: SPDM_PSK_FINISH_RSP }, 0, 0);
        if message_f.append_message(response.as_slice()).is_none() {
            return self.answer_in_session(session, error_frame(version, SpdmErrorCode::SpdmErrorInvalidRequest, 0));
        }
        let th2 = match self.common.calc_transcript_hash(None, &session.runtime_info.message_k, Some(&message_f)) {
            Some(h) => h,
            None => {
                return self.answer_in_session(session, error_frame(version, SpdmErrorCode::SpdmErrorInvalidRequest, 0));
            },
        };
        let r = self.answer_in_session(session, response);
        if !is_active_exec(session) {
            return r;
        }
        if session.generate_data_secret(&self.common.crypto, &th2).is_err() {
            let id = session.session_id;
            let _ = session.teardown(id);
            return r;
        }
        session.runtime_info.message_f = message_f;
        session.set_session_state(SpdmSessionState::SpdmSessionEstablished);
        r
    }

    /// HEARTBEAT in an established session: answers HEARTBEAT_ACK.
    pub fn heartbeat_in_session(&mut self, session: &mut SpdmSession, bytes: &[u8]) -> (r: Vec<u8>)
        requires
            old(session).transport_param.sequence_number_count <= 8,
        ensures
            final(self).common.session_pool == old(self).common.session_pool,
            final(self).common.runtime_info == old(self).common.runtime_info,
            final(self).common.negotiate_info == old(self).common.negotiate_info,
            session_kept(*old(session), *final(session)),
            final(session).state == old(session).state || !is_active(*final(session)),
            is_active(*old(session)) && !is_active(*final(session)) ==> old(session).response_direction.sequence_number == u64::MAX,
            old(session).state == SpdmSessionState::SpdmSessionEstablished && bytes@.len() >= 4 ==> r@
                == crate::msgs::spec_header(SpdmMessageHeader {
                version: old(self).common.negotiate_info.spdm_version_sel,
                request_response_code: SPDM_HEARTBEAT_ACK,
            }) + seq![0u8, 0u8],
            old(session).state != SpdmSessionState::SpdmSessionEstablished ==> r@ == crate::responder::spec_error_frame(
                old(self).common.negotiate_info.spdm_version_sel, SpdmErrorCode::SpdmErrorUnexpectedRequest, 0),
    {
        let version = self.common.negotiate_info.spdm_version_sel;
        if session.state != SpdmSessionState::SpdmSessionEstablished {
            return self.answer_in_session(session, error_frame(version, SpdmErrorCode::SpdmErrorUnexpectedRequest, 0));
        }
        if bytes.len() < 4 {
            return self.answer_in_session(session, error_frame(version, SpdmErrorCode::SpdmErrorInvalidRequest, 0));
        }
        let response = bare_frame(SpdmMessageHeader { version, request_response_code: SPDM_HEARTBEAT_ACK }, 0, 0);
        self.answer_in_session(session, response)
    }

    /// KEY_UPDATE in an established session. UpdateKey rotates the
    /// requester's direction before the ack; UpdateAllKeys rotates it before
    /// the ack and the responder's direction after it (the ack travels under
    /// the old key); the replaced keys are kept until VerifyNewKey confirms
    /// the new ones. The ack echoes the operation and tag.
    pub fn key_update_in_session(&mut self, session: &mut SpdmSession, bytes: &[u8]) -> (r: Vec<u8>)
        requires
            old(session).transport_param.sequence_number_count <= 8,
        ensures
            final(self).common.session_pool == old(self).common.session_pool,
            final(self).common.runtime_info == old(self).common.runtime_info,
            final(self).common.negotiate_info == old(self).common.negotiate_info,
            session_kept(*old(session), *final(session)),
            final(session).state == old(session).state || !is_active(*final(session)),
            r@.len() >= 2,
            r@[1] == SPDM_ERROR || r@[1] == SPDM_KEY_UPDATE_ACK,
            r@[1] == SPDM_KEY_UPDATE_ACK ==> old(session).state == SpdmSessionState::SpdmSessionEstablished
                && r@.len() == 4 && r@[2] == bytes@[2] && r@[3] == bytes@[3],
    {
        let version = self.common.negotiate_info.spdm_version_sel;
        if session.state != SpdmSessionState::SpdmSessionEstablished {
            return self.answer_in_session(session, error_frame(version, SpdmErrorCode::SpdmErrorUnexpectedRequest, 0));
        }
        if bytes.len() < 4 {
            return self.answer_in_session(session, error_frame(version, SpdmErrorCode::SpdmErrorInvalidRequest, 0));
        }
        let op = bytes[2];
        let tag = bytes[3];
        if op != SPDM_KEY_UPDATE_OP_UPDATE_KEY && op != SPDM_KEY_UPDATE_OP_UPDATE_ALL_KEYS
            && op != SPDM_KEY_UPDATE_OP_VERIFY_NEW_KEY {
            return self.answer_in_session(session, error_frame(version, SpdmErrorCode::SpdmErrorInvalidRequest, 0));
        }
        if op == SPDM_KEY_UPDATE_OP_VERIFY_NEW_KEY {
            session.activate_data_secret_update(true);
        } else if session.create_data_secret_update(&self.common.crypto, true, false).is_err() {
            return self.answer_in_session(session, error_frame(version, SpdmErrorCode::SpdmErrorUnspecified, 0));
        }
        let response = bare_frame(SpdmMessageHeader { version, request_response_code: SPDM_KEY_UPDATE_ACK }, op, tag);
        let r = self.answer_in_session(session, response);
        if op == SPDM_KEY_UPDATE_OP_UPDATE_ALL_KEYS && is_active_exec(session) {
            let _ = session.create_data_secret_update(&self.common.crypto, false, true);
        }
        r
    }

    /// END_SESSION: answers END_SESSION_ACK inside the session, then ends
    /// it: its secrets are zeroed and its slot freed.
    pub fn end_session_in_session(&mut self, session: &mut SpdmSession, bytes: &[u8]) -> (r: Vec<u8>)
        requires
            old(session).transport_param.sequence_number_count <= 8,
        ensures
            final(self).common.session_pool == old(self).common.session_pool,
            final(self).common.runtime_info == old(self).common.runtime_info,
            final(self).common.negotiate_info == old(self).common.negotiate_info,
            session_kept(*old(session), *final(session)),
            r@.len() >= 2,
            r@[1] == SPDM_ERROR || r@[1] == SPDM_END_SESSION_ACK,
            r@[1] == SPDM_END_SESSION_ACK ==> !is_active(*final(session)) && crate::session::secrets_zeroed(*final(session)),
            r@[1] == SPDM_ERROR ==> final(session).state == old(session).state || !is_active(*final(session)),
    {
        let version = self.common.negotiate_info.spdm_version_sel;
        if session.state != SpdmSessionState::SpdmSessionEstablished {
            return self.answer_in_session(session, error_frame(version, SpdmErrorCode::SpdmErrorUnexpectedRequest, 0));
        }
        if bytes.len() < 4 {
            return self.answer_in_session(session, error_frame(version, SpdmErrorCode::SpdmErrorInvalidRequest, 0));
        }
        let response = bare_frame(SpdmMessageHeader { version, request_response_code: SPDM_END_SESSION_ACK }, 0, 0);
        let r = self.answer_in_session(session, response);
        let id = session.session_id;
        let _ = session.teardown(id);
        r
    }
}

/// Whether a session is in use.
pub fn is_active_exec(s: &SpdmSession) -> (r: bool)
    ensures
        r == is_active(*s),
{
    s.state != SpdmSessionState::SpdmSessionNotStarted
}

} // verus!
