//! The PSK_EXCHANGE handler.
use vstd::prelude::*;
use crate::cmds::error::SpdmErrorCode;
use crate::cmds::psk_exchange::{
    parse_psk_exchange_req, spec_psk_exchange_rsp, spec_psk_exchange_rsp_head, PskExchangeRspModel,
    SpdmPskExchangeRequestPayload, SpdmPskExchangeResponsePayload,
};
use crate::codec::Reader;
use crate::common::{SpdmConnectionState, SpdmDeviceIo, SpdmTransportEncap};
use crate::crypto::{hash, rand, SpdmCryptoProvider};
use crate::msgs::{
    hash_size, spec_header, SpdmDigestStruct, SpdmMessageHeader, SPDM_ERROR, SPDM_MEASUREMENT_SUMMARY_HASH_ALL,
    SPDM_MEASUREMENT_SUMMARY_HASH_TCB, SPDM_PSK_EXCHANGE_RSP,
};
use crate::responder::{
    assemble_response, consumed, error_frame, lemma_error_frame_bytes, make_session_id, psk_response_shape, opaque_version_selection, rsp_session_id_of, spec_error_frame,
    spec_session_id, wants_summary, ResponderContext,
};
use crate::session::{is_active, zeros, SpdmSession, SpdmSessionCryptoParam, SpdmSessionState};
use crate::spdm_codec::SpdmPskContextStruct;
use crate::transcript::ManagedBuffer;

verus! {

impl<D: SpdmDeviceIo, T: SpdmTransportEncap, C: SpdmCryptoProvider> ResponderContext<D, T, C> {
    /// PSK_EXCHANGE, once algorithms are negotiated: the provisioned PSK is
    /// the session's base secret and nothing is signed. Derives the
    /// handshake keys from TH1 = H(message_a || message_k), adds the
    /// responder verify data and places the new session, in the handshake
    /// state, in a free slot. Returns the frame to send: the response, or on
    /// any failure a single error frame, in which case the pool is left as
    /// it was.
    pub fn handle_spdm_psk_exchange(&mut self, bytes: &[u8]) -> (r: Vec<u8>)
        requires
            old(self).common.wf(),
        ensures
            final(self).common.wf(),
            r@.len() >= 2,
            r@[1] == SPDM_ERROR || r@[1] == SPDM_PSK_EXCHANGE_RSP,
            r@[1] == SPDM_ERROR ==> final(self).common.session_pool == old(self).common.session_pool,
            old(self).common.runtime_info.connection_state != SpdmConnectionState::SpdmConnectionNegotiated ==> r@
                == spec_error_frame(old(self).common.negotiate_info.spdm_version_sel, SpdmErrorCode::SpdmErrorUnexpectedRequest, 0),
            old(self).common.runtime_info.connection_state == SpdmConnectionState::SpdmConnectionNegotiated && bytes@.len() >= 2
                && parse_psk_exchange_req(bytes@.skip(2)) is None ==> r@ == spec_error_frame(
                old(self).common.negotiate_info.spdm_version_sel, SpdmErrorCode::SpdmErrorInvalidRequest, 0),
            old(self).common.runtime_info.connection_state == SpdmConnectionState::SpdmConnectionNegotiated && bytes@.len() >= 2
                && parse_psk_exchange_req(bytes@.skip(2)) is Some && (forall|i: int|
                0 <= i < old(self).common.session_pool.sessions@.len() ==> is_active(
                #[trigger] old(self).common.session_pool.sessions@[i])) ==> r@ == spec_error_frame(
                old(self).common.negotiate_info.spdm_version_sel, SpdmErrorCode::SpdmErrorSessionLimitExceeded, 0),
            r@[1] == SPDM_PSK_EXCHANGE_RSP ==> match parse_psk_exchange_req(bytes@.skip(2)) {
                Some((req, rest)) => exists|i: int| {
                    &&& 0 <= i < old(self).common.session_pool.sessions@.len()
                    &&& !is_active(#[trigger] old(self).common.session_pool.sessions@[i])
                    &&& final(self).common.session_pool.sessions@ == old(self).common.session_pool.sessions@.update(i,
                        final(self).common.session_pool.sessions@[i])
                    &&& final(self).common.session_pool.sessions@[i].state == SpdmSessionState::SpdmSessionHandshaking
                    &&& final(self).common.session_pool.sessions@[i].session_id == spec_session_id(req.req_session_id,
                        rsp_session_id_of(i))
                    &&& final(self).common.session_pool.sessions@[i].use_psk
                    &&& final(self).common.session_pool.sessions@[i].dhe_secret@ == old(self).common.provision_info.psk@
                    &&& final(self).common.runtime_info.need_measurement_summary_hash == wants_summary(req.measurement_summary_hash_type)
                    &&& final(self).common.session_pool.sessions@[i].crypto_param == (SpdmSessionCryptoParam {
                        base_hash_algo: old(self).common.negotiate_info.base_hash_sel,
                        dhe_algo: old(self).common.negotiate_info.dhe_sel,
                        aead_algo: old(self).common.negotiate_info.aead_sel,
                        key_schedule_algo: old(self).common.negotiate_info.key_schedule_sel,
                    })
                    &&& final(self).common.session_pool.sessions@[i].runtime_info.message_k@ == consumed(bytes@, rest) + r@
                    &&& psk_response_shape(r@, old(self).common.negotiate_info.spdm_version_sel, rsp_session_id_of(i),
                        hash_size(old(self).common.negotiate_info.base_hash_sel.bits), wants_summary(req.measurement_summary_hash_type),
                        old(self).common.crypto.hash@ is None, old(self).common.negotiate_info.base_hash_sel.bits,
                        old(self).common.provision_info.measurement_data@)
                },
                None => false,
            },
            old(self).common.runtime_info.connection_state == SpdmConnectionState::SpdmConnectionNegotiated && bytes@.len() < 2
                ==> r@ == spec_error_frame(old(self).common.negotiate_info.spdm_version_sel, SpdmErrorCode::SpdmErrorInvalidRequest, 0),
            old(self).common.runtime_info.connection_state == SpdmConnectionState::SpdmConnectionNegotiated && bytes@.len() >= 2
                && parse_psk_exchange_req(bytes@.skip(2)) is Some && (exists|i: int| 0 <= i
                < old(self).common.session_pool.sessions@.len() && !is_active(#[trigger] old(self).common.session_pool.sessions@[i]))
                && hash_size(old(self).common.negotiate_info.base_hash_sel.bits) == 0 ==> r@ == spec_error_frame(old(self).common.negotiate_info.spdm_version_sel,
                SpdmErrorCode::SpdmErrorUnspecified, 0),
            r@ == spec_error_frame(old(self).common.negotiate_info.spdm_version_sel, SpdmErrorCode::SpdmErrorUnexpectedRequest, 0)
                ==> old(self).common.runtime_info.connection_state != SpdmConnectionState::SpdmConnectionNegotiated,
            r@ == spec_error_frame(old(self).common.negotiate_info.spdm_version_sel, SpdmErrorCode::SpdmErrorSessionLimitExceeded, 0) ==> {
                &&& old(self).common.runtime_info.connection_state == SpdmConnectionState::SpdmConnectionNegotiated
                &&& parse_psk_exchange_req(bytes@.skip(2)) is Some
                &&& forall|i: int| 0 <= i < old(self).common.session_pool.sessions@.len() ==> is_active(
                    #[trigger] old(self).common.session_pool.sessions@[i])
            },
    {
        let version = self.common.negotiate_info.spdm_version_sel;
        proof {
            lemma_error_frame_bytes(version, SpdmErrorCode::SpdmErrorUnspecified, 0);
            lemma_error_frame_bytes(version, SpdmErrorCode::SpdmErrorInvalidRequest, 0);
            lemma_error_frame_bytes(version, SpdmErrorCode::SpdmErrorUnexpectedRequest, 0);
            lemma_error_frame_bytes(version, SpdmErrorCode::SpdmErrorSessionLimitExceeded, 0);
        }
        if self.common.runtime_info.connection_state != SpdmConnectionState::SpdmConnectionNegotiated {
            return error_frame(version, SpdmErrorCode::SpdmErrorUnexpectedRequest, 0);
        }
        let mut reader = Reader::init(bytes);
        if SpdmMessageHeader::read(&mut reader).is_none() {
            return error_frame(version, SpdmErrorCode::SpdmErrorInvalidRequest, 0);
        }
        assert(reader.rest() =~= bytes@.skip(2));
        let req = match SpdmPskExchangeRequestPayload::spdm_read(&mut reader) {
            Some(p) => p,
            None => {
                return error_frame(version, SpdmErrorCode::SpdmErrorInvalidRequest, 0);
            },
        };
        let used = reader.used();
        let index = match self.common.session_pool.get_next_available_session() {
            Some(i) => i,
            None => {
                return error_frame(version, SpdmErrorCode::SpdmErrorSessionLimitExceeded, 0);
            },
        };
        let ghost rest_after = reader.rest();
        assert(bytes@.take(used as int) == consumed(bytes@, rest_after));
        let hash_size = self.common.get_hash_size();
        if hash_size == 0 {
            return error_frame(version, SpdmErrorCode::SpdmErrorUnspecified, 0);
        }
        self.psk_exchange_in_slot(bytes, req, used, index)
    }

    /// The part of PSK_EXCHANGE that runs once the request has decoded and
    /// free slot `index` is known: the response, its verify data over TH1
    /// and the new session in the slot. On failure the answer is
    /// Unspecified (a provider failed) or InvalidRequest (a transcript
    /// overflowed), and the pool is left as it was.
    pub fn psk_exchange_in_slot(
        &mut self,
        bytes: &[u8],
        req: SpdmPskExchangeRequestPayload,
        used: usize,
        index: usize,
    ) -> (r: Vec<u8>)
        requires
            old(self).common.wf(),
            used <= bytes@.len(),
            index < old(self).common.session_pool.sessions@.len(),
            !is_active(old(self).common.session_pool.sessions@[index as int]),
            hash_size(old(self).common.negotiate_info.base_hash_sel.bits) > 0,
        ensures
            final(self).common.wf(),
            r@.len() >= 2,
            r@[1] == SPDM_ERROR || r@[1] == SPDM_PSK_EXCHANGE_RSP,
            r@[1] == SPDM_ERROR ==> final(self).common.session_pool == old(self).common.session_pool && (r@ == spec_error_frame(
                old(self).common.negotiate_info.spdm_version_sel, SpdmErrorCode::SpdmErrorUnspecified, 0) || r@
                == spec_error_frame(old(self).common.negotiate_info.spdm_version_sel, SpdmErrorCode::SpdmErrorInvalidRequest, 0)),
            r@[1] == SPDM_PSK_EXCHANGE_RSP ==> {
                let i = index as int;
                let v = old(self).common.negotiate_info;
                let slot = final(self).common.session_pool.sessions@[i];
                &&& final(self).common.session_pool.sessions@ == old(self).common.session_pool.sessions@.update(i, slot)
                &&& slot.state == SpdmSessionState::SpdmSessionHandshaking
                &&& slot.session_id == spec_session_id(req.req_session_id, rsp_session_id_of(i))
                &&& slot.use_psk
                &&& slot.dhe_secret@ == old(self).common.provision_info.psk@
                &&& final(self).common.runtime_info.need_measurement_summary_hash == wants_summary(req.measurement_summary_hash_type)
                &&& slot.crypto_param == (SpdmSessionCryptoParam {
                    base_hash_algo: v.base_hash_sel,
                    dhe_algo: v.dhe_sel,
                    aead_algo: v.aead_sel,
                    key_schedule_algo: v.key_schedule_sel,
                })
                &&& slot.runtime_info.message_k@ == bytes@.take(used as int) + r@
                &&& psk_response_shape(r@, v.spdm_version_sel, rsp_session_id_of(i), hash_size(v.base_hash_sel.bits),
                    wants_summary(req.measurement_summary_hash_type), old(self).common.crypto.hash@ is None, v.base_hash_sel.bits,
                    old(self).common.provision_info.measurement_data@)
            },
    {
        let version = self.common.negotiate_info.spdm_version_sel;
        let need_summary = req.measurement_summary_hash_type == SPDM_MEASUREMENT_SUMMARY_HASH_TCB
            || req.measurement_summary_hash_type == SPDM_MEASUREMENT_SUMMARY_HASH_ALL;
        let hash_sel = self.common.negotiate_info.base_hash_sel;
        let hash_size = self.common.get_hash_size();
        let psk_context = match rand::get_random(hash_size as usize) {
            Ok(v) => v,
            Err(_) => {
                return error_frame(version, SpdmErrorCode::SpdmErrorUnspecified, 0);
            },
        };
        let summary = if need_summary {
            if self.common.provision_info.measurement_data.len() as u64 >= 0x1000_0000_0000_0000u64 {
                return error_frame(version, SpdmErrorCode::SpdmErrorUnspecified, 0);
            }
            match hash::hash_all(&self.common.crypto, hash_sel, self.common.provision_info.measurement_data.as_slice()) {
                Some(d) => d.data,
                None => {
                    return error_frame(version, SpdmErrorCode::SpdmErrorUnspecified, 0);
                },
            }
        } else {
            Vec::new()
        };
        let rsp_session_id: u16 = (0xFFFF - index) as u16;
        let payload = SpdmPskExchangeResponsePayload {
            heartbeat_period: 0,
            rsp_session_id,
            measurement_summary_hash: summary,
            psk_context: SpdmPskContextStruct { data: psk_context },
            opaque: opaque_version_selection(),
            verify_data: SpdmDigestStruct { data: zeros(hash_size as usize) },
        };
        let mut rsp: Vec<u8> = Vec::new();
        SpdmMessageHeader { version, request_response_code: SPDM_PSK_EXCHANGE_RSP }.encode(&mut rsp);
        payload.spdm_encode(&mut rsp);
        let head_len = rsp.len() - hash_size as usize;
        let mut message_k = ManagedBuffer::new();
        if message_k.append_message(&bytes[0..used]).is_none() {
            return error_frame(version, SpdmErrorCode::SpdmErrorInvalidRequest, 0);
        }
        if message_k.append_message(&rsp.as_slice()[0..head_len]).is_none() {
            return error_frame(version, SpdmErrorCode::SpdmErrorInvalidRequest, 0);
        }
        let th1 = match self.common.calc_transcript_hash(None, &message_k, None) {
            Some(h) => h,
            None => {
                return error_frame(version, SpdmErrorCode::SpdmErrorUnspecified, 0);
            },
        };
        let session_id = make_session_id(req.req_session_id, rsp_session_id);
        let mut session = SpdmSession::new();
        let _ = session.setup(session_id);
        session.set_use_psk(true);
        session.set_crypto_param(hash_sel, self.common.negotiate_info.dhe_sel, self.common.negotiate_info.aead_sel,
            self.common.negotiate_info.key_schedule_sel);
        let sequence_number_count = self.common.transport_encap.get_sequence_number_count();
        let max_random_count = self.common.transport_encap.get_max_random_count();
        if sequence_number_count > 8 {
            return error_frame(version, SpdmErrorCode::SpdmErrorUnspecified, 0);
        }
        session.set_transport_param(sequence_number_count, max_random_count);
        session.set_dhe_secret(self.common.provision_info.psk.as_slice());
        if session.generate_handshake_secret(&self.common.crypto, &th1).is_err() {
            return error_frame(version, SpdmErrorCode::SpdmErrorUnspecified, 0);
        }
        let hmac = match session.generate_hmac_with_response_finished_key(&self.common.crypto, th1.data.as_slice()) {
            Ok(h) => h,
            Err(_) => {
                return error_frame(version, SpdmErrorCode::SpdmErrorUnspecified, 0);
            },
        };
        if message_k.append_message(hmac.data.as_slice()).is_none() {
            return error_frame(version, SpdmErrorCode::SpdmErrorInvalidRequest, 0);
        }
        session.runtime_info.message_k = message_k;
        let empty: Vec<u8> = Vec::new();
        let response = assemble_response(&rsp.as_slice()[0..head_len], empty.as_slice(), hmac.data.as_slice());
        assert(session.runtime_info.message_k@ =~= bytes@.take(used as int) + response@);
        let ghost m = PskExchangeRspModel { verify_data: hmac@, ..payload@ };
        assert(rsp@.take(head_len as int) =~= spec_header(SpdmMessageHeader { version, request_response_code: SPDM_PSK_EXCHANGE_RSP })
            + spec_psk_exchange_rsp_head(payload@));
        assert(response@ =~= spec_header(SpdmMessageHeader { version, request_response_code: SPDM_PSK_EXCHANGE_RSP })
            + spec_psk_exchange_rsp(m));
        if self.common.session_pool.install(index, session).is_err() {
            return error_frame(version, SpdmErrorCode::SpdmErrorUnspecified, 0);
        }
        self.common.runtime_info.need_measurement_summary_hash = need_summary;
        response
    }
}

} // verus!
