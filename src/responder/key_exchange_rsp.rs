//! The KEY_EXCHANGE handler.
use vstd::prelude::*;
use crate::cmds::error::SpdmErrorCode;
use crate::cmds::key_exchange::{
    parse_key_exchange_req, spec_key_exchange_rsp, spec_key_exchange_rsp_head, KeyExchangeRspModel,
    SpdmKeyExchangeRequestPayload, SpdmKeyExchangeResponsePayload,
};
use crate::codec::{spec_u16, Reader};
use crate::common::{SpdmConnectionState, SpdmDeviceIo, SpdmTransportEncap};
use crate::config::{MAX_SPDM_MESSAGE_BUFFER_SIZE, SPDM_RANDOM_SIZE};
use crate::crypto::{asym_sign, dhe, hash, rand, SpdmCryptoProvider};
use crate::msgs::{
    asym_size, dhe_size, hash_size, spec_header, SpdmDigestStruct, SpdmMessageHeader, SpdmSignatureStruct, SPDM_ERROR, SPDM_KEY_EXCHANGE_RSP,
    SPDM_MEASUREMENT_SUMMARY_HASH_ALL, SPDM_MEASUREMENT_SUMMARY_HASH_TCB,
};
use crate::responder::{
    assemble_response, consumed, ke_head_len, key_exchange_response_shape, error_frame, lemma_error_frame_bytes, make_session_id, opaque_version_selection, rsp_session_id_of, spec_error_frame,
    spec_session_id, wants_summary, ResponderContext,
};
use crate::session::{is_active, zeros, SpdmSession, SpdmSessionCryptoParam, SpdmSessionState};
use crate::spdm_codec::SpdmOpaqueStruct;
use crate::transcript::ManagedBuffer;

verus! {

impl<D: SpdmDeviceIo, T: SpdmTransportEncap, C: SpdmCryptoProvider> ResponderContext<D, T, C> {
    /// KEY_EXCHANGE, once algorithms are negotiated: generates a DHE key
    /// pair, signs the transcript `message_a || Ct || message_k` (request,
    /// then the response up to its signature), derives the handshake keys
    /// from TH1, adds the responder verify data and places the new session,
    /// in the handshake state, in a free slot. Returns the frame to send: the
    /// response, or on any failure a single error frame, in which case the
    /// pool is left as it was.
    pub fn handle_spdm_key_exchange(&mut self, bytes: &[u8]) -> (r: Vec<u8>)
        requires
            old(self).common.wf(),
        ensures
            final(self).common.wf(),
            r@.len() >= 2,
            r@[1] == SPDM_ERROR || r@[1] == SPDM_KEY_EXCHANGE_RSP,
            r@[1] == SPDM_ERROR ==> final(self).common.session_pool == old(self).common.session_pool,
            old(self).common.runtime_info.connection_state != SpdmConnectionState::SpdmConnectionNegotiated ==> r@
                == spec_error_frame(old(self).common.negotiate_info.spdm_version_sel, SpdmErrorCode::SpdmErrorUnexpectedRequest, 0),
            old(self).common.runtime_info.connection_state == SpdmConnectionState::SpdmConnectionNegotiated && bytes@.len() >= 2
                && parse_key_exchange_req(dhe_size(old(self).common.negotiate_info.dhe_sel.bits) as nat, bytes@.skip(2)) is None
                ==> r@ == spec_error_frame(old(self).common.negotiate_info.spdm_version_sel, SpdmErrorCode::SpdmErrorInvalidRequest, 0),
            old(self).common.runtime_info.connection_state == SpdmConnectionState::SpdmConnectionNegotiated && bytes@.len() >= 2
                && parse_key_exchange_req(dhe_size(old(self).common.negotiate_info.dhe_sel.bits) as nat, bytes@.skip(2)) is Some
                && (forall|i: int| 0 <= i < old(self).common.session_pool.sessions@.len() ==> is_active(
                #[trigger] old(self).common.session_pool.sessions@[i])) ==> r@ == spec_error_frame(
                old(self).common.negotiate_info.spdm_version_sel, SpdmErrorCode::SpdmErrorSessionLimitExceeded, 0),
            r@[1] == SPDM_KEY_EXCHANGE_RSP ==> match parse_key_exchange_req(
                dhe_size(old(self).common.negotiate_info.dhe_sel.bits) as nat, bytes@.skip(2)) {
                Some((req, rest)) => exists|i: int| {
                    &&& 0 <= i < old(self).common.session_pool.sessions@.len()
                    &&& !is_active(#[trigger] old(self).common.session_pool.sessions@[i])
                    &&& final(self).common.session_pool.sessions@ == old(self).common.session_pool.sessions@.update(i,
                        final(self).common.session_pool.sessions@[i])
                    &&& final(self).common.session_pool.sessions@[i].state == SpdmSessionState::SpdmSessionHandshaking
                    &&& final(self).common.session_pool.sessions@[i].session_id == spec_session_id(req.req_session_id,
                        rsp_session_id_of(i))
                    &&& !final(self).common.session_pool.sessions@[i].use_psk
                    &&& final(self).common.runtime_info.need_measurement_summary_hash == wants_summary(req.measurement_summary_hash_type)
                    &&& final(self).common.session_pool.sessions@[i].crypto_param == (SpdmSessionCryptoParam {
                        base_hash_algo: old(self).common.negotiate_info.base_hash_sel,
                        dhe_algo: old(self).common.negotiate_info.dhe_sel,
                        aead_algo: old(self).common.negotiate_info.aead_sel,
                        key_schedule_algo: old(self).common.negotiate_info.key_schedule_sel,
                    })
                    &&& final(self).common.session_pool.sessions@[i].runtime_info.message_k@ == consumed(bytes@, rest) + r@
                    &&& r@.take(2) == spec_header(SpdmMessageHeader {
                        version: old(self).common.negotiate_info.spdm_version_sel,
                        request_response_code: SPDM_KEY_EXCHANGE_RSP,
                    })
                    &&& r@.subrange(4, 6) == spec_u16(rsp_session_id_of(i))
                    &&& r@.len() >= asym_size(old(self).common.negotiate_info.base_asym_sel.bits) + hash_size(old(self).common.negotiate_info.base_hash_sel.bits)
                    &&& key_exchange_response_shape(r@, old(self).common.negotiate_info.spdm_version_sel, rsp_session_id_of(i),
                        asym_size(old(self).common.negotiate_info.base_asym_sel.bits), hash_size(old(self).common.negotiate_info.base_hash_sel.bits),
                        wants_summary(req.measurement_summary_hash_type), old(self).common.crypto.hash@ is None,
                        old(self).common.negotiate_info.base_hash_sel.bits, old(self).common.provision_info.measurement_data@)
                },
                None => false,
            },
            old(self).common.runtime_info.connection_state
                == SpdmConnectionState::SpdmConnectionNegotiated && bytes@.len() < 2 ==> r@ == spec_error_frame(
                old(self).common.negotiate_info.spdm_version_sel, SpdmErrorCode::SpdmErrorInvalidRequest, 0),
            old(self).common.runtime_info.connection_state == SpdmConnectionState::SpdmConnectionNegotiated && bytes@.len() >= 2
                && parse_key_exchange_req(dhe_size(old(self).common.negotiate_info.dhe_sel.bits) as nat, bytes@.skip(2)) is Some
                && (exists|i: int| 0 <= i < old(self).common.session_pool.sessions@.len() && !is_active(
                #[trigger] old(self).common.session_pool.sessions@[i])) && (hash_size(old(self).common.negotiate_info.base_hash_sel.bits) == 0
                || asym_size(old(self).common.negotiate_info.base_asym_sel.bits) == 0) ==> r@ == spec_error_frame(old(self).common.negotiate_info.spdm_version_sel,
                SpdmErrorCode::SpdmErrorUnspecified, 0),
            r@ == spec_error_frame(old(self).common.negotiate_info.spdm_version_sel, SpdmErrorCode::SpdmErrorUnexpectedRequest, 0)
                ==> old(self).common.runtime_info.connection_state != SpdmConnectionState::SpdmConnectionNegotiated,
            r@ == spec_error_frame(old(self).common.negotiate_info.spdm_version_sel, SpdmErrorCode::SpdmErrorSessionLimitExceeded, 0) ==> {
                &&& old(self).common.runtime_info.connection_state == SpdmConnectionState::SpdmConnectionNegotiated
                &&& parse_key_exchange_req(dhe_size(old(self).common.negotiate_info.dhe_sel.bits) as nat, bytes@.skip(2)) is Some
                &&& forall|i: int| 0 <= i < old(self).common.session_pool.sessions@.len() ==> is_active(
                    #[trigger] old(self).common.session_pool.sessions@[i])
            },
    {
        let version = self.common.negotiate_info.spdm_version_sel;
        proof {
            lemma_error_frame_bytes(version, SpdmErrorCode::SpdmErrorUnspecified, 0);
            lemma_error_frame_bytes(version, SpdmErrorCode::SpdmErrorInvalidRequest, 0);
            lemma_error_frame_bytes(version, SpdmErrorCode::SpdmErrorUnexpectedRequest, 0);
            lemma_error_frame_bytes(version, SpdmErrorCode::SpdmErrorSessionLimitExceeded, 0);
        }
        if self.common.runtime_info.connection_state != SpdmConnectionState::SpdmConnectionNegotiated {
            return error_frame(version, SpdmErrorCode::SpdmErrorUnexpectedRequest, 0);
        }
        let mut reader = Reader::init(bytes);
        if SpdmMessageHeader::read(&mut reader).is_none() {
            return error_frame(version, SpdmErrorCode::SpdmErrorInvalidRequest, 0);
        }
        assert(reader.rest() =~= bytes@.skip(2));
        let dhe_size = self.common.get_dhe_key_size();
        let req = match SpdmKeyExchangeRequestPayload::spdm_read(dhe_size, &mut reader) {
            Some(p) => p,
            None => {
                return error_frame(version, SpdmErrorCode::SpdmErrorInvalidRequest, 0);
            },
        };
        let used = reader.used();
        let ghost rest_after = reader.rest();
        assert(bytes@.take(used as int) == consumed(bytes@, rest_after));
        let index = match self.common.session_pool.get_next_available_session() {
            Some(i) => i,
            None => {
                return error_frame(version, SpdmErrorCode::SpdmErrorSessionLimitExceeded, 0);
            },
        };
        let hash_size = self.common.get_hash_size();
        let asym_size = self.common.get_asym_key_size();
        if hash_size == 0 || asym_size == 0 {
            return error_frame(version, SpdmErrorCode::SpdmErrorUnspecified, 0);
        }
        self.key_exchange_in_slot(bytes, req, used, index)
    }

    /// The part of KEY_EXCHANGE that runs once the request has decoded and
    /// free slot `index` is known: key agreement, the response with its
    /// signature over `message_a || Ct || message_k` and its verify data
    /// over TH1, and the new session placed in the slot. On failure the
    /// answer is Unspecified (a provider failed) or InvalidRequest (a
    /// transcript overflowed), and the pool is left as it was.
    pub fn key_exchange_in_slot(
        &mut self,
        bytes: &[u8],
        req: SpdmKeyExchangeRequestPayload,
        used: usize,
        index: usize,
    ) -> (r: Vec<u8>)
        requires
            old(self).common.wf(),
            used <= bytes@.len(),
            index < old(self).common.session_pool.sessions@.len(),
            !is_active(old(self).common.session_pool.sessions@[index as int]),
            hash_size(old(self).common.negotiate_info.base_hash_sel.bits) > 0,
            asym_size(old(self).common.negotiate_info.base_asym_sel.bits) > 0,
        ensures
            final(self).common.wf(),
            r@.len() >= 2,
            r@[1] == SPDM_ERROR || r@[1] == SPDM_KEY_EXCHANGE_RSP,
            r@[1] == SPDM_ERROR ==> final(self).common.session_pool == old(self).common.session_pool && (r@ == spec_error_frame(
                old(self).common.negotiate_info.spdm_version_sel, SpdmErrorCode::SpdmErrorUnspecified, 0) || r@
                == spec_error_frame(old(self).common.negotiate_info.spdm_version_sel, SpdmErrorCode::SpdmErrorInvalidRequest, 0)),
            r@[1] == SPDM_KEY_EXCHANGE_RSP ==> {
                let i = index as int;
                let v = old(self).common.negotiate_info;
                let slot = final(self).common.session_pool.sessions@[i];
                &&& final(self).common.session_pool.sessions@ == old(self).common.session_pool.sessions@.update(i, slot)
                &&& slot.state == SpdmSessionState::SpdmSessionHandshaking
                &&& slot.session_id == spec_session_id(req.req_session_id, rsp_session_id_of(i))
                &&& !slot.use_psk
                &&& final(self).common.runtime_info.need_measurement_summary_hash == wants_summary(req.measurement_summary_hash_type)
                &&& slot.crypto_param == (SpdmSessionCryptoParam {
                    base_hash_algo: v.base_hash_sel,
                    dhe_algo: v.dhe_sel,
                    aead_algo: v.aead_sel,
                    key_schedule_algo: v.key_schedule_sel,
                })
                &&& slot.runtime_info.message_k@ == bytes@.take(used as int) + r@
                &&& r@.take(2) == spec_header(SpdmMessageHeader {
                    version: v.spdm_version_sel,
                    request_response_code: SPDM_KEY_EXCHANGE_RSP,
                })
                &&& r@.subrange(4, 6) == spec_u16(rsp_session_id_of(i))
                &&& r@.len() >= asym_size(v.base_asym_sel.bits) + hash_size(v.base_hash_sel.bits)
                &&& key_exchange_response_shape(r@, v.spdm_version_sel, rsp_session_id_of(i), asym_size(v.base_asym_sel.bits),
                    hash_size(v.base_hash_sel.bits), wants_summary(req.measurement_summary_hash_type),
                    old(self).common.crypto.hash@ is None, v.base_hash_sel.bits, old(self).common.provision_info.measurement_data@)
            },
            r@ == spec_error_frame(old(self).common.negotiate_info.spdm_version_sel, SpdmErrorCode::SpdmErrorInvalidRequest, 0) ==> {
                let v = old(self).common.negotiate_info;
                let h = ke_head_len(dhe_size(v.dhe_sel.bits) as nat, if wants_summary(req.measurement_summary_hash_type) {
                    hash_size(v.base_hash_sel.bits) as nat
                } else {
                    0nat
                });
                ||| used + h + asym_size(v.base_asym_sel.bits) + hash_size(v.base_hash_sel.bits) > MAX_SPDM_MESSAGE_BUFFER_SIZE
                ||| old(self).common.runtime_info.message_a@.len() + hash_size(v.base_hash_sel.bits) + used + h
                    > MAX_SPDM_MESSAGE_BUFFER_SIZE
            },
    {
        let version = self.common.negotiate_info.spdm_version_sel;
        proof {
            lemma_error_frame_bytes(version, SpdmErrorCode::SpdmErrorUnspecified, 0);
            lemma_error_frame_bytes(version, SpdmErrorCode::SpdmErrorInvalidRequest, 0);
        }
        let need_summary = req.measurement_summary_hash_type == SPDM_MEASUREMENT_SUMMARY_HASH_TCB
            || req.measurement_summary_hash_type == SPDM_MEASUREMENT_SUMMARY_HASH_ALL;
        let hash_sel = self.common.negotiate_info.base_hash_sel;
        let asym_sel = self.common.negotiate_info.base_asym_sel;
        let dhe_sel = self.common.negotiate_info.dhe_sel;
        let hash_size = self.common.get_hash_size();
        let asym_size = self.common.get_asym_key_size();
        let (exchange, private_key) = match dhe::generate_key_pair(&self.common.crypto, dhe_sel) {
            Some(kp) => kp,
            None => {
                return error_frame(version, SpdmErrorCode::SpdmErrorUnspecified, 0);
            },
        };
        let final_key = match dhe::compute_final_key(&self.common.crypto, dhe_sel, private_key, &req.exchange) {
            Some(k) => k,
            None => {
                return error_frame(version, SpdmErrorCode::SpdmErrorUnspecified, 0);
            },
        };
        let random = match rand::get_random(SPDM_RANDOM_SIZE) {
            Ok(v) => v,
            Err(_) => {
                return error_frame(version, SpdmErrorCode::SpdmErrorUnspecified, 0);
            },
        };
        let summary = if need_summary {
            if self.common.provision_info.measurement_data.len() as u64 >= 0x1000_0000_0000_0000u64 {
                return error_frame(version, SpdmErrorCode::SpdmErrorUnspecified, 0);
            }
            match hash::hash_all(&self.common.crypto, hash_sel, self.common.provision_info.measurement_data.as_slice()) {
                Some(d) => d.data,
                None => {
                    return error_frame(version, SpdmErrorCode::SpdmErrorUnspecified, 0);
                },
            }
        } else {
            Vec::new()
        };
        let rsp_session_id: u16 = (0xFFFF - index) as u16;
        let payload = SpdmKeyExchangeResponsePayload {
            heartbeat_period: 0,
            rsp_session_id,
            mut_auth_req: 0,
            req_slot_id: 0,
            random,
            exchange,
            measurement_summary_hash: summary,
            opaque: SpdmOpaqueStruct { data: opaque_version_selection() },
            signature: SpdmSignatureStruct { data: zeros(asym_size as usize) },
            verify_data: SpdmDigestStruct { data: zeros(hash_size as usize) },
        };
        let mut rsp: Vec<u8> = Vec::new();
        SpdmMessageHeader { version, request_response_code: SPDM_KEY_EXCHANGE_RSP }.encode(&mut rsp);
        payload.spdm_encode(&mut rsp);
        assert(rsp@.subrange(4, 6) =~= spec_u16(rsp_session_id));
        assert(rsp@.take(2) =~= spec_header(SpdmMessageHeader { version, request_response_code: SPDM_KEY_EXCHANGE_RSP }));
        let head_len = rsp.len() - asym_size as usize - hash_size as usize;
        // The transcript takes the request as received, then the response
        // without its signature and verify data.
        let mut message_k = ManagedBuffer::new();
        if message_k.append_message(&bytes[0..used]).is_none() {
            return error_frame(version, SpdmErrorCode::SpdmErrorInvalidRequest, 0);
        }
        if message_k.append_message(&rsp.as_slice()[0..head_len]).is_none() {
            return error_frame(version, SpdmErrorCode::SpdmErrorInvalidRequest, 0);
        }
        let ct = match self.common.cert_chain_hash(true) {
            Some(h) => h,
            None => {
                return error_frame(version, SpdmErrorCode::SpdmErrorUnspecified, 0);
            },
        };
        let transcript = match self.common.calc_transcript_data(Some(&ct), &message_k, None) {
            Some(t) => t,
            None => {
                return error_frame(version, SpdmErrorCode::SpdmErrorInvalidRequest, 0);
            },
        };
        let signature = match asym_sign::sign(&self.common.crypto, hash_sel, asym_sel, transcript.as_slice()) {
            Some(s) => s,
            None => {
                return error_frame(version, SpdmErrorCode::SpdmErrorUnspecified, 0);
            },
        };
        if message_k.append_message(signature.data.as_slice()).is_none() {
            return error_frame(version, SpdmErrorCode::SpdmErrorInvalidRequest, 0);
        }
        let th1 = match self.common.calc_transcript_hash(Some(&ct), &message_k, None) {
            Some(h) => h,
            None => {
                return error_frame(version, SpdmErrorCode::SpdmErrorUnspecified, 0);
            },
        };
        let session_id = make_session_id(req.req_session_id, rsp_session_id);
        let mut session = SpdmSession::new();
        let _ = session.setup(session_id);
        session.set_use_psk(false);
        session.set_crypto_param(hash_sel, dhe_sel, self.common.negotiate_info.aead_sel,
            self.common.negotiate_info.key_schedule_sel);
        let sequence_number_count = self.common.transport_encap.get_sequence_number_count();
        let max_random_count = self.common.transport_encap.get_max_random_count();
        if sequence_number_count > 8 {
            return error_frame(version, SpdmErrorCode::SpdmErrorUnspecified, 0);
        }
        session.set_transport_param(sequence_number_count, max_random_count);
        session.set_dhe_secret(final_key.data.as_slice());
        if session.generate_handshake_secret(&self.common.crypto, &th1).is_err() {
            return error_frame(version, SpdmErrorCode::SpdmErrorUnspecified, 0);
        }
        let hmac = match session.generate_hmac_with_response_finished_key(&self.common.crypto, th1.data.as_slice()) {
            Ok(h) => h,
            Err(_) => {
                return error_frame(version, SpdmErrorCode::SpdmErrorUnspecified, 0);
            },
        };
        if message_k.append_message(hmac.data.as_slice()).is_none() {
            return error_frame(version, SpdmErrorCode::SpdmErrorInvalidRequest, 0);
        }
        session.runtime_info.message_k = message_k;
        // The response as sent: its head, then the signature and the
        // verify data in place of the placeholders.
        let response = assemble_response(&rsp.as_slice()[0..head_len], signature.data.as_slice(), hmac.data.as_slice());
        assert(session.runtime_info.message_k@ =~= bytes@.take(used as int) + response@);
        assert(response@.subrange(4, 6) =~= rsp@.subrange(4, 6));
        assert(response@.take(2) =~= rsp@.take(2));
        let ghost m = KeyExchangeRspModel { signature: signature@, verify_data: hmac@, ..payload@ };
        assert(rsp@.take(head_len as int) =~= spec_header(SpdmMessageHeader { version, request_response_code: SPDM_KEY_EXCHANGE_RSP })
            + spec_key_exchange_rsp_head(payload@));
        assert(response@ =~= spec_header(SpdmMessageHeader { version, request_response_code: SPDM_KEY_EXCHANGE_RSP })
            + spec_key_exchange_rsp(m));
        if self.common.session_pool.install(index, session).is_err() {
            return error_frame(version, SpdmErrorCode::SpdmErrorUnspecified, 0);
        }
        self.common.runtime_info.need_measurement_summary_hash = need_summary;
        response
    }
}

} // verus!
