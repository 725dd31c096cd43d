//! Handlers of the attestation requests: GET_DIGESTS, GET_CERTIFICATE,
//! CHALLENGE and GET_MEASUREMENTS.
use vstd::prelude::*;
use crate::cmds::error::SpdmErrorCode;
use crate::codec::{encode_bytes, encode_u16, Reader};
use crate::common::{SpdmConnectionState, SpdmDeviceIo, SpdmTransportEncap};
use crate::config::{MAX_SPDM_MESSAGE_BUFFER_SIZE, SPDM_RANDOM_SIZE};
use crate::crypto::{asym_sign, hash, rand, SpdmCryptoProvider};
use crate::msgs::{
    SpdmMessageHeader, SPDM_CERTIFICATE, SPDM_CHALLENGE_AUTH, SPDM_DIGESTS, SPDM_ERROR, SPDM_MEASUREMENTS,
    SPDM_MEASUREMENT_SUMMARY_HASH_NONE,
};
use crate::responder::{error_frame, spec_error_frame, ResponderContext};
use crate::spdm_codec::{SpdmMeasurementRecordStructure, SpdmOpaqueStruct};
use crate::cmds::attestation::{
    SpdmCertificateResponsePayload, SpdmChallengeAuthResponsePayload, SpdmChallengeRequestPayload,
    SpdmDigestsResponsePayload, SpdmGetCertificateRequestPayload,
};
use crate::transcript::ManagedBuffer;

verus! {

/// Largest certificate portion sent in one CERTIFICATE response.
pub const MAX_SPDM_CERT_PORTION_LEN: usize = 1024;

/// Measurement operation that asks for the number of blocks.
pub const SPDM_MEASUREMENT_OPERATION_TOTAL_NUMBER: u8 = 0;
/// Measurement operation that asks for all blocks.
pub const SPDM_MEASUREMENT_OPERATION_ALL: u8 = 0xFF;

impl<D: SpdmDeviceIo, T: SpdmTransportEncap, C: SpdmCryptoProvider> ResponderContext<D, T, C> {
    /// GET_DIGESTS, once algorithms are negotiated: the digest of the
    /// provisioned certificate chain in slot 0. Request and response are
    /// appended to `message_b`.
    pub fn handle_spdm_digest(&mut self, bytes: &[u8]) -> (r: Vec<u8>)
        requires
            old(self).common.wf(),
        ensures
            final(self).common.wf(),
            final(self).common.session_pool == old(self).common.session_pool,
            final(self).common.negotiate_info == old(self).common.negotiate_info,
            r@.len() >= 2,
            r@[1] == SPDM_ERROR || r@[1] == SPDM_DIGESTS,
            r@[1] == SPDM_ERROR ==> final(self).common.runtime_info == old(self).common.runtime_info,
            old(self).common.runtime_info.connection_state != SpdmConnectionState::SpdmConnectionNegotiated ==> r@
                == spec_error_frame(old(self).common.negotiate_info.spdm_version_sel, SpdmErrorCode::SpdmErrorUnexpectedRequest, 0),
            r@[1] == SPDM_DIGESTS ==> final(self).common.runtime_info.message_b@ == old(self).common.runtime_info.message_b@
                + bytes@.take(4) + r@,
    {
        let version = self.common.negotiate_info.spdm_version_sel;
        if self.common.runtime_info.connection_state != SpdmConnectionState::SpdmConnectionNegotiated {
            return error_frame(version, SpdmErrorCode::SpdmErrorUnexpectedRequest, 0);
        }
        if bytes.len() < 4 {
            return error_frame(version, SpdmErrorCode::SpdmErrorInvalidRequest, 0);
        }
        let digest = match self.common.cert_chain_hash(true) {
            Some(d) => d,
            None => {
                return error_frame(version, SpdmErrorCode::SpdmErrorUnsupportedRequest, 0);
            },
        };
        let mut r: Vec<u8> = Vec::new();
        SpdmMessageHeader { version, request_response_code: SPDM_DIGESTS }.encode(&mut r);
        SpdmDigestsResponsePayload { slot_mask: 1, digest: digest.data }.spdm_encode(&mut r);
        let b_len = self.common.runtime_info.message_b.len();
        if b_len > MAX_SPDM_MESSAGE_BUFFER_SIZE || MAX_SPDM_MESSAGE_BUFFER_SIZE - b_len < 4 + r.len() {
            return error_frame(version, SpdmErrorCode::SpdmErrorInvalidRequest, 0);
        }
        let _ = self.common.runtime_info.message_b.append_message(&bytes[0..4]);
        let _ = self.common.runtime_info.message_b.append_message(r.as_slice());
        r
    }

    /// GET_CERTIFICATE, once algorithms are negotiated: the part of the
    /// provisioned chain that starts at the requested offset, at most the
    /// requested length and `MAX_SPDM_CERT_PORTION_LEN`, with the number of
    /// bytes that remain after it. Request and response go to `message_b`.
    pub fn handle_spdm_certificate(&mut self, bytes: &[u8]) -> (r: Vec<u8>)
        requires
            old(self).common.wf(),
        ensures
            final(self).common.wf(),
            final(self).common.session_pool == old(self).common.session_pool,
            final(self).common.negotiate_info == old(self).common.negotiate_info,
            r@.len() >= 2,
            r@[1] == SPDM_ERROR || r@[1] == SPDM_CERTIFICATE,
            r@[1] == SPDM_ERROR ==> final(self).common.runtime_info == old(self).common.runtime_info,
            old(self).common.runtime_info.connection_state != SpdmConnectionState::SpdmConnectionNegotiated ==> r@
                == spec_error_frame(old(self).common.negotiate_info.spdm_version_sel, SpdmErrorCode::SpdmErrorUnexpectedRequest, 0),
            r@[1] == SPDM_CERTIFICATE ==> {
                &&& old(self).common.provision_info.my_cert_chain is Some
                &&& final(self).common.runtime_info.message_b@ == old(self).common.runtime_info.message_b@ + bytes@.take(8) + r@
            },
    {
        let version = self.common.negotiate_info.spdm_version_sel;
        if self.common.runtime_info.connection_state != SpdmConnectionState::SpdmConnectionNegotiated {
            return error_frame(version, SpdmErrorCode::SpdmErrorUnexpectedRequest, 0);
        }
        let mut reader = Reader::init(bytes);
        if SpdmMessageHeader::read(&mut reader).is_none() || bytes.len() < 8 {
            return error_frame(version, SpdmErrorCode::SpdmErrorInvalidRequest, 0);
        }
        let req = match SpdmGetCertificateRequestPayload::spdm_read(&mut reader) {
            Some(p) => p,
            None => {
                return error_frame(version, SpdmErrorCode::SpdmErrorInvalidRequest, 0);
            },
        };
        let offset = req.offset as usize;
        let length = req.length as usize;
        let slot = req.slot_id;
        let chain = match &self.common.provision_info.my_cert_chain {
            Some(c) => c,
            None => {
                return error_frame(version, SpdmErrorCode::SpdmErrorUnsupportedRequest, 0);
            },
        };
        if offset > chain.len() || chain.len() - offset > 0xFFFF {
            return error_frame(version, SpdmErrorCode::SpdmErrorInvalidRequest, 0);
        }
        let available = chain.len() - offset;
        let mut portion = if length < available { length } else { available };
        if portion > MAX_SPDM_CERT_PORTION_LEN {
            portion = MAX_SPDM_CERT_PORTION_LEN;
        }
        let remainder = available - portion;
        let mut r: Vec<u8> = Vec::new();
        SpdmMessageHeader { version, request_response_code: SPDM_CERTIFICATE }.encode(&mut r);
        let mut part: Vec<u8> = Vec::new();
        encode_bytes(&chain.as_slice()[offset..offset + portion], &mut part);
        SpdmCertificateResponsePayload { slot_id: slot, remainder_length: remainder as u16, portion: part }.spdm_encode(&mut r);
        let b_len = self.common.runtime_info.message_b.len();
        if b_len > MAX_SPDM_MESSAGE_BUFFER_SIZE || MAX_SPDM_MESSAGE_BUFFER_SIZE - b_len < 8 + r.len() {
            return error_frame(version, SpdmErrorCode::SpdmErrorInvalidRequest, 0);
        }
        let _ = self.common.runtime_info.message_b.append_message(&bytes[0..8]);
        let _ = self.common.runtime_info.message_b.append_message(r.as_slice());
        r
    }

    /// CHALLENGE, once algorithms are negotiated: answers CHALLENGE_AUTH
    /// with the chain hash, a fresh nonce, the measurement summary hash when
    /// asked for, and a signature over `message_a || message_b ||
    /// message_c`, where `message_c` holds the request and the response up
    /// to its signature; the signature is then appended to `message_c`. On
    /// failure `message_c` is left as it was.
    pub fn handle_spdm_challenge(&mut self, bytes: &[u8]) -> (r: Vec<u8>)
        requires
            old(self).common.wf(),
        ensures
            final(self).common.wf(),
            final(self).common.session_pool == old(self).common.session_pool,
            final(self).common.negotiate_info == old(self).common.negotiate_info,
            r@.len() >= 2,
            r@[1] == SPDM_ERROR || r@[1] == SPDM_CHALLENGE_AUTH,
            r@[1] == SPDM_ERROR ==> final(self).common.runtime_info == old(self).common.runtime_info,
            old(self).common.runtime_info.connection_state != SpdmConnectionState::SpdmConnectionNegotiated ==> r@
                == spec_error_frame(old(self).common.negotiate_info.spdm_version_sel, SpdmErrorCode::SpdmErrorUnexpectedRequest, 0),
            r@[1] == SPDM_CHALLENGE_AUTH ==> final(self).common.runtime_info.message_c@ == old(self).common.runtime_info.message_c@
                + bytes@.take(36) + r@,
    {
        let version = self.common.negotiate_info.spdm_version_sel;
        if self.common.runtime_info.connection_state != SpdmConnectionState::SpdmConnectionNegotiated {
            return error_frame(version, SpdmErrorCode::SpdmErrorUnexpectedRequest, 0);
        }
        let mut reader = Reader::init(bytes);
        if SpdmMessageHeader::read(&mut reader).is_none() || bytes.len() < 36 {
            return error_frame(version, SpdmErrorCode::SpdmErrorInvalidRequest, 0);
        }
        let req = match SpdmChallengeRequestPayload::spdm_read(&mut reader) {
            Some(p) => p,
            None => {
                return error_frame(version, SpdmErrorCode::SpdmErrorInvalidRequest, 0);
            },
        };
        let slot = req.slot_id;
        let summary_type = req.measurement_summary_hash_type;
        let hash_sel = self.common.negotiate_info.base_hash_sel;
        let asym_sel = self.common.negotiate_info.base_asym_sel;
        let ct = match self.common.cert_chain_hash(true) {
            Some(d) => d,
            None => {
                return error_frame(version, SpdmErrorCode::SpdmErrorUnsupportedRequest, 0);
            },
        };
        let nonce = match rand::get_random(SPDM_RANDOM_SIZE) {
            Ok(n) => n,
            Err(_) => {
                return error_frame(version, SpdmErrorCode::SpdmErrorUnspecified, 0);
            },
        };
        let summary = if summary_type != SPDM_MEASUREMENT_SUMMARY_HASH_NONE {
            if self.common.provision_info.measurement_data.len() as u64 >= 0x1000_0000_0000_0000u64 {
                return error_frame(version, SpdmErrorCode::SpdmErrorUnspecified, 0);
            }
            match hash::hash_all(&self.common.crypto, hash_sel, self.common.provision_info.measurement_data.as_slice()) {
                Some(d) => d.data,
                None => {
                    return error_frame(version, SpdmErrorCode::SpdmErrorUnspecified, 0);
                },
            }
        } else {
            Vec::new()
        };
        let head = SpdmChallengeAuthResponsePayload {
            slot_id: slot & 0x0f,
            slot_mask: 1,
            cert_chain_hash: ct.data,
            nonce,
            measurement_summary_hash: summary,
            opaque: SpdmOpaqueStruct { data: Vec::new() },
            signature: Vec::new(),
        };
        let mut r: Vec<u8> = Vec::new();
        SpdmMessageHeader { version, request_response_code: SPDM_CHALLENGE_AUTH }.encode(&mut r);
        head.spdm_encode(&mut r);
        let mut message_c = ManagedBuffer::new();
        if message_c.append_message(self.common.runtime_info.message_c.as_slice()).is_none()
            || message_c.append_message(&bytes[0..36]).is_none() || message_c.append_message(r.as_slice()).is_none() {
            return error_frame(version, SpdmErrorCode::SpdmErrorInvalidRequest, 0);
        }
        let mut transcript = ManagedBuffer::new();
        if transcript.append_message(self.common.runtime_info.message_a.as_slice()).is_none()
            || transcript.append_message(self.common.runtime_info.message_b.as_slice()).is_none()
            || transcript.append_message(message_c.as_slice()).is_none() {
            return error_frame(version, SpdmErrorCode::SpdmErrorInvalidRequest, 0);
        }
        let signature = match asym_sign::sign(&self.common.crypto, hash_sel, asym_sel, transcript.as_slice()) {
            Some(s) => s,
            None => {
                return error_frame(version, SpdmErrorCode::SpdmErrorUnspecified, 0);
            },
        };
        if message_c.append_message(signature.data.as_slice()).is_none() {
            return error_frame(version, SpdmErrorCode::SpdmErrorInvalidRequest, 0);
        }
        signature.spdm_encode(&mut r);
        assert(message_c@ =~= self.common.runtime_info.message_c@ + bytes@.take(36) + r@);
        self.common.runtime_info.message_c = message_c;
        r
    }

    /// GET_MEASUREMENTS, once algorithms are negotiated: operation 0 gives
    /// the number of blocks, 0xFF the whole provisioned record. When a
    /// signature is asked for, the response carries one over `message_m`
    /// (the request and the response up to the signature), which then
    /// starts afresh; without one, the exchange is appended to `message_m`.
    pub fn handle_spdm_measurement(&mut self, bytes: &[u8]) -> (r: Vec<u8>)
        requires
            old(self).common.wf(),
        ensures
            final(self).common.wf(),
            final(self).common.session_pool == old(self).common.session_pool,
            final(self).common.negotiate_info == old(self).common.negotiate_info,
            r@.len() >= 2,
            r@[1] == SPDM_ERROR || r@[1] == SPDM_MEASUREMENTS,
            r@[1] == SPDM_ERROR ==> final(self).common.runtime_info == old(self).common.runtime_info,
            old(self).common.runtime_info.connection_state != SpdmConnectionState::SpdmConnectionNegotiated ==> r@
                == spec_error_frame(old(self).common.negotiate_info.spdm_version_sel, SpdmErrorCode::SpdmErrorUnexpectedRequest, 0),
    {
        let version = self.common.negotiate_info.spdm_version_sel;
        if self.common.runtime_info.connection_state != SpdmConnectionState::SpdmConnectionNegotiated {
            return error_frame(version, SpdmErrorCode::SpdmErrorUnexpectedRequest, 0);
        }
        if bytes.len() < 4 {
            return error_frame(version, SpdmErrorCode::SpdmErrorInvalidRequest, 0);
        }
        let signed = bytes[2] & 1 == 1;
        let operation = bytes[3];
        let request_len: usize = if signed { 4 + SPDM_RANDOM_SIZE + 1 } else { 4 };
        if bytes.len() < request_len {
            return error_frame(version, SpdmErrorCode::SpdmErrorInvalidRequest, 0);
        }
        let mut reader = Reader::init(self.common.provision_info.measurement_data.as_slice());
        let record = match SpdmMeasurementRecordStructure::spdm_read(&mut reader) {
            Some(rec) => rec,
            None => {
                return error_frame(version, SpdmErrorCode::SpdmErrorUnspecified, 0);
            },
        };
        let mut r: Vec<u8> = Vec::new();
        SpdmMessageHeader { version, request_response_code: SPDM_MEASUREMENTS }.encode(&mut r);
        if operation == SPDM_MEASUREMENT_OPERATION_TOTAL_NUMBER {
            r.push(record.record.len() as u8);
            r.push(0);
            SpdmMeasurementRecordStructure { record: Vec::new() }.spdm_encode(&mut r);
        } else if operation == SPDM_MEASUREMENT_OPERATION_ALL {
            r.push(0);
            r.push(0);
            record.spdm_encode(&mut r);
        } else {
            return error_frame(version, SpdmErrorCode::SpdmErrorUnsupportedRequest, 0);
        }
        let nonce = match rand::get_random(SPDM_RANDOM_SIZE) {
            Ok(n) => n,
            Err(_) => {
                return error_frame(version, SpdmErrorCode::SpdmErrorUnspecified, 0);
            },
        };
        encode_bytes(nonce.as_slice(), &mut r);
        encode_u16(0, &mut r);
        let mut message_m = ManagedBuffer::new();
        if message_m.append_message(self.common.runtime_info.message_m.as_slice()).is_none()
            || message_m.append_message(&bytes[0..request_len]).is_none() || message_m.append_message(r.as_slice()).is_none() {
            return error_frame(version, SpdmErrorCode::SpdmErrorInvalidRequest, 0);
        }
        if signed {
            let signature = match asym_sign::sign(&self.common.crypto, self.common.negotiate_info.base_hash_sel,
                self.common.negotiate_info.base_asym_sel, message_m.as_slice()) {
                Some(s) => s,
                None => {
                    return error_frame(version, SpdmErrorCode::SpdmErrorUnspecified, 0);
                },
            };
            signature.spdm_encode(&mut r);
            self.common.runtime_info.message_m = ManagedBuffer::new();
        } else {
            self.common.runtime_info.message_m = message_m;
        }
        r
    }
}

} // verus!
