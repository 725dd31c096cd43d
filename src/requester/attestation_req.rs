//! Attestation exchanges on the Requester side: digests, certificate chain
//! and challenge.
use vstd::prelude::*;
use crate::codec::{encode_bytes, Reader};
use crate::common::{SpdmConnectionState, SpdmDeviceIo, SpdmTransportEncap};
use crate::config::{MAX_SPDM_MESSAGE_BUFFER_SIZE, SPDM_RANDOM_SIZE};
use crate::crypto::{asym_verify, cert_operation, rand, SpdmCryptoProvider};
use crate::error::{SpdmResult, SpdmStatus};
use crate::msgs::{
    SpdmDigestStruct, SpdmMessageHeader, SpdmSignatureStruct, SPDM_CERTIFICATE, SPDM_CHALLENGE, SPDM_CHALLENGE_AUTH,
    SPDM_DIGESTS, SPDM_GET_CERTIFICATE, SPDM_GET_DIGESTS, SPDM_GET_MEASUREMENTS, SPDM_MEASUREMENTS, SPDM_MEASUREMENT_SUMMARY_HASH_NONE,
};
use crate::requester::RequesterContext;
use crate::responder::attestation_rsp::{MAX_SPDM_CERT_PORTION_LEN, SPDM_MEASUREMENT_OPERATION_ALL};
use crate::spdm_codec::{SpdmMeasurementRecordStructure, SpdmOpaqueStruct};
use crate::responder::session_rsp::bare_frame;
use crate::cmds::attestation::{
    SpdmCertificateResponsePayload, SpdmChallengeAuthResponsePayload, SpdmChallengeRequestPayload,
    SpdmDigestsResponsePayload, SpdmGetCertificateRequestPayload,
};
use crate::transcript::ManagedBuffer;

verus! {

/// Whether two byte strings are equal.
pub fn bytes_equal(a: &[u8], b: &[u8]) -> (r: bool)
    ensures
        r == (a@ == b@),
{
    if a.len() != b.len() {
        return false;
    }
    let mut i: usize = 0;
    while i < a.len()
        invariant
            i <= a@.len(),
            a@.len() == b@.len(),
            forall|j: int| 0 <= j < i ==> a@[j] == b@[j],
        decreases a@.len() - i,
    {
        if a[i] != b[i] {
            return false;
        }
        i = i + 1;
    }
    assert(a@ =~= b@);
    true
}

impl<D: SpdmDeviceIo, T: SpdmTransportEncap, C: SpdmCryptoProvider> RequesterContext<D, T, C> {
    /// Sends `request`, receives the answer, checks that it carries
    /// `expected_code`, and records both in `message_b`.
    fn exchange_b(&mut self, request: &Vec<u8>, expected_code: u8) -> (r: SpdmResult<Vec<u8>>)
        requires
            old(self).common.wf(),
        ensures
            final(self).common.wf(),
            final(self).common.session_pool == old(self).common.session_pool,
            final(self).common.negotiate_info == old(self).common.negotiate_info,
            final(self).common.provision_info == old(self).common.provision_info,
            final(self).common.runtime_info.connection_state == old(self).common.runtime_info.connection_state,
            final(self).common.runtime_info.message_a == old(self).common.runtime_info.message_a,
            r matches Ok(rsp) ==> {
                &&& rsp@.len() >= 2 && rsp@[1] == expected_code
                &&& final(self).common.runtime_info.message_b@ == old(self).common.runtime_info.message_b@ + request@ + rsp@
            },
    {
        self.send_message(request.as_slice())?;
        let rsp = self.receive_message()?;
        if rsp.len() < 2 || rsp[1] != expected_code {
            return Err(SpdmStatus::DecodeFailure);
        }
        let b_len = self.common.runtime_info.message_b.len();
        if b_len > MAX_SPDM_MESSAGE_BUFFER_SIZE || request.len() > MAX_SPDM_MESSAGE_BUFFER_SIZE
            || b_len + request.len() + rsp.len() > MAX_SPDM_MESSAGE_BUFFER_SIZE {
            return Err(SpdmStatus::BufferOverflow);
        }
        let _ = self.common.runtime_info.message_b.append_message(request.as_slice());
        let _ = self.common.runtime_info.message_b.append_message(rsp.as_slice());
        Ok(rsp)
    }

    /// GET_DIGESTS / DIGESTS: the digest of the responder's chain in slot 0.
    pub fn send_receive_spdm_digest(&mut self) -> (r: SpdmResult<SpdmDigestStruct>)
        requires
            old(self).common.wf(),
        ensures
            final(self).common.wf(),
            final(self).common.session_pool == old(self).common.session_pool,
            r matches Ok(d) ==> d@.len() == crate::msgs::hash_size(old(self).common.negotiate_info.base_hash_sel.bits),
    {
        if self.common.runtime_info.connection_state != SpdmConnectionState::SpdmConnectionNegotiated {
            return Err(SpdmStatus::InvalidState);
        }
        let version = self.common.negotiate_info.spdm_version_sel;
        let request = bare_frame(SpdmMessageHeader { version, request_response_code: SPDM_GET_DIGESTS }, 0, 0);
        let rsp = self.exchange_b(&request, SPDM_DIGESTS)?;
        let mut reader = Reader::init(rsp.as_slice());
        if SpdmMessageHeader::read(&mut reader).is_none() {
            return Err(SpdmStatus::DecodeFailure);
        }
        match SpdmDigestsResponsePayload::spdm_read(self.common.get_hash_size(), &mut reader) {
            Some(p) => Ok(SpdmDigestStruct { data: p.digest }),
            None => Err(SpdmStatus::DecodeFailure),
        }
    }

    /// GET_CERTIFICATE / CERTIFICATE, portion by portion until nothing
    /// remains; the chain is validated and kept as the peer's chain.
    pub fn send_receive_spdm_certificate(&mut self, slot_id: u8) -> (r: SpdmResult)
        requires
            old(self).common.wf(),
        ensures
            final(self).common.wf(),
            final(self).common.session_pool == old(self).common.session_pool,
            r is Ok ==> final(self).common.provision_info.peer_cert_chain is Some,
    {
        if self.common.runtime_info.connection_state != SpdmConnectionState::SpdmConnectionNegotiated {
            return Err(SpdmStatus::InvalidState);
        }
        let version = self.common.negotiate_info.spdm_version_sel;
        let mut chain: Vec<u8> = Vec::new();
        loop
            invariant
                self.common.wf(),
                self.common.session_pool == old(self).common.session_pool,
                chain@.len() <= 0xFFFF,
            decreases 0x10000 - chain@.len(),
        {
            let mut request: Vec<u8> = Vec::new();
            SpdmMessageHeader { version, request_response_code: SPDM_GET_CERTIFICATE }.encode(&mut request);
            SpdmGetCertificateRequestPayload {
                slot_id,
                offset: chain.len() as u16,
                length: MAX_SPDM_CERT_PORTION_LEN as u16,
            }.spdm_encode(&mut request);
            let rsp = self.exchange_b(&request, SPDM_CERTIFICATE)?;
            let mut reader = Reader::init(rsp.as_slice());
            if SpdmMessageHeader::read(&mut reader).is_none() {
                return Err(SpdmStatus::DecodeFailure);
            }
            let part = match SpdmCertificateResponsePayload::spdm_read(&mut reader) {
                Some(p) => p,
                None => {
                    return Err(SpdmStatus::DecodeFailure);
                },
            };
            if part.portion.len() == 0 || chain.len() + part.portion.len() > 0xFFFF {
                return Err(SpdmStatus::DecodeFailure);
            }
            encode_bytes(part.portion.as_slice(), &mut chain);
            if part.remainder_length == 0 {
                break;
            }
        }
        cert_operation::verify_cert_chain(&self.common.crypto, chain.as_slice())?;
        self.common.provision_info.peer_cert_chain = Some(chain);
        Ok(())
    }

    /// CHALLENGE / CHALLENGE_AUTH: checks that the chain hash matches the
    /// peer's chain and that the signature over `message_a || message_b ||
    /// message_c` verifies with the leaf certificate.
    pub fn send_receive_spdm_challenge(&mut self, slot_id: u8, measurement_summary_hash_type: u8) -> (r: SpdmResult)
        requires
            old(self).common.wf(),
        ensures
            final(self).common.wf(),
            final(self).common.session_pool == old(self).common.session_pool,
    {
        if self.common.runtime_info.connection_state != SpdmConnectionState::SpdmConnectionNegotiated {
            return Err(SpdmStatus::InvalidState);
        }
        let version = self.common.negotiate_info.spdm_version_sel;
        let hash_size = self.common.get_hash_size();
        let asym_size = self.common.get_asym_key_size();
        let nonce = rand::get_random(SPDM_RANDOM_SIZE)?;
        let mut request: Vec<u8> = Vec::new();
        SpdmMessageHeader { version, request_response_code: SPDM_CHALLENGE }.encode(&mut request);
        SpdmChallengeRequestPayload { slot_id, measurement_summary_hash_type, nonce }.spdm_encode(&mut request);
        self.send_message(request.as_slice())?;
        let rsp = self.receive_message()?;
        if rsp.len() < 2 || rsp[1] != SPDM_CHALLENGE_AUTH {
            return Err(SpdmStatus::DecodeFailure);
        }
        let mut reader = Reader::init(rsp.as_slice());
        if SpdmMessageHeader::read(&mut reader).is_none() {
            return Err(SpdmStatus::DecodeFailure);
        }
        let summary_size = if measurement_summary_hash_type == SPDM_MEASUREMENT_SUMMARY_HASH_NONE { 0 } else { hash_size };
        let auth = match SpdmChallengeAuthResponsePayload::spdm_read(hash_size, summary_size, asym_size, &mut reader) {
            Some(p) => p,
            None => {
                return Err(SpdmStatus::DecodeFailure);
            },
        };
        let used = reader.used();
        if used < asym_size as usize {
            return Err(SpdmStatus::DecodeFailure);
        }
        let head_len = used - asym_size as usize;
        let ct = SpdmDigestStruct { data: auth.cert_chain_hash };
        let signature = SpdmSignatureStruct { data: auth.signature };
        let expected = match self.common.cert_chain_hash(false) {
            Some(h) => h,
            None => {
                return Err(SpdmStatus::InvalidState);
            },
        };
        if !bytes_equal(expected.data.as_slice(), ct.data.as_slice()) {
            return Err(SpdmStatus::CryptoFailure);
        }
        let mut message_c = ManagedBuffer::new();
        if message_c.append_message(request.as_slice()).is_none()
            || message_c.append_message(&rsp.as_slice()[0..head_len]).is_none() {
            return Err(SpdmStatus::BufferOverflow);
        }
        let mut transcript = ManagedBuffer::new();
        if transcript.append_message(self.common.runtime_info.message_a.as_slice()).is_none()
            || transcript.append_message(self.common.runtime_info.message_b.as_slice()).is_none()
            || transcript.append_message(message_c.as_slice()).is_none() {
            return Err(SpdmStatus::BufferOverflow);
        }
        let hash_sel = self.common.negotiate_info.base_hash_sel;
        let asym_sel = self.common.negotiate_info.base_asym_sel;
        let verified = match &self.common.provision_info.peer_cert_chain {
            Some(chain) => match cert_operation::get_cert_from_cert_chain(&self.common.crypto, chain.as_slice(), -1) {
                Ok((offset, length)) => if offset > chain.len() || length > chain.len() - offset {
                    Err(SpdmStatus::InvalidState)
                } else {
                    asym_verify::verify(&self.common.crypto, hash_sel, asym_sel,
                        &chain.as_slice()[offset..offset + length], transcript.as_slice(), &signature)
                },
                Err(e) => Err(e),
            },
            None => Err(SpdmStatus::InvalidState),
        };
        if verified.is_err() {
            return Err(SpdmStatus::CryptoFailure);
        }
        if message_c.append_message(signature.data.as_slice()).is_none() {
            return Err(SpdmStatus::BufferOverflow);
        }
        self.common.runtime_info.message_c = message_c;
        Ok(())
    }
}

} // verus!
verus! {

impl<D: SpdmDeviceIo, T: SpdmTransportEncap, C: SpdmCryptoProvider> RequesterContext<D, T, C> {
    /// GET_MEASUREMENTS for all blocks. With `signed`, the response's
    /// signature over the request and the response up to the signature is
    /// checked with the leaf of the peer chain. Returns the record, whose
    /// blocks all carry consistent size fields.
    pub fn send_receive_spdm_measurement(&mut self, signed: bool, slot_id: u8) -> (r: SpdmResult<SpdmMeasurementRecordStructure>)
        requires
            old(self).common.wf(),
        ensures
            final(self).common.wf(),
            final(self).common.session_pool == old(self).common.session_pool,
            r matches Ok(rec) ==> rec.record@.len() <= crate::config::MAX_SPDM_MEASUREMENT_BLOCK_COUNT && forall|k: int|
                0 <= k < rec.record@.len() ==> crate::spdm_codec::block_consistent(#[trigger] rec@[k]),
    {
        if self.common.runtime_info.connection_state != SpdmConnectionState::SpdmConnectionNegotiated {
            return Err(SpdmStatus::InvalidState);
        }
        let version = self.common.negotiate_info.spdm_version_sel;
        let asym_size = self.common.get_asym_key_size();
        let attributes: u8 = if signed { 1 } else { 0 };
        let mut request = bare_frame(SpdmMessageHeader { version, request_response_code: SPDM_GET_MEASUREMENTS },
            attributes, SPDM_MEASUREMENT_OPERATION_ALL);
        if signed {
            let nonce = rand::get_random(SPDM_RANDOM_SIZE)?;
            encode_bytes(nonce.as_slice(), &mut request);
            request.push(slot_id);
        }
        self.send_message(request.as_slice())?;
        let rsp = self.receive_message()?;
        if rsp.len() < 2 || rsp[1] != SPDM_MEASUREMENTS {
            return Err(SpdmStatus::DecodeFailure);
        }
        let mut reader = Reader::init(rsp.as_slice());
        if reader.read_bytes(4).is_none() {
            return Err(SpdmStatus::DecodeFailure);
        }
        let record = match SpdmMeasurementRecordStructure::spdm_read(&mut reader) {
            Some(rec) => rec,
            None => {
                return Err(SpdmStatus::DecodeFailure);
            },
        };
        if reader.read_bytes(SPDM_RANDOM_SIZE).is_none() || SpdmOpaqueStruct::spdm_read(&mut reader).is_none() {
            return Err(SpdmStatus::DecodeFailure);
        }
        if !signed {
            return Ok(record);
        }
        let head_len = reader.used();
        let signature = match SpdmSignatureStruct::spdm_read(asym_size, &mut reader) {
            Some(s) => s,
            None => {
                return Err(SpdmStatus::DecodeFailure);
            },
        };
        let mut message_m = ManagedBuffer::new();
        if message_m.append_message(request.as_slice()).is_none()
            || message_m.append_message(&rsp.as_slice()[0..head_len]).is_none() {
            return Err(SpdmStatus::BufferOverflow);
        }
        let hash_sel = self.common.negotiate_info.base_hash_sel;
        let asym_sel = self.common.negotiate_info.base_asym_sel;
        let verified = match &self.common.provision_info.peer_cert_chain {
            Some(chain) => match cert_operation::get_cert_from_cert_chain(&self.common.crypto, chain.as_slice(), -1) {
                Ok((offset, length)) => if offset > chain.len() || length > chain.len() - offset {
                    Err(SpdmStatus::InvalidState)
                } else {
                    asym_verify::verify(&self.common.crypto, hash_sel, asym_sel,
                        &chain.as_slice()[offset..offset + length], message_m.as_slice(), &signature)
                },
                Err(e) => Err(e),
            },
            None => Err(SpdmStatus::InvalidState),
        };
        if verified.is_err() {
            return Err(SpdmStatus::CryptoFailure);
        }
        Ok(record)
    }
}

} // verus!
