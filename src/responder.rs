//! The Responder: one entry point that receives a frame and dispatches it
//! to exactly one handler; each handler answers with exactly one frame.

pub mod attestation_rsp;
pub mod key_exchange_rsp;
pub mod psk_exchange_rsp;
pub mod session_rsp;

use vstd::prelude::*;
use crate::cmds::algorithm::SpdmAlgorithmsPayload;
use crate::cmds::capability::{spec_capabilities, SpdmCapabilitiesPayload};
use crate::cmds::error::{error_code_to_u8, SpdmErrorCode};
use crate::cmds::version::{spec_version_payload, SpdmGetVersionRequestPayload, SpdmVersionResponsePayload, SpdmVersionStruct, VersionPayloadModel};
use crate::codec::{encode_bytes, Reader};
use crate::common::{
    SpdmConfigInfo, SpdmConnectionState, SpdmContext, SpdmDeviceIo, SpdmProvisionInfo,
    SpdmTransportEncap,
};
use crate::config::{MAX_SPDM_TRANSPORT_SIZE, MAX_SPDM_VERSION_COUNT};
use crate::crypto::{SpdmCryptoProvider, SpdmCryptoRegistry};
use crate::error::{SpdmResult, SpdmStatus};
use crate::msgs::{
    spec_header, SpdmAeadAlgo, SpdmBaseAsymAlgo, SpdmBaseHashAlgo, SpdmDheAlgo, SpdmKeyScheduleAlgo,
    SpdmMessageHeader, SpdmVersion, SPDM_ALGORITHMS, SPDM_CAPABILITIES, SPDM_END_SESSION, SPDM_END_SESSION_ACK, SPDM_ERROR, SPDM_FINISH,
    SPDM_FINISH_RSP, SPDM_HEARTBEAT, SPDM_HEARTBEAT_ACK, SPDM_KEY_UPDATE, SPDM_KEY_UPDATE_ACK, SPDM_PSK_FINISH, SPDM_PSK_FINISH_RSP,
    SPDM_VERSION,
};
use crate::requester::accept_received;
use crate::session::{advanced, is_active, secrets_zeroed, SpdmSession, SpdmSessionState};

verus! {

pub struct ResponderContext<D, T, C> {
    pub common: SpdmContext<D, T, C>,
}

/// An ERROR frame.
pub open spec fn spec_error_frame(version: SpdmVersion, code: SpdmErrorCode, data: u8) -> Seq<u8> {
    spec_header(SpdmMessageHeader { version, request_response_code: SPDM_ERROR }) + seq![error_code_to_u8(code), data]
}

/// An ERROR frame is four bytes: header, code, data.
pub proof fn lemma_error_frame_bytes(version: SpdmVersion, code: SpdmErrorCode, data: u8)
    ensures
        spec_error_frame(version, code, data).len() == 4,
        spec_error_frame(version, code, data)[1] == SPDM_ERROR,
        spec_error_frame(version, code, data)[2] == error_code_to_u8(code),
        spec_error_frame(version, code, data)[3] == data,
{
}

/// Builds an ERROR frame with no extended data.
pub fn error_frame(version: SpdmVersion, code: SpdmErrorCode, data: u8) -> (r: Vec<u8>)
    ensures
        r@ == spec_error_frame(version, code, data),
{
    let mut r: Vec<u8> = Vec::new();
    SpdmMessageHeader { version, request_response_code: SPDM_ERROR }.encode(&mut r);
    r.push(code.get_u8());
    r.push(data);
    assert(r@ =~= spec_error_frame(version, code, data));
    r
}

/// The preferred algorithm of a mask: the highest bit set at or below bit
/// `k`, or zero.
pub open spec fn pick_from_u32(mask: u32, k: nat) -> u32
    decreases k,
{
    if mask & (1u32 << k as u32) != 0 {
        (1u32 << k as u32) as u32
    } else if k == 0 {
        0
    } else {
        pick_from_u32(mask, (k - 1) as nat)
    }
}

/// The highest bit set in `mask`, or zero.
pub fn select_u32(mask: u32) -> (r: u32)
    ensures
        r == pick_from_u32(mask, 31),
{
    let mut k: u32 = 31;
    loop
        invariant
            k <= 31,
            pick_from_u32(mask, 31) == pick_from_u32(mask, k as nat),
        decreases k,
    {
        if mask & (1u32 << k) != 0 {
            return 1u32 << k;
        }
        if k == 0 {
            return 0;
        }
        k = k - 1;
    }
}

/// The VERSION entries this endpoint offers: its configured versions, at
/// most `MAX_SPDM_VERSION_COUNT` of them, each with update 0.
pub open spec fn offered_versions(cfg: Seq<SpdmVersion>) -> Seq<SpdmVersionStruct> {
    let n = if cfg.len() < MAX_SPDM_VERSION_COUNT { cfg.len() as int } else { MAX_SPDM_VERSION_COUNT as int };
    Seq::new(n as nat, |k: int| SpdmVersionStruct { update: 0, version: cfg[k] })
}

/// The version put in the VERSION header: the last one offered (1.0 when
/// none is configured).
pub open spec fn highest_offered(cfg: Seq<SpdmVersion>) -> SpdmVersion {
    let n = offered_versions(cfg).len();
    if n == 0 { SpdmVersion::SpdmVersion10 } else { cfg[n - 1] }
}

impl<D: SpdmDeviceIo, T: SpdmTransportEncap, C: SpdmCryptoProvider> ResponderContext<D, T, C> {
    pub fn new(
        device_io: D,
        transport_encap: T,
        crypto: SpdmCryptoRegistry<C>,
        config_info: SpdmConfigInfo,
        provision_info: SpdmProvisionInfo,
    ) -> (r: ResponderContext<D, T, C>)
        ensures
            r.common.wf(),
            r.common.runtime_info.connection_state == SpdmConnectionState::SpdmConnectionNotStarted,
            forall|i: int| 0 <= i < r.common.session_pool.sessions@.len() ==> !is_active(#[trigger] r.common.session_pool.sessions@[i]),
    {
        ResponderContext { common: SpdmContext::new(device_io, transport_encap, crypto, config_info, provision_info) }
    }

    /// Frames `send_buffer` as a plain message and sends it.
    pub fn send_message(&mut self, send_buffer: &[u8]) -> (r: SpdmResult)
        ensures
            final(self).common.session_pool == old(self).common.session_pool,
            final(self).common.runtime_info == old(self).common.runtime_info,
            final(self).common.negotiate_info == old(self).common.negotiate_info,
    {
        let frame = self.common.transport_encap.encap(send_buffer, false)?;
        if frame.len() > MAX_SPDM_TRANSPORT_SIZE {
            return Err(SpdmStatus::BufferOverflow);
        }
        self.common.device_io.send(frame.as_slice())
    }

    /// Seals `send_buffer` in `session` and sends it as a secured frame.
    pub fn send_in_session(&mut self, session: &mut SpdmSession, send_buffer: &[u8]) -> (r: SpdmResult)
        requires
            old(session).transport_param.sequence_number_count <= 8,
        ensures
            final(self).common.session_pool == old(self).common.session_pool,
            final(self).common.runtime_info == old(self).common.runtime_info,
            final(self).common.negotiate_info == old(self).common.negotiate_info,
            final(session).session_id == old(session).session_id || !is_active(*final(session)),
            final(session).state == old(session).state || !is_active(*final(session)),
            final(session).transport_param == old(session).transport_param,
            final(session).crypto_param == old(session).crypto_param,
            final(session).use_psk == old(session).use_psk || !is_active(*final(session)),
            final(session).runtime_info == old(session).runtime_info || !is_active(*final(session)),
            r is Ok ==> *final(session) == advanced(*old(session), false),
            old(session).response_direction.sequence_number == u64::MAX ==> r is Err && !is_active(*final(session)),
            is_active(*old(session)) && !is_active(*final(session)) ==> old(session).response_direction.sequence_number == u64::MAX,
    {
        if session.response_direction.sequence_number == u64::MAX {
            // A counter that would wrap ends the session.
            let id = session.session_id;
            let _ = session.teardown(id);
            return Err(SpdmStatus::InvalidState);
        }
        let app = self.common.transport_encap.encap_app(send_buffer)?;
        let sealed = session.encode_spdm_secured_message(&self.common.crypto, app.as_slice(), false)?;
        let frame = self.common.transport_encap.encap(sealed.as_slice(), true)?;
        if frame.len() > MAX_SPDM_TRANSPORT_SIZE {
            return Err(SpdmStatus::BufferOverflow);
        }
        self.common.device_io.send(frame.as_slice())
    }

    /// Seals `send_buffer` in session `session_id` and sends it as a
    /// secured frame; an unknown session is refused.
    pub fn send_secured_message(&mut self, session_id: u32, send_buffer: &[u8]) -> (r: SpdmResult)
        requires
            old(self).common.wf(),
        ensures
            final(self).common.wf(),
            final(self).common.runtime_info == old(self).common.runtime_info,
            final(self).common.negotiate_info == old(self).common.negotiate_info,
            (forall|i: int| 0 <= i < old(self).common.session_pool.sessions@.len() ==> !(is_active(
                #[trigger] old(self).common.session_pool.sessions@[i]) && old(self).common.session_pool.sessions@[i].session_id
                == session_id)) ==> r == Err::<(), SpdmStatus>(SpdmStatus::InvalidParameter)
                && final(self).common.session_pool == old(self).common.session_pool,
            (exists|i: int| 0 <= i < old(self).common.session_pool.sessions@.len() && is_active(
                #[trigger] old(self).common.session_pool.sessions@[i]) && old(self).common.session_pool.sessions@[i].session_id
                == session_id && old(self).common.session_pool.sessions@[i].transport_param.sequence_number_count > 8)
                ==> r == Err::<(), SpdmStatus>(SpdmStatus::InvalidState) && final(self).common.session_pool
                == old(self).common.session_pool,
            r is Ok ==> exists|i: int| 0 <= i < old(self).common.session_pool.sessions@.len() && is_active(
                #[trigger] old(self).common.session_pool.sessions@[i]) && old(self).common.session_pool.sessions@[i].session_id
                == session_id && final(self).common.session_pool.sessions@ == old(self).common.session_pool.sessions@.update(i,
                advanced(old(self).common.session_pool.sessions@[i], false)),
            (exists|i: int| 0 <= i < old(self).common.session_pool.sessions@.len() && is_active(
                #[trigger] old(self).common.session_pool.sessions@[i]) && old(self).common.session_pool.sessions@[i].session_id
                == session_id && old(self).common.session_pool.sessions@[i].transport_param.sequence_number_count <= 8
                && old(self).common.session_pool.sessions@[i].response_direction.sequence_number == u64::MAX) ==> r is Err
                && forall|i: int| 0 <= i < old(self).common.session_pool.sessions@.len() && is_active(
                #[trigger] old(self).common.session_pool.sessions@[i]) && old(self).common.session_pool.sessions@[i].session_id
                == session_id ==> !is_active(final(self).common.session_pool.sessions@[i]),
    {
        let index = match self.common.session_pool.get_session_via_id(session_id) {
            Some(i) => i,
            None => {
                return Err(SpdmStatus::InvalidParameter);
            },
        };
        proof {
            crate::session::lemma_lookup_finds_setup_slot(self.common.session_pool, index as int, session_id);
        }
        if self.common.session_pool.sessions[index].transport_param.sequence_number_count > 8 {
            return Err(SpdmStatus::InvalidState);
        }
        let ghost before = self.common.session_pool;
        let mut session = self.common.session_pool.take(index);
        let r = self.send_in_session(&mut session, send_buffer);
        proof {
            if is_active(session) {
                assert forall|j: int| 0 <= j < before.sessions@.len() && j != index implies !(is_active(
                    #[trigger] self.common.session_pool.sessions@[j]) && self.common.session_pool.sessions@[j].session_id == session.session_id) by {
                    assert(self.common.session_pool.sessions@[j] == before.sessions@[j]);
                }
            }
        }
        self.common.session_pool.put_back(index, session);
        assert(r is Ok ==> self.common.session_pool.sessions@ =~= before.sessions@.update(index as int,
            advanced(before.sessions@[index as int], false)));
        r
    }

    /// Receives one frame: its SPDM bytes and whether it is secured.
    fn receive_message(&mut self) -> (r: SpdmResult<(Vec<u8>, bool)>)
        ensures
            final(self).common.session_pool == old(self).common.session_pool,
            final(self).common.runtime_info == old(self).common.runtime_info,
            final(self).common.negotiate_info == old(self).common.negotiate_info,
            r matches Ok((b, _)) ==> b@.len() <= MAX_SPDM_TRANSPORT_SIZE,
    {
        let frame = accept_received(self.common.device_io.receive())?;
        let (spdm, secured) = self.common.transport_encap.decap(frame.as_slice())?;
        if spdm.len() > MAX_SPDM_TRANSPORT_SIZE {
            return Err(SpdmStatus::BufferOverflow);
        }
        Ok((spdm, secured))
    }

    /// GET_VERSION: answers with the configured versions (at most two), the
    /// highest of them in the header, and restarts the connection: the
    /// transcripts are emptied and `message_a` then holds the request and
    /// the response.
    pub fn handle_spdm_version(&mut self, bytes: &[u8]) -> (r: Vec<u8>)
        requires
            old(self).common.wf(),
        ensures
            final(self).common.wf(),
            final(self).common.session_pool == old(self).common.session_pool,
            bytes@.len() < 4 ==> r@ == spec_error_frame(old(self).common.negotiate_info.spdm_version_sel,
                SpdmErrorCode::SpdmErrorInvalidRequest, 0),
            bytes@.len() < 4 ==> final(self).common.runtime_info == old(self).common.runtime_info,
            bytes@.len() >= 4 ==> {
                &&& r@ == spec_header(SpdmMessageHeader {
                    version: final(self).common.negotiate_info.spdm_version_sel,
                    request_response_code: SPDM_VERSION,
                }) + spec_version_payload(VersionPayloadModel {
                    count: offered_versions(old(self).common.config_info.spdm_version@).len() as u8,
                    versions: offered_versions(old(self).common.config_info.spdm_version@),
                })
                &&& final(self).common.negotiate_info.spdm_version_sel == highest_offered(
                    old(self).common.config_info.spdm_version@)
                &&& final(self).common.runtime_info.connection_state == SpdmConnectionState::SpdmConnectionAfterVersion
                &&& final(self).common.runtime_info.message_a@ == bytes@.take(4) + r@
                &&& final(self).common.runtime_info.message_b@.len() == 0
                &&& final(self).common.runtime_info.message_c@.len() == 0
            },
    {
        let mut reader = Reader::init(bytes);
        if SpdmMessageHeader::read(&mut reader).is_none() || SpdmGetVersionRequestPayload::spdm_read(&mut reader).is_none() {
            return error_frame(self.common.negotiate_info.spdm_version_sel, SpdmErrorCode::SpdmErrorInvalidRequest, 0);
        }
        let n: usize = if self.common.config_info.spdm_version.len() < MAX_SPDM_VERSION_COUNT {
            self.common.config_info.spdm_version.len()
        } else {
            MAX_SPDM_VERSION_COUNT
        };
        let ghost cfg = self.common.config_info.spdm_version@;
        let mut versions: Vec<SpdmVersionStruct> = Vec::new();
        let mut highest = SpdmVersion::SpdmVersion10;
        let mut i: usize = 0;
        while i < n
            invariant
                cfg == self.common.config_info.spdm_version@,
                n == offered_versions(cfg).len(),
                n <= MAX_SPDM_VERSION_COUNT,
                i <= n,
                versions@ == offered_versions(cfg).take(i as int),
                highest == (if i == 0 { SpdmVersion::SpdmVersion10 } else { cfg[i - 1] }),
            decreases n - i,
        {
            let v = self.common.config_info.spdm_version[i];
            versions.push(SpdmVersionStruct { update: 0, version: v });
            highest = v;
            i = i + 1;
            assert(versions@ =~= offered_versions(cfg).take(i as int));
        }
        assert(versions@ =~= offered_versions(cfg));
        let payload = SpdmVersionResponsePayload { version_number_entry_count: n as u8, versions };
        let mut r: Vec<u8> = Vec::new();
        SpdmMessageHeader { version: highest, request_response_code: SPDM_VERSION }.encode(&mut r);
        let ghost head = r@;
        payload.spdm_encode(&mut r);
        assert(r@.take(2) =~= head);
        assert(payload.versions@.take(n as int) =~= payload.versions@);
        assert(r@ =~= head + spec_version_payload(payload@));
        proof {
            crate::cmds::version::lemma_version_entries(payload.versions@.take(n as int));
        }
        assert(r@.len() <= 10);
        self.common.negotiate_info.spdm_version_sel = highest;
        self.common.runtime_info.message_a.reset_message();
        self.common.runtime_info.message_b.reset_message();
        self.common.runtime_info.message_c.reset_message();
        let request = &bytes[0..4];
        let _ = self.common.runtime_info.message_a.append_message(request);
        let _ = self.common.runtime_info.message_a.append_message(r.as_slice());
        self.common.runtime_info.connection_state = SpdmConnectionState::SpdmConnectionAfterVersion;
        r
    }
}

} // verus!
verus! {

impl<D: SpdmDeviceIo, T: SpdmTransportEncap, C: SpdmCryptoProvider> ResponderContext<D, T, C> {
    /// GET_CAPABILITIES, after VERSION: answers with this endpoint's flags
    /// and records the flags both sides share in both selections.
    pub fn handle_spdm_capability(&mut self, bytes: &[u8]) -> (r: Vec<u8>)
        requires
            old(self).common.wf(),
        ensures
            final(self).common.wf(),
            final(self).common.session_pool == old(self).common.session_pool,
            old(self).common.runtime_info.connection_state != SpdmConnectionState::SpdmConnectionAfterVersion ==> {
                &&& r@ == spec_error_frame(old(self).common.negotiate_info.spdm_version_sel,
                    SpdmErrorCode::SpdmErrorUnexpectedRequest, 0)
                &&& final(self).common.runtime_info == old(self).common.runtime_info
                &&& final(self).common.negotiate_info == old(self).common.negotiate_info
            },
            old(self).common.runtime_info.connection_state == SpdmConnectionState::SpdmConnectionAfterVersion ==> match
                crate::cmds::capability::parse_capabilities(bytes@.skip(2)) {
                Some((req, _)) => bytes@.len() >= 2 && old(self).common.runtime_info.message_a@.len() + 26
                    <= crate::config::MAX_SPDM_MESSAGE_BUFFER_SIZE ==> {
                    &&& r@ == spec_header(SpdmMessageHeader {
                        version: old(self).common.negotiate_info.spdm_version_sel,
                        request_response_code: SPDM_CAPABILITIES,
                    }) + spec_capabilities(SpdmCapabilitiesPayload {
                        ct_exponent: old(self).common.config_info.rsp_ct_exponent,
                        flags: old(self).common.config_info.rsp_capabilities,
                    })
                    &&& final(self).common.negotiate_info.req_capabilities_sel == req.flags & old(self).common.config_info.rsp_capabilities
                    &&& final(self).common.negotiate_info.rsp_capabilities_sel == req.flags & old(self).common.config_info.rsp_capabilities
                    &&& final(self).common.negotiate_info.req_ct_exponent_sel == req.ct_exponent
                    &&& final(self).common.runtime_info.connection_state == SpdmConnectionState::SpdmConnectionAfterCapabilities
                    &&& final(self).common.runtime_info.message_a@ == old(self).common.runtime_info.message_a@
                        + bytes@.take(12) + r@
                },
                None => r@ == spec_error_frame(old(self).common.negotiate_info.spdm_version_sel,
                    SpdmErrorCode::SpdmErrorInvalidRequest, 0),
            },
    {
        let version = self.common.negotiate_info.spdm_version_sel;
        if self.common.runtime_info.connection_state != SpdmConnectionState::SpdmConnectionAfterVersion {
            return error_frame(version, SpdmErrorCode::SpdmErrorUnexpectedRequest, 0);
        }
        let mut reader = Reader::init(bytes);
        if SpdmMessageHeader::read(&mut reader).is_none() {
            return error_frame(version, SpdmErrorCode::SpdmErrorInvalidRequest, 0);
        }
        assert(reader.rest() =~= bytes@.skip(2));
        let req = match SpdmCapabilitiesPayload::spdm_read(&mut reader) {
            Some(p) => p,
            None => {
                return error_frame(version, SpdmErrorCode::SpdmErrorInvalidRequest, 0);
            },
        };
        let rsp = SpdmCapabilitiesPayload {
            ct_exponent: self.common.config_info.rsp_ct_exponent,
            flags: self.common.config_info.rsp_capabilities,
        };
        let mut r: Vec<u8> = Vec::new();
        SpdmMessageHeader { version, request_response_code: SPDM_CAPABILITIES }.encode(&mut r);
        rsp.spdm_encode(&mut r);
        let request = &bytes[0..12];
        if self.common.runtime_info.message_a.len() + 12 + r.len() > crate::config::MAX_SPDM_MESSAGE_BUFFER_SIZE {
            return error_frame(version, SpdmErrorCode::SpdmErrorInvalidRequest, 0);
        }
        let _ = self.common.runtime_info.message_a.append_message(request);
        let _ = self.common.runtime_info.message_a.append_message(r.as_slice());
        let common_flags = req.flags & self.common.config_info.rsp_capabilities;
        self.common.negotiate_info.req_ct_exponent_sel = req.ct_exponent;
        self.common.negotiate_info.rsp_ct_exponent_sel = rsp.ct_exponent;
        self.common.negotiate_info.req_capabilities_sel = common_flags;
        self.common.negotiate_info.rsp_capabilities_sel = common_flags;
        self.common.runtime_info.connection_state = SpdmConnectionState::SpdmConnectionAfterCapabilities;
        r
    }
}

} // verus!
verus! {

impl<D: SpdmDeviceIo, T: SpdmTransportEncap, C: SpdmCryptoProvider> ResponderContext<D, T, C> {
    /// NEGOTIATE_ALGORITHMS, after CAPABILITIES: in each family selects the
    /// highest bit that both the request and this endpoint's configuration
    /// hold, answers with the selections and records them.
    pub fn handle_spdm_algorithm(&mut self, bytes: &[u8]) -> (r: Vec<u8>)
        requires
            old(self).common.wf(),
        ensures
            final(self).common.wf(),
            final(self).common.session_pool == old(self).common.session_pool,
            old(self).common.runtime_info.connection_state != SpdmConnectionState::SpdmConnectionAfterCapabilities ==> {
                &&& r@ == spec_error_frame(old(self).common.negotiate_info.spdm_version_sel,
                    SpdmErrorCode::SpdmErrorUnexpectedRequest, 0)
                &&& final(self).common.runtime_info == old(self).common.runtime_info
                &&& final(self).common.negotiate_info == old(self).common.negotiate_info
            },
            old(self).common.runtime_info.connection_state == SpdmConnectionState::SpdmConnectionAfterCapabilities ==> match
                crate::cmds::algorithm::parse_negotiate_algorithms(bytes@.skip(2)) {
                Some((req, _)) => bytes@.len() >= 2 && old(self).common.runtime_info.message_a@.len() + 100
                    <= crate::config::MAX_SPDM_MESSAGE_BUFFER_SIZE ==> {
                    &&& r@.take(2) == spec_header(SpdmMessageHeader {
                        version: old(self).common.negotiate_info.spdm_version_sel,
                        request_response_code: SPDM_ALGORITHMS,
                    })
                    &&& final(self).common.negotiate_info.base_hash_sel.bits == pick_from_u32(
                        req.base_hash_algo & old(self).common.config_info.base_hash_algo.bits, 31)
                    &&& final(self).common.negotiate_info.base_asym_sel.bits == pick_from_u32(
                        req.base_asym_algo & old(self).common.config_info.base_asym_algo.bits, 31)
                    &&& final(self).common.negotiate_info.dhe_sel.bits == pick_from_u32(
                        (req.dhe & old(self).common.config_info.dhe_algo.bits) as u32, 31)
                    &&& final(self).common.negotiate_info.aead_sel.bits == pick_from_u32(
                        (req.aead & old(self).common.config_info.aead_algo.bits) as u32, 31)
                    &&& final(self).common.negotiate_info.key_schedule_sel.bits == pick_from_u32(
                        (req.key_schedule & old(self).common.config_info.key_schedule_algo.bits) as u32, 31)
                    &&& final(self).common.runtime_info.connection_state == SpdmConnectionState::SpdmConnectionNegotiated
                    &&& final(self).common.runtime_info.message_a@ == old(self).common.runtime_info.message_a@
                        + bytes@.take(48) + r@
                },
                None => r@ == spec_error_frame(old(self).common.negotiate_info.spdm_version_sel,
                    SpdmErrorCode::SpdmErrorInvalidRequest, 0),
            },
    {
        let version = self.common.negotiate_info.spdm_version_sel;
        if self.common.runtime_info.connection_state != SpdmConnectionState::SpdmConnectionAfterCapabilities {
            return error_frame(version, SpdmErrorCode::SpdmErrorUnexpectedRequest, 0);
        }
        let mut reader = Reader::init(bytes);
        if SpdmMessageHeader::read(&mut reader).is_none() {
            return error_frame(version, SpdmErrorCode::SpdmErrorInvalidRequest, 0);
        }
        assert(reader.rest() =~= bytes@.skip(2));
        let req = match SpdmAlgorithmsPayload::read_negotiate_algorithms(&mut reader) {
            Some(p) => p,
            None => {
                return error_frame(version, SpdmErrorCode::SpdmErrorInvalidRequest, 0);
            },
        };
        let cfg = &self.common.config_info;
        let hash = select_u32(req.base_hash_algo & cfg.base_hash_algo.bits);
        let asym = select_u32(req.base_asym_algo & cfg.base_asym_algo.bits);
        let dhe = select_u32((req.dhe & cfg.dhe_algo.bits) as u32);
        let aead = select_u32((req.aead & cfg.aead_algo.bits) as u32);
        let req_asym = select_u32((req.req_asym & cfg.req_asym_algo) as u32);
        let key_schedule = select_u32((req.key_schedule & cfg.key_schedule_algo.bits) as u32);
        let measurement_hash = select_u32(cfg.measurement_hash_algo);
        let measurement_specification = (select_u32((req.measurement_specification & cfg.measurement_specification) as u32)
            & 0xff) as u8;
        assert(dhe <= 0xffff && aead <= 0xffff && req_asym <= 0xffff && key_schedule <= 0xffff) by {
            lemma_pick_bound((req.dhe & cfg.dhe_algo.bits) as u32, 31);
            lemma_pick_bound((req.aead & cfg.aead_algo.bits) as u32, 31);
            lemma_pick_bound((req.req_asym & cfg.req_asym_algo) as u32, 31);
            lemma_pick_bound((req.key_schedule & cfg.key_schedule_algo.bits) as u32, 31);
        }
        let rsp = SpdmAlgorithmsPayload {
            measurement_specification,
            measurement_hash_algo: measurement_hash,
            base_asym_algo: asym,
            base_hash_algo: hash,
            dhe: dhe as u16,
            aead: aead as u16,
            req_asym: req_asym as u16,
            key_schedule: key_schedule as u16,
        };
        let mut r: Vec<u8> = Vec::new();
        SpdmMessageHeader { version, request_response_code: SPDM_ALGORITHMS }.encode(&mut r);
        let ghost head = r@;
        rsp.encode_algorithms(&mut r);
        assert(r@.take(2) =~= head);
        assert(r@.len() == 52);
        let request = &bytes[0..48];
        if self.common.runtime_info.message_a.len() + 100 > crate::config::MAX_SPDM_MESSAGE_BUFFER_SIZE {
            return error_frame(version, SpdmErrorCode::SpdmErrorInvalidRequest, 0);
        }
        let _ = self.common.runtime_info.message_a.append_message(request);
        let _ = self.common.runtime_info.message_a.append_message(r.as_slice());
        self.common.negotiate_info.measurement_specification_sel = measurement_specification;
        self.common.negotiate_info.measurement_hash_sel = measurement_hash;
        self.common.negotiate_info.base_hash_sel = SpdmBaseHashAlgo { bits: hash };
        self.common.negotiate_info.base_asym_sel = SpdmBaseAsymAlgo { bits: asym };
        self.common.negotiate_info.dhe_sel = SpdmDheAlgo { bits: dhe as u16 };
        self.common.negotiate_info.aead_sel = SpdmAeadAlgo { bits: aead as u16 };
        self.common.negotiate_info.req_asym_sel = req_asym as u16;
        self.common.negotiate_info.key_schedule_sel = SpdmKeyScheduleAlgo { bits: key_schedule as u16 };
        self.common.runtime_info.connection_state = SpdmConnectionState::SpdmConnectionNegotiated;
        r
    }
}

proof fn lemma_bit_le(mask: u32, s: u32)
    requires
        s < 32,
        mask & (1u32 << s) != 0,
    ensures
        (1u32 << s) <= mask,
{
    assert((1u32 << s) <= mask) by (bit_vector)
        requires
            s < 32,
            mask & (1u32 << s) != 0,
    ;
}

/// The selected bit never exceeds the mask it came from.
pub proof fn lemma_pick_bound(mask: u32, k: nat)
    requires
        k <= 31,
    ensures
        pick_from_u32(mask, k) <= mask,
    decreases k,
{
    if mask & (1u32 << k as u32) != 0 {
        lemma_bit_le(mask, k as u32);
    } else if k > 0 {
        lemma_pick_bound(mask, (k - 1) as nat);
    }
}

} // verus!
verus! {

/// Opaque data of the exchange responses: the secured-message version
/// selection (DMTF spec id, one element selecting version 1.1).
pub fn opaque_version_selection() -> (r: Vec<u8>)
    ensures
        r@.len() == 20,
{
    let mut r: Vec<u8> = Vec::new();
    r.push(0x46);
    r.push(0x54);
    r.push(0x4d);
    r.push(0x44);
    r.push(0x01);
    r.push(0x01);
    r.push(0x00);
    r.push(0x00);
    r.push(0x00);
    r.push(0x00);
    r.push(0x06);
    r.push(0x00);
    r.push(0x01);
    r.push(0x00);
    r.push(0x00);
    r.push(0x11);
    r.push(0x00);
    r.push(0x00);
    r.push(0x00);
    r.push(0x00);
    r
}

/// The bytes of `bytes` that a parse consumed, given what it left over.
pub open spec fn consumed(bytes: Seq<u8>, rest: Seq<u8>) -> Seq<u8> {
    bytes.take(bytes.len() - rest.len())
}

/// A response as sent: its head, then the signature (possibly empty) and
/// the verify data computed over it.
pub fn assemble_response(head: &[u8], signature: &[u8], verify_data: &[u8]) -> (r: Vec<u8>)
    ensures
        r@ == head@ + signature@ + verify_data@,
{
    let mut r: Vec<u8> = Vec::new();
    encode_bytes(head, &mut r);
    encode_bytes(signature, &mut r);
    encode_bytes(verify_data, &mut r);
    assert(r@ =~= head@ + signature@ + verify_data@);
    r
}

/// A KEY_EXCHANGE_RSP frame: header, then the payload, whose signature and
/// verify data have the negotiated sizes.
/// The measurement summary hash is the hash of the provisioned measurement
/// data when one is asked for (the built-in SHA-2 one when no hash provider
/// is registered), and absent otherwise.
pub open spec fn summary_field_ok(msh: Seq<u8>, wants: bool, hash_len: u16, built_in: bool, bits: u32, data: Seq<u8>) -> bool {
    if wants {
        msh.len() == hash_len && (built_in ==> msh == crate::crypto::hash::ring_digest(bits, data))
    } else {
        msh.len() == 0
    }
}

/// The length of a KEY_EXCHANGE_RSP frame up to its signature, for a DHE
/// public value of `dhe` bytes and a summary hash of `summary` bytes.
pub open spec fn ke_head_len(dhe: nat, summary: nat) -> nat {
    62 + dhe + summary
}

pub open spec fn key_exchange_response_shape(
    r: Seq<u8>,
    version: SpdmVersion,
    rsp_session_id: u16,
    sig_len: u16,
    hash_len: u16,
    wants: bool,
    built_in: bool,
    bits: u32,
    data: Seq<u8>,
) -> bool {
    exists|m: crate::cmds::key_exchange::KeyExchangeRspModel| {
        &&& r == spec_header(SpdmMessageHeader { version, request_response_code: crate::msgs::SPDM_KEY_EXCHANGE_RSP })
            + crate::cmds::key_exchange::spec_key_exchange_rsp(m)
        &&& m.rsp_session_id == rsp_session_id
        &&& m.signature.len() == sig_len
        &&& m.verify_data.len() == hash_len
        &&& summary_field_ok(m.measurement_summary_hash, wants, hash_len, built_in, bits, data)
    }
}

/// A PSK_EXCHANGE_RSP frame: header, then the payload, whose verify data
/// has the hash size and which carries no signature.
pub open spec fn psk_response_shape(
    r: Seq<u8>,
    version: SpdmVersion,
    rsp_session_id: u16,
    hash_len: u16,
    wants: bool,
    built_in: bool,
    bits: u32,
    data: Seq<u8>,
) -> bool {
    exists|m: crate::cmds::psk_exchange::PskExchangeRspModel| {
        &&& r == spec_header(SpdmMessageHeader { version, request_response_code: crate::msgs::SPDM_PSK_EXCHANGE_RSP })
            + crate::cmds::psk_exchange::spec_psk_exchange_rsp(m)
        &&& m.rsp_session_id == rsp_session_id
        &&& m.verify_data.len() == hash_len
        &&& summary_field_ok(m.measurement_summary_hash, wants, hash_len, built_in, bits, data)
    }
}

/// The session id both sides use: requester part high, responder part low.
pub open spec fn spec_session_id(req_session_id: u16, rsp_session_id: u16) -> u32 {
    ((req_session_id as u32) << 16u32) | (rsp_session_id as u32)
}

pub fn make_session_id(req_session_id: u16, rsp_session_id: u16) -> (r: u32)
    ensures
        r == spec_session_id(req_session_id, rsp_session_id),
{
    ((req_session_id as u32) << 16u32) | (rsp_session_id as u32)
}

/// The responder's half of the session id for slot `index`.
pub open spec fn rsp_session_id_of(index: int) -> u16 {
    (0xFFFF - index) as u16
}

/// A summary hash type that asks for the measurement summary hash.
pub open spec fn wants_summary(hash_type: u8) -> bool {
    hash_type == crate::msgs::SPDM_MEASUREMENT_SUMMARY_HASH_TCB || hash_type == crate::msgs::SPDM_MEASUREMENT_SUMMARY_HASH_ALL
}

} // verus!
verus! {

/// The request codes of the protocol.
pub open spec fn is_request_code(c: u8) -> bool {
    c == crate::msgs::SPDM_GET_DIGESTS || c == crate::msgs::SPDM_GET_CERTIFICATE || c == crate::msgs::SPDM_CHALLENGE
        || c == crate::msgs::SPDM_GET_VERSION || c == crate::msgs::SPDM_GET_MEASUREMENTS
        || c == crate::msgs::SPDM_GET_CAPABILITIES || c == crate::msgs::SPDM_NEGOTIATE_ALGORITHMS
        || c == crate::msgs::SPDM_KEY_EXCHANGE || c == crate::msgs::SPDM_FINISH || c == crate::msgs::SPDM_PSK_EXCHANGE
        || c == crate::msgs::SPDM_PSK_FINISH || c == crate::msgs::SPDM_HEARTBEAT || c == crate::msgs::SPDM_KEY_UPDATE
        || c == crate::msgs::SPDM_END_SESSION
}

pub fn is_request_code_exec(c: u8) -> (r: bool)
    ensures
        r == is_request_code(c),
{
    c == crate::msgs::SPDM_GET_DIGESTS || c == crate::msgs::SPDM_GET_CERTIFICATE || c == crate::msgs::SPDM_CHALLENGE
        || c == crate::msgs::SPDM_GET_VERSION || c == crate::msgs::SPDM_GET_MEASUREMENTS
        || c == crate::msgs::SPDM_GET_CAPABILITIES || c == crate::msgs::SPDM_NEGOTIATE_ALGORITHMS
        || c == crate::msgs::SPDM_KEY_EXCHANGE || c == crate::msgs::SPDM_FINISH || c == crate::msgs::SPDM_PSK_EXCHANGE
        || c == crate::msgs::SPDM_PSK_FINISH || c == crate::msgs::SPDM_HEARTBEAT || c == crate::msgs::SPDM_KEY_UPDATE
        || c == crate::msgs::SPDM_END_SESSION
}

/// The response codes of the protocol.
pub open spec fn is_response_code(c: u8) -> bool {
    c == crate::msgs::SPDM_DIGESTS || c == crate::msgs::SPDM_CERTIFICATE || c == crate::msgs::SPDM_CHALLENGE_AUTH
        || c == crate::msgs::SPDM_VERSION || c == crate::msgs::SPDM_MEASUREMENTS || c == crate::msgs::SPDM_CAPABILITIES
        || c == crate::msgs::SPDM_ALGORITHMS || c == crate::msgs::SPDM_KEY_EXCHANGE_RSP || c == crate::msgs::SPDM_FINISH_RSP
        || c == crate::msgs::SPDM_PSK_EXCHANGE_RSP || c == crate::msgs::SPDM_PSK_FINISH_RSP || c == crate::msgs::SPDM_HEARTBEAT_ACK
        || c == crate::msgs::SPDM_KEY_UPDATE_ACK || c == crate::msgs::SPDM_END_SESSION_ACK || c == crate::msgs::SPDM_ERROR
}

pub fn is_response_code_exec(c: u8) -> (r: bool)
    ensures
        r == is_response_code(c),
{
    c == crate::msgs::SPDM_DIGESTS || c == crate::msgs::SPDM_CERTIFICATE || c == crate::msgs::SPDM_CHALLENGE_AUTH
        || c == crate::msgs::SPDM_VERSION || c == crate::msgs::SPDM_MEASUREMENTS || c == crate::msgs::SPDM_CAPABILITIES
        || c == crate::msgs::SPDM_ALGORITHMS || c == crate::msgs::SPDM_KEY_EXCHANGE_RSP || c == crate::msgs::SPDM_FINISH_RSP
        || c == crate::msgs::SPDM_PSK_EXCHANGE_RSP || c == crate::msgs::SPDM_PSK_FINISH_RSP || c == crate::msgs::SPDM_HEARTBEAT_ACK
        || c == crate::msgs::SPDM_KEY_UPDATE_ACK || c == crate::msgs::SPDM_END_SESSION_ACK || c == crate::msgs::SPDM_ERROR
}

/// The requests handled outside a session.
pub open spec fn is_unsecured_request(c: u8) -> bool {
    c == crate::msgs::SPDM_GET_VERSION || c == crate::msgs::SPDM_GET_CAPABILITIES
        || c == crate::msgs::SPDM_NEGOTIATE_ALGORITHMS || c == crate::msgs::SPDM_GET_DIGESTS
        || c == crate::msgs::SPDM_GET_CERTIFICATE || c == crate::msgs::SPDM_CHALLENGE
        || c == crate::msgs::SPDM_GET_MEASUREMENTS || c == crate::msgs::SPDM_KEY_EXCHANGE
        || c == crate::msgs::SPDM_PSK_EXCHANGE
}

/// The requests handled inside a session.
pub open spec fn is_secured_request(c: u8) -> bool {
    c == crate::msgs::SPDM_FINISH || c == crate::msgs::SPDM_PSK_FINISH || c == crate::msgs::SPDM_HEARTBEAT
        || c == crate::msgs::SPDM_KEY_UPDATE || c == crate::msgs::SPDM_END_SESSION
}

/// The error a message gets when it is not handled where it arrived: a
/// known code out of place is unexpected, an unknown code unsupported.
pub open spec fn misplaced_error(c: u8) -> SpdmErrorCode {
    if is_request_code(c) || is_response_code(c) {
        SpdmErrorCode::SpdmErrorUnexpectedRequest
    } else {
        SpdmErrorCode::SpdmErrorUnsupportedRequest
    }
}

fn misplaced_error_exec(c: u8) -> (r: SpdmErrorCode)
    ensures
        r == misplaced_error(c),
{
    if is_request_code_exec(c) || is_response_code_exec(c) {
        SpdmErrorCode::SpdmErrorUnexpectedRequest
    } else {
        SpdmErrorCode::SpdmErrorUnsupportedRequest
    }
}

impl<D: SpdmDeviceIo, T: SpdmTransportEncap, C: SpdmCryptoProvider> ResponderContext<D, T, C> {
    /// The answer to one plain message: whether the code belongs to the
    /// plain dispatch table, and the frame to send. Any other code gets an
    /// error frame and changes nothing.
    pub fn answer_message(&mut self, bytes: &[u8]) -> (r: (bool, Vec<u8>))
        requires
            old(self).common.wf(),
        ensures
            final(self).common.wf(),
            r.0 == (bytes@.len() >= 2 && is_unsecured_request(bytes@[1])),
            !r.0 ==> final(self).common.session_pool == old(self).common.session_pool,
            !r.0 ==> final(self).common.runtime_info == old(self).common.runtime_info,
            !r.0 ==> r.1@ == spec_error_frame(old(self).common.negotiate_info.spdm_version_sel, if bytes@.len() < 2 {
                SpdmErrorCode::SpdmErrorInvalidRequest
            } else {
                misplaced_error(bytes@[1])
            }, 0),
            bytes@.len() >= 4 && bytes@[1] == crate::msgs::SPDM_GET_VERSION ==> {
                &&& r.1@ == spec_header(SpdmMessageHeader {
                    version: final(self).common.negotiate_info.spdm_version_sel,
                    request_response_code: SPDM_VERSION,
                }) + spec_version_payload(VersionPayloadModel {
                    count: offered_versions(old(self).common.config_info.spdm_version@).len() as u8,
                    versions: offered_versions(old(self).common.config_info.spdm_version@),
                })
                &&& final(self).common.negotiate_info.spdm_version_sel == highest_offered(old(self).common.config_info.spdm_version@)
                &&& final(self).common.runtime_info.connection_state == SpdmConnectionState::SpdmConnectionAfterVersion
                &&& final(self).common.runtime_info.message_a@ == bytes@.take(4) + r.1@
                &&& final(self).common.session_pool == old(self).common.session_pool
            },
            bytes@.len() >= 2 && bytes@[1] == crate::msgs::SPDM_GET_CAPABILITIES ==> final(self).common.session_pool
                == old(self).common.session_pool,
            bytes@.len() >= 2 && bytes@[1] == crate::msgs::SPDM_GET_CAPABILITIES ==> (old(self).common.runtime_info.connection_state != SpdmConnectionState::SpdmConnectionAfterVersion ==> {
                &&& r.1@ == spec_error_frame(old(self).common.negotiate_info.spdm_version_sel,
                    SpdmErrorCode::SpdmErrorUnexpectedRequest, 0)
                &&& final(self).common.runtime_info == old(self).common.runtime_info
                &&& final(self).common.negotiate_info == old(self).common.negotiate_info
            }),
            bytes@.len() >= 2 && bytes@[1] == crate::msgs::SPDM_GET_CAPABILITIES ==> (old(self).common.runtime_info.connection_state == SpdmConnectionState::SpdmConnectionAfterVersion ==> match
                crate::cmds::capability::parse_capabilities(bytes@.skip(2)) {
                Some((req, _)) => bytes@.len() >= 2 && old(self).common.runtime_info.message_a@.len() + 26
                    <= crate::config::MAX_SPDM_MESSAGE_BUFFER_SIZE ==> {
                    &&& r.1@ == spec_header(SpdmMessageHeader {
                        version: old(self).common.negotiate_info.spdm_version_sel,
                        request_response_code: SPDM_CAPABILITIES,
                    }) + spec_capabilities(SpdmCapabilitiesPayload {
                        ct_exponent: old(self).common.config_info.rsp_ct_exponent,
                        flags: old(self).common.config_info.rsp_capabilities,
                    })
                    &&& final(self).common.negotiate_info.req_capabilities_sel == req.flags & old(self).common.config_info.rsp_capabilities
                    &&& final(self).common.negotiate_info.rsp_capabilities_sel == req.flags & old(self).common.config_info.rsp_capabilities
                    &&& final(self).common.negotiate_info.req_ct_exponent_sel == req.ct_exponent
                    &&& final(self).common.runtime_info.connection_state == SpdmConnectionState::SpdmConnectionAfterCapabilities
                    &&& final(self).common.runtime_info.message_a@ == old(self).common.runtime_info.message_a@
                        + bytes@.take(12) + r.1@
                },
                None => r.1@ == spec_error_frame(old(self).common.negotiate_info.spdm_version_sel,
                    SpdmErrorCode::SpdmErrorInvalidRequest, 0),
            }),
            bytes@.len() >= 2 && bytes@[1] == crate::msgs::SPDM_CHALLENGE && old(self).common.runtime_info.connection_state
                != SpdmConnectionState::SpdmConnectionNegotiated ==> {
                &&& r.1@ == spec_error_frame(old(self).common.negotiate_info.spdm_version_sel, SpdmErrorCode::SpdmErrorUnexpectedRequest, 0)
                &&& final(self).common.session_pool == old(self).common.session_pool
                &&& final(self).common.runtime_info == old(self).common.runtime_info
                &&& final(self).common.negotiate_info == old(self).common.negotiate_info
            },
    {
        let version = self.common.negotiate_info.spdm_version_sel;
        if bytes.len() < 2 {
            return (false, error_frame(version, SpdmErrorCode::SpdmErrorInvalidRequest, 0));
        }
        let code = bytes[1];
        if code == crate::msgs::SPDM_GET_VERSION {
            (true, self.handle_spdm_version(bytes))
        } else if code == crate::msgs::SPDM_GET_CAPABILITIES {
            (true, self.handle_spdm_capability(bytes))
        } else if code == crate::msgs::SPDM_NEGOTIATE_ALGORITHMS {
            (true, self.handle_spdm_algorithm(bytes))
        } else if code == crate::msgs::SPDM_GET_DIGESTS {
            (true, self.handle_spdm_digest(bytes))
        } else if code == crate::msgs::SPDM_GET_CERTIFICATE {
            (true, self.handle_spdm_certificate(bytes))
        } else if code == crate::msgs::SPDM_CHALLENGE {
            (true, self.handle_spdm_challenge(bytes))
        } else if code == crate::msgs::SPDM_GET_MEASUREMENTS {
            (true, self.handle_spdm_measurement(bytes))
        } else if code == crate::msgs::SPDM_KEY_EXCHANGE {
            (true, self.handle_spdm_key_exchange(bytes))
        } else if code == crate::msgs::SPDM_PSK_EXCHANGE {
            (true, self.handle_spdm_psk_exchange(bytes))
        } else {
            (false, error_frame(version, misplaced_error_exec(code), 0))
        }
    }


    /// Routes one plain message to its handler and sends the answer that
    /// [`Self::answer_message`] gives. Returns whether the code belongs to
    /// the plain dispatch table.
    pub fn dispatch_message(&mut self, bytes: &[u8]) -> (handled: bool)
        requires
            old(self).common.wf(),
        ensures
            final(self).common.wf(),
            handled == (bytes@.len() >= 2 && is_unsecured_request(bytes@[1])),
            !handled ==> final(self).common.session_pool == old(self).common.session_pool,
            !handled ==> final(self).common.runtime_info == old(self).common.runtime_info,
            bytes@.len() >= 4 && bytes@[1] == crate::msgs::SPDM_GET_VERSION ==> {
                &&& final(self).common.negotiate_info.spdm_version_sel == highest_offered(old(self).common.config_info.spdm_version@)
                &&& final(self).common.runtime_info.connection_state == SpdmConnectionState::SpdmConnectionAfterVersion
                &&& final(self).common.runtime_info.message_a@ == bytes@.take(4) + spec_header(SpdmMessageHeader {
                    version: highest_offered(old(self).common.config_info.spdm_version@),
                    request_response_code: SPDM_VERSION,
                }) + spec_version_payload(VersionPayloadModel {
                    count: offered_versions(old(self).common.config_info.spdm_version@).len() as u8,
                    versions: offered_versions(old(self).common.config_info.spdm_version@),
                })
                &&& final(self).common.session_pool == old(self).common.session_pool
            },
            bytes@.len() >= 2 && bytes@[1] == crate::msgs::SPDM_GET_CAPABILITIES ==> final(self).common.session_pool
                == old(self).common.session_pool,
            bytes@.len() >= 2 && bytes@[1] == crate::msgs::SPDM_GET_CAPABILITIES && old(self).common.runtime_info.connection_state
                != SpdmConnectionState::SpdmConnectionAfterVersion ==> final(self).common.runtime_info == old(self).common.runtime_info
                && final(self).common.negotiate_info == old(self).common.negotiate_info,
            bytes@.len() >= 2 && bytes@[1] == crate::msgs::SPDM_GET_CAPABILITIES && old(self).common.runtime_info.connection_state
                == SpdmConnectionState::SpdmConnectionAfterVersion ==> match crate::cmds::capability::parse_capabilities(
                bytes@.skip(2)) {
                Some((req, _)) => old(self).common.runtime_info.message_a@.len() + 26 <= crate::config::MAX_SPDM_MESSAGE_BUFFER_SIZE ==> {
                    &&& final(self).common.negotiate_info.req_capabilities_sel == req.flags & old(self).common.config_info.rsp_capabilities
                    &&& final(self).common.negotiate_info.rsp_capabilities_sel == req.flags & old(self).common.config_info.rsp_capabilities
                    &&& final(self).common.negotiate_info.req_ct_exponent_sel == req.ct_exponent
                    &&& final(self).common.runtime_info.connection_state == SpdmConnectionState::SpdmConnectionAfterCapabilities
                    &&& final(self).common.runtime_info.message_a@ == old(self).common.runtime_info.message_a@ + bytes@.take(12)
                        + spec_header(SpdmMessageHeader {
                        version: old(self).common.negotiate_info.spdm_version_sel,
                        request_response_code: SPDM_CAPABILITIES,
                    }) + spec_capabilities(SpdmCapabilitiesPayload {
                        ct_exponent: old(self).common.config_info.rsp_ct_exponent,
                        flags: old(self).common.config_info.rsp_capabilities,
                    })
                },
                None => true,
            },
            bytes@.len() >= 2 && bytes@[1] == crate::msgs::SPDM_CHALLENGE && old(self).common.runtime_info.connection_state
                != SpdmConnectionState::SpdmConnectionNegotiated ==> {
                &&& final(self).common.session_pool == old(self).common.session_pool
                &&& final(self).common.runtime_info == old(self).common.runtime_info
                &&& final(self).common.negotiate_info == old(self).common.negotiate_info
            },
    {
        let (handled, frame) = self.answer_message(bytes);
        let _ = self.send_message(frame.as_slice());
        handled
    }

    /// Routes one message that arrived in session `session_id` to its
    /// handler, which answers inside the session. Returns whether the code
    /// belongs to the session dispatch table, and the frame sent in the
    /// session (empty when the session is unknown).
    pub fn dispatch_secured_message(&mut self, session_id: u32, bytes: &[u8]) -> (r: (bool, Vec<u8>))
        requires
            old(self).common.wf(),
        ensures
            final(self).common.wf(),
            r.0 ==> bytes@.len() >= 2 && is_secured_request(bytes@[1]),
            bytes@.len() >= 2 && is_secured_request(bytes@[1]) && (exists|i: int| 0 <= i < old(self).common.session_pool.sessions@.len()
                && is_active(#[trigger] old(self).common.session_pool.sessions@[i])
                && old(self).common.session_pool.sessions@[i].session_id == session_id
                && old(self).common.session_pool.sessions@[i].transport_param.sequence_number_count <= 8) ==> r.0,
            final(self).common.runtime_info == old(self).common.runtime_info,
            final(self).common.negotiate_info == old(self).common.negotiate_info,
            final(self).common.session_pool.sessions@.len() == old(self).common.session_pool.sessions@.len(),
            forall|i: int| 0 <= i < old(self).common.session_pool.sessions@.len() && !(is_active(
                #[trigger] old(self).common.session_pool.sessions@[i]) && old(self).common.session_pool.sessions@[i].session_id
                == session_id) ==> final(self).common.session_pool.sessions@[i] == old(self).common.session_pool.sessions@[i],
            forall|i: int| 0 <= i < old(self).common.session_pool.sessions@.len() && is_active(#[trigger] old(self).common.session_pool.sessions@[i])
                && old(self).common.session_pool.sessions@[i].session_id == session_id
                && old(self).common.session_pool.sessions@[i].transport_param.sequence_number_count <= 8 ==> {
                let f = final(self).common.session_pool.sessions@[i];
                let o = old(self).common.session_pool.sessions@[i];
                let code = bytes@[1];
                &&& f.session_id == session_id || !is_active(f)
                &&& bytes@.len() >= 4 && code == SPDM_HEARTBEAT && o.state == SpdmSessionState::SpdmSessionEstablished ==> {
                    &&& r.1@ == spec_header(SpdmMessageHeader {
                        version: old(self).common.negotiate_info.spdm_version_sel,
                        request_response_code: SPDM_HEARTBEAT_ACK,
                    }) + seq![0u8, 0u8]
                    &&& f.state == SpdmSessionState::SpdmSessionEstablished
                        || o.response_direction.sequence_number == u64::MAX
                }
                &&& bytes@.len() >= 2 && code == SPDM_FINISH && r.1@[1] == SPDM_FINISH_RSP ==> {
                    &&& o.state == SpdmSessionState::SpdmSessionHandshaking && !o.use_psk
                    &&& f.state == SpdmSessionState::SpdmSessionEstablished || !is_active(f)
                }
                &&& bytes@.len() >= 2 && code == SPDM_PSK_FINISH && r.1@[1] == SPDM_PSK_FINISH_RSP ==> {
                    &&& o.state == SpdmSessionState::SpdmSessionHandshaking && o.use_psk
                    &&& f.state == SpdmSessionState::SpdmSessionEstablished || !is_active(f)
                }
                &&& bytes@.len() >= 2 && code == SPDM_KEY_UPDATE && r.1@[1] == SPDM_KEY_UPDATE_ACK ==> {
                    &&& o.state == SpdmSessionState::SpdmSessionEstablished
                    &&& f.state == SpdmSessionState::SpdmSessionEstablished || !is_active(f)
                }
                &&& bytes@.len() >= 2 && code == SPDM_END_SESSION && r.1@[1] == SPDM_END_SESSION_ACK ==> {
                    &&& !is_active(f)
                    &&& secrets_zeroed(f)
                }
                &&& bytes@.len() >= 2 && !is_secured_request(code) ==> r.1@ == spec_error_frame(
                    old(self).common.negotiate_info.spdm_version_sel, misplaced_error(code), 0)
            },
    {
        let version = self.common.negotiate_info.spdm_version_sel;
        let index = match self.common.session_pool.get_session_via_id(session_id) {
            Some(i) => i,
            None => {
                return (false, Vec::new());
            },
        };
        proof {
            crate::session::lemma_lookup_finds_setup_slot(self.common.session_pool, index as int, session_id);
        }
        if self.common.session_pool.sessions[index].transport_param.sequence_number_count > 8 {
            return (false, Vec::new());
        }
        let ghost before = self.common.session_pool;
        let mut session = self.common.session_pool.take(index);
        let r = if bytes.len() < 2 {
            (false, self.answer_in_session(&mut session, error_frame(version, SpdmErrorCode::SpdmErrorInvalidRequest, 0)))
        } else {
            let code = bytes[1];
            if code == SPDM_FINISH {
                (true, self.finish_in_session(&mut session, bytes))
            } else if code == SPDM_PSK_FINISH {
                (true, self.psk_finish_in_session(&mut session, bytes))
            } else if code == SPDM_HEARTBEAT {
                (true, self.heartbeat_in_session(&mut session, bytes))
            } else if code == SPDM_KEY_UPDATE {
                (true, self.key_update_in_session(&mut session, bytes))
            } else if code == SPDM_END_SESSION {
                (true, self.end_session_in_session(&mut session, bytes))
            } else {
                (false, self.answer_in_session(&mut session, error_frame(version, misplaced_error_exec(code), 0)))
            }
        };
        proof {
            if is_active(session) {
                assert forall|j: int| 0 <= j < before.sessions@.len() && j != index implies !(is_active(
                    #[trigger] self.common.session_pool.sessions@[j]) && self.common.session_pool.sessions@[j].session_id
                    == session.session_id) by {
                    assert(self.common.session_pool.sessions@[j] == before.sessions@[j]);
                }
            }
        }
        self.common.session_pool.put_back(index, session);
        assert forall|j: int| 0 <= j < before.sessions@.len() && j != index implies
            self.common.session_pool.sessions@[j] == before.sessions@[j] by {}
        r
    }

    /// Receives one frame and hands it to [`Self::process_frame`].
    pub fn process_message(&mut self) -> (r: SpdmResult<bool>)
        requires
            old(self).common.wf(),
        ensures
            final(self).common.wf(),
            r is Err ==> final(self).common.runtime_info == old(self).common.runtime_info
                && final(self).common.negotiate_info == old(self).common.negotiate_info,
    {
        let (bytes, secured) = self.receive_message()?;
        self.process_frame(bytes.as_slice(), secured)
    }

    /// Hands one received frame to exactly one handler. A plain frame goes
    /// to [`Self::dispatch_message`]. A secured frame is opened in the
    /// session its first four bytes name; a record that does not open is
    /// answered with a DecryptError frame. Returns whether a handler took
    /// the message.
    pub fn process_frame(&mut self, bytes: &[u8], secured: bool) -> (r: SpdmResult<bool>)
        requires
            old(self).common.wf(),
        ensures
            final(self).common.wf(),
            !secured ==> r == Ok::<bool, SpdmStatus>(bytes@.len() >= 2 && is_unsecured_request(bytes@[1])),
            secured && bytes@.len() < 4 ==> r == Err::<bool, SpdmStatus>(SpdmStatus::DecodeFailure)
                && final(self).common.session_pool == old(self).common.session_pool,
            r is Err ==> final(self).common.runtime_info == old(self).common.runtime_info
                && final(self).common.negotiate_info == old(self).common.negotiate_info,
            secured ==> match crate::codec::parse_u32(bytes@) {
                Some((id, _)) => (forall|i: int| 0 <= i < old(self).common.session_pool.sessions@.len() ==> !(is_active(
                    #[trigger] old(self).common.session_pool.sessions@[i]) && old(self).common.session_pool.sessions@[i].session_id
                    == id)) ==> r == Err::<bool, SpdmStatus>(SpdmStatus::InvalidParameter)
                    && final(self).common.session_pool == old(self).common.session_pool,
                None => true,
            },
            secured ==> match crate::codec::parse_u32(bytes@) {
                Some((id, _)) => (exists|i: int| 0 <= i < old(self).common.session_pool.sessions@.len() && is_active(
                    #[trigger] old(self).common.session_pool.sessions@[i]) && old(self).common.session_pool.sessions@[i].session_id == id
                    && old(self).common.session_pool.sessions@[i].transport_param.sequence_number_count <= 8) ==> r is Ok
                    || r == Err::<bool, SpdmStatus>(SpdmStatus::DecodeFailure),
                None => true,
            },
    {
        if !secured {
            return Ok(self.dispatch_message(bytes));
        }
        let mut reader = Reader::init(bytes);
        let session_id = match reader.read_u32() {
            Some(id) => id,
            None => {
                return Err(SpdmStatus::DecodeFailure);
            },
        };
        let index = match self.common.session_pool.get_session_via_id(session_id) {
            Some(i) => i,
            None => {
                return Err(SpdmStatus::InvalidParameter);
            },
        };
        if self.common.session_pool.sessions[index].transport_param.sequence_number_count > 8 {
            return Err(SpdmStatus::InvalidState);
        }
        let ghost before = self.common.session_pool;
        let mut session = self.common.session_pool.take(index);
        let opened = session.decode_spdm_secured_message(&self.common.crypto, bytes, false);
        proof {
            if is_active(session) {
                assert forall|j: int| 0 <= j < before.sessions@.len() && j != index implies !(is_active(
                    #[trigger] self.common.session_pool.sessions@[j]) && self.common.session_pool.sessions@[j].session_id
                    == session.session_id) by {
                    assert(self.common.session_pool.sessions@[j] == before.sessions@[j]);
                }
            }
        }
        self.common.session_pool.put_back(index, session);
        let app = match opened {
            Ok(a) => a,
            Err(_) => {
                let version = self.common.negotiate_info.spdm_version_sel;
                let _ = self.send_message(error_frame(version, SpdmErrorCode::SpdmErrorDecryptError, 0).as_slice());
                return Err(SpdmStatus::DecodeFailure);
            },
        };
        let spdm = match self.common.transport_encap.decap_app(app.as_slice()) {
            Ok(m) => m,
            Err(_) => {
                return Err(SpdmStatus::DecodeFailure);
            },
        };
        Ok(self.dispatch_secured_message(session_id, spdm.as_slice()).0)
    }
}

} // verus!
