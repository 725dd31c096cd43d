//! The Requester: blocking orchestration of the exchanges, one request and
//! one response at a time.

pub mod attestation_req;
pub mod session_req;

use vstd::prelude::*;
use crate::cmds::algorithm::SpdmAlgorithmsPayload;
use crate::cmds::capability::SpdmCapabilitiesPayload;
use crate::cmds::version::{SpdmGetVersionRequestPayload, SpdmVersionResponsePayload, SpdmVersionStruct};
use crate::codec::Reader;
use crate::common::{
    SpdmConfigInfo, SpdmConnectionState, SpdmContext, SpdmDeviceIo, SpdmProvisionInfo,
    SpdmTransportEncap,
};
use crate::config::{MAX_SPDM_MESSAGE_BUFFER_SIZE, MAX_SPDM_TRANSPORT_SIZE};
use crate::crypto::{SpdmCryptoProvider, SpdmCryptoRegistry};
use crate::error::{SpdmResult, SpdmStatus};
use crate::msgs::{
    SpdmAeadAlgo, SpdmBaseAsymAlgo, SpdmBaseHashAlgo, SpdmDheAlgo, SpdmKeyScheduleAlgo,
    spec_header, version_to_u8, SpdmMessageHeader, SpdmVersion, SPDM_ALGORITHMS, SPDM_CAPABILITIES, SPDM_GET_CAPABILITIES,
    SPDM_GET_VERSION, SPDM_NEGOTIATE_ALGORITHMS, SPDM_VERSION,
};
use crate::session::{advanced, is_active, SpdmSession};

verus! {

pub struct RequesterContext<D, T, C> {
    pub common: SpdmContext<D, T, C>,
}

/// A selection is acceptable when it is a single bit of what was offered,
/// or nothing.
pub open spec fn selection_ok(sel: u32, offered: u32) -> bool {
    sel == 0 || (sel & offered == sel && sel & ((sel - 1) as u32) == 0)
}

fn selection_ok_exec(sel: u32, offered: u32) -> (r: bool)
    ensures
        r == selection_ok(sel, offered),
{
    sel == 0 || (sel & offered == sel && sel & (sel - 1) == 0)
}

impl<D: SpdmDeviceIo, T: SpdmTransportEncap, C: SpdmCryptoProvider> RequesterContext<D, T, C> {
    pub fn new(
        device_io: D,
        transport_encap: T,
        crypto: SpdmCryptoRegistry<C>,
        config_info: SpdmConfigInfo,
        provision_info: SpdmProvisionInfo,
    ) -> (r: RequesterContext<D, T, C>)
        ensures
            r.common.wf(),
            r.common.runtime_info.connection_state == SpdmConnectionState::SpdmConnectionNotStarted,
            forall|i: int| 0 <= i < r.common.session_pool.sessions@.len() ==> !is_active(#[trigger] r.common.session_pool.sessions@[i]),
    {
        RequesterContext { common: SpdmContext::new(device_io, transport_encap, crypto, config_info, provision_info) }
    }

    /// Frames `send_buffer` as a plain message and sends it.
    pub fn send_message(&mut self, send_buffer: &[u8]) -> (r: SpdmResult)
        ensures
            final(self).common.session_pool == old(self).common.session_pool,
            final(self).common.runtime_info == old(self).common.runtime_info,
            final(self).common.negotiate_info == old(self).common.negotiate_info,
            final(self).common.config_info == old(self).common.config_info,
            final(self).common.provision_info == old(self).common.provision_info,
    {
        let frame = self.common.transport_encap.encap(send_buffer, false)?;
        if frame.len() > MAX_SPDM_TRANSPORT_SIZE {
            return Err(SpdmStatus::BufferOverflow);
        }
        self.common.device_io.send(frame.as_slice())
    }

    /// Seals `send_buffer` in `session` (request direction) and sends it.
    pub fn send_in_session(&mut self, session: &mut SpdmSession, send_buffer: &[u8]) -> (r: SpdmResult)
        requires
            old(session).transport_param.sequence_number_count <= 8,
        ensures
            final(self).common.session_pool == old(self).common.session_pool,
            final(self).common.runtime_info == old(self).common.runtime_info,
            final(self).common.negotiate_info == old(self).common.negotiate_info,
            final(session).session_id == old(session).session_id || !is_active(*final(session)),
            final(session).state == old(session).state || !is_active(*final(session)),
            final(session).transport_param == old(session).transport_param,
            final(session).crypto_param == old(session).crypto_param,
            final(session).use_psk == old(session).use_psk || !is_active(*final(session)),
            final(session).runtime_info == old(session).runtime_info || !is_active(*final(session)),
            r is Ok ==> *final(session) == advanced(*old(session), true),
            old(session).request_direction.sequence_number == u64::MAX ==> r is Err && !is_active(*final(session)),
    {
        if session.request_direction.sequence_number == u64::MAX {
            // A counter that would wrap ends the session.
            let id = session.session_id;
            let _ = session.teardown(id);
            return Err(SpdmStatus::InvalidState);
        }
        let app = self.common.transport_encap.encap_app(send_buffer)?;
        let sealed = session.encode_spdm_secured_message(&self.common.crypto, app.as_slice(), true)?;
        let frame = self.common.transport_encap.encap(sealed.as_slice(), true)?;
        if frame.len() > MAX_SPDM_TRANSPORT_SIZE {
            return Err(SpdmStatus::BufferOverflow);
        }
        self.common.device_io.send(frame.as_slice())
    }

    /// Receives one frame of `session` (response direction) and opens it.
    pub fn receive_in_session(&mut self, session: &mut SpdmSession) -> (r: SpdmResult<Vec<u8>>)
        requires
            old(session).transport_param.sequence_number_count <= 8,
        ensures
            final(self).common.session_pool == old(self).common.session_pool,
            final(self).common.runtime_info == old(self).common.runtime_info,
            final(self).common.negotiate_info == old(self).common.negotiate_info,
            final(session).session_id == old(session).session_id,
            final(session).state == old(session).state,
            final(session).transport_param == old(session).transport_param,
            final(session).crypto_param == old(session).crypto_param,
            final(session).use_psk == old(session).use_psk,
            final(session).runtime_info == old(session).runtime_info,
            r matches Ok(b) ==> b@.len() <= MAX_SPDM_TRANSPORT_SIZE,
            r is Ok ==> *final(session) == advanced(*old(session), false),
    {
        let frame = accept_received(self.common.device_io.receive())?;
        let sealed = accept_decap(self.common.transport_encap.decap(frame.as_slice()), true)?;
        let app = session.decode_spdm_secured_message(&self.common.crypto, sealed.as_slice(), true)?;
        let spdm = self.common.transport_encap.decap_app(app.as_slice())?;
        if spdm.len() > MAX_SPDM_TRANSPORT_SIZE {
            return Err(SpdmStatus::BufferOverflow);
        }
        Ok(spdm)
    }

    /// Seals `send_buffer` in session `session_id` and sends it; an unknown
    /// session is refused.
    pub fn send_secured_message(&mut self, session_id: u32, send_buffer: &[u8]) -> (r: SpdmResult)
        requires
            old(self).common.wf(),
        ensures
            final(self).common.wf(),
            final(self).common.runtime_info == old(self).common.runtime_info,
            (forall|i: int| 0 <= i < old(self).common.session_pool.sessions@.len() ==> !(is_active(
                #[trigger] old(self).common.session_pool.sessions@[i]) && old(self).common.session_pool.sessions@[i].session_id
                == session_id)) ==> r == Err::<(), SpdmStatus>(SpdmStatus::InvalidParameter)
                && final(self).common.session_pool == old(self).common.session_pool,
            (exists|i: int| 0 <= i < old(self).common.session_pool.sessions@.len() && is_active(
                #[trigger] old(self).common.session_pool.sessions@[i]) && old(self).common.session_pool.sessions@[i].session_id
                == session_id && old(self).common.session_pool.sessions@[i].transport_param.sequence_number_count > 8)
                ==> r == Err::<(), SpdmStatus>(SpdmStatus::InvalidState) && final(self).common.session_pool
                == old(self).common.session_pool,
            r is Ok ==> exists|i: int| 0 <= i < old(self).common.session_pool.sessions@.len() && is_active(
                #[trigger] old(self).common.session_pool.sessions@[i]) && old(self).common.session_pool.sessions@[i].session_id
                == session_id && final(self).common.session_pool.sessions@ == old(self).common.session_pool.sessions@.update(i,
                advanced(old(self).common.session_pool.sessions@[i], true)),
            (exists|i: int| 0 <= i < old(self).common.session_pool.sessions@.len() && is_active(
                #[trigger] old(self).common.session_pool.sessions@[i]) && old(self).common.session_pool.sessions@[i].session_id
                == session_id && old(self).common.session_pool.sessions@[i].transport_param.sequence_number_count <= 8
                && old(self).common.session_pool.sessions@[i].request_direction.sequence_number == u64::MAX) ==> r is Err
                && forall|i: int| 0 <= i < old(self).common.session_pool.sessions@.len() && is_active(
                #[trigger] old(self).common.session_pool.sessions@[i]) && old(self).common.session_pool.sessions@[i].session_id
                == session_id ==> !is_active(final(self).common.session_pool.sessions@[i]),
    {
        let index = match self.common.session_pool.get_session_via_id(session_id) {
            Some(i) => i,
            None => {
                return Err(SpdmStatus::InvalidParameter);
            },
        };
        proof {
            crate::session::lemma_lookup_finds_setup_slot(self.common.session_pool, index as int, session_id);
        }
        if self.common.session_pool.sessions[index].transport_param.sequence_number_count > 8 {
            return Err(SpdmStatus::InvalidState);
        }
        let ghost before = self.common.session_pool;
        let mut session = self.common.session_pool.take(index);
        let r = self.send_in_session(&mut session, send_buffer);
        proof {
            if is_active(session) {
                assert forall|j: int| 0 <= j < before.sessions@.len() && j != index implies !(is_active(
                    #[trigger] self.common.session_pool.sessions@[j]) && self.common.session_pool.sessions@[j].session_id
                    == session.session_id) by {
                    assert(self.common.session_pool.sessions@[j] == before.sessions@[j]);
                }
            }
        }
        self.common.session_pool.put_back(index, session);
        assert(r is Ok ==> self.common.session_pool.sessions@ =~= before.sessions@.update(index as int,
            advanced(before.sessions@[index as int], true)));
        r
    }

    /// Receives one plain frame and returns its SPDM bytes; a secured frame
    /// is refused here.
    pub fn receive_message(&mut self) -> (r: SpdmResult<Vec<u8>>)
        ensures
            final(self).common.session_pool == old(self).common.session_pool,
            final(self).common.runtime_info == old(self).common.runtime_info,
            final(self).common.negotiate_info == old(self).common.negotiate_info,
            r matches Ok(b) ==> b@.len() <= MAX_SPDM_TRANSPORT_SIZE,
            final(self).common.config_info == old(self).common.config_info,
            final(self).common.provision_info == old(self).common.provision_info,
    {
        let frame = accept_received(self.common.device_io.receive())?;
        accept_decap(self.common.transport_encap.decap(frame.as_slice()), false)
    }

    /// Receives one frame of session `session_id` and returns the opened
    /// message; an unknown session is refused.
    pub fn receive_secured_message(&mut self, session_id: u32) -> (r: SpdmResult<Vec<u8>>)
        requires
            old(self).common.wf(),
        ensures
            final(self).common.wf(),
            final(self).common.runtime_info == old(self).common.runtime_info,
            (forall|i: int| 0 <= i < old(self).common.session_pool.sessions@.len() ==> !(is_active(
                #[trigger] old(self).common.session_pool.sessions@[i]) && old(self).common.session_pool.sessions@[i].session_id
                == session_id)) ==> r == Err::<Vec<u8>, SpdmStatus>(SpdmStatus::InvalidParameter)
                && final(self).common.session_pool == old(self).common.session_pool,
            (exists|i: int| 0 <= i < old(self).common.session_pool.sessions@.len() && is_active(
                #[trigger] old(self).common.session_pool.sessions@[i]) && old(self).common.session_pool.sessions@[i].session_id
                == session_id && old(self).common.session_pool.sessions@[i].transport_param.sequence_number_count > 8)
                ==> r == Err::<Vec<u8>, SpdmStatus>(SpdmStatus::InvalidState) && final(self).common.session_pool
                == old(self).common.session_pool,
            r is Ok ==> exists|i: int| 0 <= i < old(self).common.session_pool.sessions@.len() && is_active(
                #[trigger] old(self).common.session_pool.sessions@[i]) && old(self).common.session_pool.sessions@[i].session_id
                == session_id && final(self).common.session_pool.sessions@ == old(self).common.session_pool.sessions@.update(i,
                advanced(old(self).common.session_pool.sessions@[i], false)),
    {
        let index = match self.common.session_pool.get_session_via_id(session_id) {
            Some(i) => i,
            None => {
                return Err(SpdmStatus::InvalidParameter);
            },
        };
        proof {
            crate::session::lemma_lookup_finds_setup_slot(self.common.session_pool, index as int, session_id);
        }
        if self.common.session_pool.sessions[index].transport_param.sequence_number_count > 8 {
            return Err(SpdmStatus::InvalidState);
        }
        let ghost before = self.common.session_pool;
        let mut session = self.common.session_pool.take(index);
        let r = self.receive_in_session(&mut session);
        proof {
            assert forall|j: int| 0 <= j < before.sessions@.len() && j != index implies !(is_active(
                #[trigger] self.common.session_pool.sessions@[j]) && self.common.session_pool.sessions@[j].session_id
                == session.session_id) by {
                assert(self.common.session_pool.sessions@[j] == before.sessions@[j]);
            }
        }
        self.common.session_pool.put_back(index, session);
        assert(r is Ok ==> self.common.session_pool.sessions@ =~= before.sessions@.update(index as int,
            advanced(before.sessions@[index as int], false)));
        r
    }
}

/// What the device's receive gives: any failure of the device is an I/O
/// failure, and a frame larger than the transport allows is refused.
pub fn accept_received(received: SpdmResult<Vec<u8>>) -> (r: SpdmResult<Vec<u8>>)
    ensures
        match received {
            Err(_) => r == Err::<Vec<u8>, SpdmStatus>(SpdmStatus::IoFailure),
            Ok(b) => if b@.len() > MAX_SPDM_TRANSPORT_SIZE {
                r == Err::<Vec<u8>, SpdmStatus>(SpdmStatus::BufferOverflow)
            } else {
                r == Ok::<Vec<u8>, SpdmStatus>(b)
            },
        },
{
    match received {
        Err(_) => Err(SpdmStatus::IoFailure),
        Ok(b) => if b.len() > MAX_SPDM_TRANSPORT_SIZE {
            Err(SpdmStatus::BufferOverflow)
        } else {
            Ok(b)
        },
    }
}

/// What a transport's unwrapping gives when a frame of one kind (plain or
/// secured) is expected: the bytes, or the transport's error, or
/// InvalidState for a frame of the other kind, or BufferOverflow for a
/// message too large.
pub fn accept_decap(decapped: SpdmResult<(Vec<u8>, bool)>, secured_wanted: bool) -> (r: SpdmResult<Vec<u8>>)
    ensures
        match decapped {
            Err(e) => r == Err::<Vec<u8>, SpdmStatus>(e),
            Ok((b, secured)) => if secured != secured_wanted {
                r == Err::<Vec<u8>, SpdmStatus>(SpdmStatus::InvalidState)
            } else if b@.len() > MAX_SPDM_TRANSPORT_SIZE {
                r == Err::<Vec<u8>, SpdmStatus>(SpdmStatus::BufferOverflow)
            } else {
                r == Ok::<Vec<u8>, SpdmStatus>(b)
            },
        },
{
    match decapped {
        Err(e) => Err(e),
        Ok((b, secured)) => {
            if secured != secured_wanted {
                Err(SpdmStatus::InvalidState)
            } else if b.len() > MAX_SPDM_TRANSPORT_SIZE {
                Err(SpdmStatus::BufferOverflow)
            } else {
                Ok(b)
            }
        },
    }
}

} // verus!
verus! {

/// Whether `v` is among `vs`.
pub open spec fn holds_version(vs: Seq<SpdmVersion>, v: SpdmVersion) -> bool {
    exists|i: int| 0 <= i < vs.len() && vs[i] == v
}

fn contains_version(vs: &Vec<SpdmVersion>, v: SpdmVersion) -> (r: bool)
    ensures
        r == holds_version(vs@, v),
{
    let mut i: usize = 0;
    while i < vs.len()
        invariant
            i <= vs@.len(),
            forall|j: int| 0 <= j < i ==> vs@[j] != v,
        decreases vs@.len() - i,
    {
        if vs[i] == v {
            return true;
        }
        i = i + 1;
    }
    false
}

/// The GET_VERSION request: the highest configured version (the last one
/// listed) in the header, then two zero parameters.
pub open spec fn spec_get_version_request(cfg: Seq<SpdmVersion>) -> Seq<u8> {
    spec_header(SpdmMessageHeader { version: cfg.last(), request_response_code: SPDM_GET_VERSION }) + seq![0u8, 0u8]
}

pub fn get_version_request(cfg: &Vec<SpdmVersion>) -> (r: Vec<u8>)
    requires
        cfg@.len() > 0,
    ensures
        r@ == spec_get_version_request(cfg@),
{
    let version = cfg[cfg.len() - 1];
    let mut request: Vec<u8> = Vec::new();
    SpdmMessageHeader { version, request_response_code: SPDM_GET_VERSION }.encode(&mut request);
    SpdmGetVersionRequestPayload {}.spdm_encode(&mut request);
    assert(request@ =~= spec_get_version_request(cfg@));
    request
}

/// `v` is held by both sides.
pub open spec fn common_version(ours: Seq<SpdmVersion>, theirs: Seq<SpdmVersionStruct>, v: SpdmVersion) -> bool {
    holds_version(ours, v) && exists|k: int| 0 <= k < theirs.len() && #[trigger] theirs[k].version == v
}

/// `v` is the highest version both sides hold.
pub open spec fn highest_common(ours: Seq<SpdmVersion>, theirs: Seq<SpdmVersionStruct>, v: SpdmVersion) -> bool {
    &&& common_version(ours, theirs, v)
    &&& forall|k: int| 0 <= k < theirs.len() && holds_version(ours, #[trigger] theirs[k].version) ==> version_to_u8(
        theirs[k].version) <= version_to_u8(v)
}

/// The highest version that both `ours` and the peer's list hold.
pub fn select_version(ours: &Vec<SpdmVersion>, theirs: &Vec<SpdmVersionStruct>) -> (r: Option<SpdmVersion>)
    ensures
        r matches Some(v) ==> highest_common(ours@, theirs@, v),
        r is None <==> forall|k: int| 0 <= k < theirs@.len() ==> !holds_version(ours@, #[trigger] theirs@[k].version),
{
    let mut best: Option<SpdmVersion> = None;
    let mut i: usize = 0;
    while i < theirs.len()
        invariant
            i <= theirs@.len(),
            best matches Some(b) ==> holds_version(ours@, b) && exists|k: int| 0 <= k < i && #[trigger] theirs@[k].version == b,
            best matches Some(b) ==> forall|k: int| 0 <= k < i && holds_version(ours@, #[trigger] theirs@[k].version)
                ==> version_to_u8(theirs@[k].version) <= version_to_u8(b),
            best is None <==> forall|k: int| 0 <= k < i ==> !holds_version(ours@, #[trigger] theirs@[k].version),
        decreases theirs@.len() - i,
    {
        let v = theirs[i].version;
        if contains_version(ours, v) {
            best = match best {
                Some(b) => if b.get_u8() < v.get_u8() { Some(v) } else { Some(b) },
                None => Some(v),
            };
        }
        i = i + 1;
    }
    best
}

impl<D: SpdmDeviceIo, T: SpdmTransportEncap, C: SpdmCryptoProvider> RequesterContext<D, T, C> {
    /// Sends `request`, receives the answer, checks that it carries
    /// `expected_code`, and records both in `message_a`.
    fn exchange_a(&mut self, request: &Vec<u8>, expected_code: u8) -> (r: SpdmResult<Vec<u8>>)
        requires
            old(self).common.wf(),
        ensures
            final(self).common.wf(),
            final(self).common.session_pool == old(self).common.session_pool,
            final(self).common.negotiate_info == old(self).common.negotiate_info,
            final(self).common.config_info == old(self).common.config_info,
            final(self).common.runtime_info.connection_state == old(self).common.runtime_info.connection_state,
            r matches Ok(rsp) ==> {
                &&& rsp@.len() >= 2 && rsp@[1] == expected_code
                &&& final(self).common.runtime_info.message_a@ == old(self).common.runtime_info.message_a@ + request@ + rsp@
            },
    {
        self.send_message(request.as_slice())?;
        let rsp = self.receive_message()?;
        if rsp.len() < 2 || rsp[1] != expected_code {
            return Err(SpdmStatus::DecodeFailure);
        }
        let a_len = self.common.runtime_info.message_a.len();
        if a_len > MAX_SPDM_MESSAGE_BUFFER_SIZE || request.len() > MAX_SPDM_MESSAGE_BUFFER_SIZE
            || a_len + request.len() + rsp.len() > MAX_SPDM_MESSAGE_BUFFER_SIZE {
            return Err(SpdmStatus::BufferOverflow);
        }
        let _ = self.common.runtime_info.message_a.append_message(request.as_slice());
        let _ = self.common.runtime_info.message_a.append_message(rsp.as_slice());
        Ok(rsp)
    }

    /// GET_VERSION / VERSION: selects the highest version both sides hold.
    /// The transcripts restart with this exchange.
    pub fn send_receive_spdm_version(&mut self) -> (r: SpdmResult)
        requires
            old(self).common.wf(),
        ensures
            final(self).common.wf(),
            final(self).common.session_pool == old(self).common.session_pool,
            r is Ok ==> final(self).common.runtime_info.connection_state == SpdmConnectionState::SpdmConnectionAfterVersion,
            r is Ok ==> holds_version(final(self).common.config_info.spdm_version@, final(self).common.negotiate_info.spdm_version_sel),
            r is Ok ==> exists|theirs: Seq<SpdmVersionStruct>| highest_common(old(self).common.config_info.spdm_version@, theirs,
                final(self).common.negotiate_info.spdm_version_sel),
            r is Ok ==> final(self).common.runtime_info.message_a@.len() >= 4 && final(self).common.runtime_info.message_a@.take(4)
                == spec_get_version_request(old(self).common.config_info.spdm_version@),
            old(self).common.config_info.spdm_version@.len() == 0 ==> r == Err::<(), SpdmStatus>(SpdmStatus::InvalidParameter),
            r is Err ==> final(self).common.runtime_info.connection_state == old(self).common.runtime_info.connection_state,
            final(self).common.config_info.spdm_version@ == old(self).common.config_info.spdm_version@,
            final(self).common.config_info == old(self).common.config_info,
    {
        let n = self.common.config_info.spdm_version.len();
        if n == 0 {
            return Err(SpdmStatus::InvalidParameter);
        }
        let request = get_version_request(&self.common.config_info.spdm_version);
        self.common.runtime_info.message_a.reset_message();
        self.common.runtime_info.message_b.reset_message();
        self.common.runtime_info.message_c.reset_message();
        let rsp = self.exchange_a(&request, SPDM_VERSION)?;
        assert(self.common.runtime_info.message_a@.take(4) =~= request@);
        let mut reader = Reader::init(rsp.as_slice());
        if SpdmMessageHeader::read(&mut reader).is_none() {
            return Err(SpdmStatus::DecodeFailure);
        }
        let payload = match SpdmVersionResponsePayload::spdm_read(&mut reader) {
            Some(p) => p,
            None => {
                return Err(SpdmStatus::DecodeFailure);
            },
        };
        let best = select_version(&self.common.config_info.spdm_version, &payload.versions);
        match best {
            Some(b) => {
                self.common.negotiate_info.spdm_version_sel = b;
                self.common.runtime_info.connection_state = SpdmConnectionState::SpdmConnectionAfterVersion;
                Ok(())
            },
            None => Err(SpdmStatus::Unsupported),
        }
    }

    /// GET_CAPABILITIES / CAPABILITIES: records the flags both sides hold
    /// in both selections.
    pub fn send_receive_spdm_capability(&mut self) -> (r: SpdmResult)
        requires
            old(self).common.wf(),
        ensures
            final(self).common.wf(),
            final(self).common.session_pool == old(self).common.session_pool,
            r is Ok ==> final(self).common.runtime_info.connection_state == SpdmConnectionState::SpdmConnectionAfterCapabilities,
            r is Ok ==> final(self).common.negotiate_info.req_capabilities_sel == final(self).common.negotiate_info.rsp_capabilities_sel,
            r is Ok ==> final(self).common.negotiate_info.req_capabilities_sel & old(self).common.config_info.req_capabilities
                == final(self).common.negotiate_info.req_capabilities_sel,
            r is Ok ==> exists|f: u32| final(self).common.negotiate_info.req_capabilities_sel == f
                & old(self).common.config_info.req_capabilities,
            r is Ok ==> exists|x: Seq<u8>| final(self).common.runtime_info.message_a@ == old(self).common.runtime_info.message_a@ + x,
            r is Err ==> final(self).common.runtime_info.connection_state == old(self).common.runtime_info.connection_state,
            final(self).common.config_info == old(self).common.config_info,
            final(self).common.config_info.spdm_version@ == old(self).common.config_info.spdm_version@,
            final(self).common.negotiate_info.spdm_version_sel == old(self).common.negotiate_info.spdm_version_sel,
    {
        if self.common.runtime_info.connection_state != SpdmConnectionState::SpdmConnectionAfterVersion {
            return Err(SpdmStatus::InvalidState);
        }
        let version = self.common.negotiate_info.spdm_version_sel;
        let mut request: Vec<u8> = Vec::new();
        SpdmMessageHeader { version, request_response_code: SPDM_GET_CAPABILITIES }.encode(&mut request);
        SpdmCapabilitiesPayload {
            ct_exponent: self.common.config_info.req_ct_exponent,
            flags: self.common.config_info.req_capabilities,
        }.spdm_encode(&mut request);
        let rsp = self.exchange_a(&request, SPDM_CAPABILITIES)?;
        assert(self.common.runtime_info.message_a@ =~= old(self).common.runtime_info.message_a@ + (request@ + rsp@));
        let mut reader = Reader::init(rsp.as_slice());
        if SpdmMessageHeader::read(&mut reader).is_none() {
            return Err(SpdmStatus::DecodeFailure);
        }
        let payload = match SpdmCapabilitiesPayload::spdm_read(&mut reader) {
            Some(p) => p,
            None => {
                return Err(SpdmStatus::DecodeFailure);
            },
        };
        let offered = self.common.config_info.req_capabilities;
        let answered = payload.flags;
        let common_flags = answered & offered;
        assert(common_flags & offered == common_flags) by (bit_vector)
            requires
                common_flags == answered & offered,
        ;
        self.common.negotiate_info.req_ct_exponent_sel = self.common.config_info.req_ct_exponent;
        self.common.negotiate_info.rsp_ct_exponent_sel = payload.ct_exponent;
        self.common.negotiate_info.req_capabilities_sel = common_flags;
        self.common.negotiate_info.rsp_capabilities_sel = common_flags;
        self.common.runtime_info.connection_state = SpdmConnectionState::SpdmConnectionAfterCapabilities;
        assert(self.common.negotiate_info.req_capabilities_sel == answered & offered);
        Ok(())
    }

    /// NEGOTIATE_ALGORITHMS / ALGORITHMS: offers the configured masks and
    /// accepts only selections that are a single offered bit (or none).
    pub fn send_receive_spdm_algorithm(&mut self) -> (r: SpdmResult)
        requires
            old(self).common.wf(),
        ensures
            final(self).common.wf(),
            final(self).common.session_pool == old(self).common.session_pool,
            r is Ok ==> final(self).common.runtime_info.connection_state == SpdmConnectionState::SpdmConnectionNegotiated,
            r is Ok ==> selection_ok(final(self).common.negotiate_info.base_hash_sel.bits, old(self).common.config_info.base_hash_algo.bits),
            r is Ok ==> selection_ok(final(self).common.negotiate_info.base_asym_sel.bits, old(self).common.config_info.base_asym_algo.bits),
            r is Ok ==> selection_ok(final(self).common.negotiate_info.dhe_sel.bits as u32, old(self).common.config_info.dhe_algo.bits as u32),
            r is Ok ==> selection_ok(final(self).common.negotiate_info.aead_sel.bits as u32, old(self).common.config_info.aead_algo.bits as u32),
            r is Ok ==> exists|x: Seq<u8>| final(self).common.runtime_info.message_a@ == old(self).common.runtime_info.message_a@ + x,
            r is Err ==> final(self).common.runtime_info.connection_state == old(self).common.runtime_info.connection_state,
            final(self).common.negotiate_info.req_capabilities_sel == old(self).common.negotiate_info.req_capabilities_sel,
            final(self).common.negotiate_info.rsp_capabilities_sel == old(self).common.negotiate_info.rsp_capabilities_sel,
            final(self).common.config_info == old(self).common.config_info,
            final(self).common.config_info.spdm_version@ == old(self).common.config_info.spdm_version@,
            final(self).common.negotiate_info.spdm_version_sel == old(self).common.negotiate_info.spdm_version_sel,
    {
        if self.common.runtime_info.connection_state != SpdmConnectionState::SpdmConnectionAfterCapabilities {
            return Err(SpdmStatus::InvalidState);
        }
        let version = self.common.negotiate_info.spdm_version_sel;
        let cfg = &self.common.config_info;
        let offer = SpdmAlgorithmsPayload {
            measurement_specification: cfg.measurement_specification,
            measurement_hash_algo: 0,
            base_asym_algo: cfg.base_asym_algo.bits,
            base_hash_algo: cfg.base_hash_algo.bits,
            dhe: cfg.dhe_algo.bits,
            aead: cfg.aead_algo.bits,
            req_asym: cfg.req_asym_algo,
            key_schedule: cfg.key_schedule_algo.bits,
        };
        let mut request: Vec<u8> = Vec::new();
        SpdmMessageHeader { version, request_response_code: SPDM_NEGOTIATE_ALGORITHMS }.encode(&mut request);
        offer.encode_negotiate_algorithms(&mut request);
        let rsp = self.exchange_a(&request, SPDM_ALGORITHMS)?;
        assert(self.common.runtime_info.message_a@ =~= old(self).common.runtime_info.message_a@ + (request@ + rsp@));
        let mut reader = Reader::init(rsp.as_slice());
        if SpdmMessageHeader::read(&mut reader).is_none() {
            return Err(SpdmStatus::DecodeFailure);
        }
        let sel = match SpdmAlgorithmsPayload::read_algorithms(&mut reader) {
            Some(p) => p,
            None => {
                return Err(SpdmStatus::DecodeFailure);
            },
        };
        if !selection_ok_exec(sel.base_hash_algo, offer.base_hash_algo) || !selection_ok_exec(sel.base_asym_algo, offer.base_asym_algo)
            || !selection_ok_exec(sel.dhe as u32, offer.dhe as u32) || !selection_ok_exec(sel.aead as u32, offer.aead as u32)
            || !selection_ok_exec(sel.key_schedule as u32, offer.key_schedule as u32) {
            return Err(SpdmStatus::DecodeFailure);
        }
        self.common.negotiate_info.measurement_specification_sel = sel.measurement_specification;
        self.common.negotiate_info.measurement_hash_sel = sel.measurement_hash_algo;
        self.common.negotiate_info.base_hash_sel = SpdmBaseHashAlgo { bits: sel.base_hash_algo };
        self.common.negotiate_info.base_asym_sel = SpdmBaseAsymAlgo { bits: sel.base_asym_algo };
        self.common.negotiate_info.dhe_sel = SpdmDheAlgo { bits: sel.dhe };
        self.common.negotiate_info.aead_sel = SpdmAeadAlgo { bits: sel.aead };
        self.common.negotiate_info.req_asym_sel = sel.req_asym;
        self.common.negotiate_info.key_schedule_sel = SpdmKeyScheduleAlgo { bits: sel.key_schedule };
        self.common.runtime_info.connection_state = SpdmConnectionState::SpdmConnectionNegotiated;
        Ok(())
    }

    /// VERSION, then CAPABILITIES, then ALGORITHMS, in order; the first
    /// failure stops the sequence and is returned (each later step needs the
    /// state the earlier one leaves).
    pub fn init_connection(&mut self) -> (r: SpdmResult)
        requires
            old(self).common.wf(),
        ensures
            final(self).common.wf(),
            final(self).common.session_pool == old(self).common.session_pool,
            r is Ok ==> final(self).common.runtime_info.connection_state == SpdmConnectionState::SpdmConnectionNegotiated,
            r is Ok ==> holds_version(old(self).common.config_info.spdm_version@, final(self).common.negotiate_info.spdm_version_sel),
            r is Ok ==> exists|theirs: Seq<SpdmVersionStruct>| highest_common(old(self).common.config_info.spdm_version@, theirs,
                final(self).common.negotiate_info.spdm_version_sel),
            r is Ok ==> final(self).common.runtime_info.message_a@.len() >= 4 && final(self).common.runtime_info.message_a@.take(4)
                == spec_get_version_request(old(self).common.config_info.spdm_version@),
            r is Ok ==> final(self).common.negotiate_info.req_capabilities_sel == final(self).common.negotiate_info.rsp_capabilities_sel,
            r is Ok ==> exists|f: u32| final(self).common.negotiate_info.req_capabilities_sel == f & old(self).common.config_info.req_capabilities,
            old(self).common.config_info.spdm_version@.len() == 0 ==> r == Err::<(), SpdmStatus>(SpdmStatus::InvalidParameter),
            r is Err ==> final(self).common.runtime_info.connection_state != SpdmConnectionState::SpdmConnectionNegotiated
                || old(self).common.runtime_info.connection_state == SpdmConnectionState::SpdmConnectionNegotiated,
    {
        let result = self.send_receive_spdm_version();
        if result.is_err() {
            return result;
        }
        let ghost after_version = self.common.runtime_info.message_a@;
        let result = self.send_receive_spdm_capability();
        if result.is_err() {
            return result;
        }
        let ghost after_capability = self.common.runtime_info.message_a@;
        let r = self.send_receive_spdm_algorithm();
        proof {
            if r is Ok {
                let x1 = choose|x: Seq<u8>| after_capability == after_version + x;
                let x2 = choose|x: Seq<u8>| self.common.runtime_info.message_a@ == after_capability + x;
                assert(self.common.runtime_info.message_a@.take(4) =~= after_version.take(4));
            }
        }
        r
    }
}

} // verus!
