//! The context shared by both roles: injected I/O and transport, the crypto
//! registry, configuration, negotiated selections, transcripts and sessions.
use vstd::prelude::*;
use crate::crypto::{hash, SpdmCryptoProvider, SpdmCryptoRegistry};
use crate::error::SpdmResult;
use crate::msgs::{
    asym_size, dhe_size, hash_size, SpdmAeadAlgo, SpdmBaseAsymAlgo, SpdmBaseHashAlgo, SpdmDheAlgo,
    SpdmDigestStruct, SpdmKeyScheduleAlgo, SpdmVersion,
};
use crate::session::SpdmSessionPool;
use crate::transcript::ManagedBuffer;

verus! {

/// Sends and receives whole transport frames.
pub trait SpdmDeviceIo {
    fn send(&mut self, buffer: &[u8]) -> SpdmResult;

    fn receive(&mut self) -> SpdmResult<Vec<u8>>;
}

/// Wraps SPDM messages in the transport's framing and unwraps them.
pub trait SpdmTransportEncap {
    fn encap(&mut self, spdm_buffer: &[u8], secured_message: bool) -> SpdmResult<Vec<u8>>;

    /// The SPDM bytes of a frame, and whether the frame is a secured record.
    fn decap(&mut self, transport_buffer: &[u8]) -> SpdmResult<(Vec<u8>, bool)>;

    fn encap_app(&mut self, spdm_buffer: &[u8]) -> SpdmResult<Vec<u8>>;

    fn decap_app(&mut self, app_buffer: &[u8]) -> SpdmResult<Vec<u8>>;

    fn get_sequence_number_count(&mut self) -> u8;

    fn get_max_random_count(&mut self) -> u8;
}

pub const SPDM_CERT_CAP: u32 = 0x2;
pub const SPDM_CHAL_CAP: u32 = 0x4;
pub const SPDM_MEAS_CAP_SIG: u32 = 0x10;
pub const SPDM_ENCRYPT_CAP: u32 = 0x40;
pub const SPDM_MAC_CAP: u32 = 0x80;
pub const SPDM_KEY_EX_CAP: u32 = 0x200;
pub const SPDM_PSK_CAP: u32 = 0x400;
pub const SPDM_HBEAT_CAP: u32 = 0x2000;
pub const SPDM_KEY_UPD_CAP: u32 = 0x4000;

/// What this endpoint supports and prefers.
#[derive(Debug, Clone)]
pub struct SpdmConfigInfo {
    pub spdm_version: Vec<SpdmVersion>,
    pub req_capabilities: u32,
    pub rsp_capabilities: u32,
    pub req_ct_exponent: u8,
    pub rsp_ct_exponent: u8,
    pub measurement_specification: u8,
    pub measurement_hash_algo: u32,
    pub base_hash_algo: SpdmBaseHashAlgo,
    pub base_asym_algo: SpdmBaseAsymAlgo,
    pub dhe_algo: SpdmDheAlgo,
    pub aead_algo: SpdmAeadAlgo,
    pub req_asym_algo: u16,
    pub key_schedule_algo: SpdmKeyScheduleAlgo,
}

/// Provisioned trust material.
#[derive(Debug, Clone)]
pub struct SpdmProvisionInfo {
    /// This endpoint's certificate chain, as sent in CERTIFICATE.
    pub my_cert_chain: Option<Vec<u8>>,
    /// The peer's certificate chain, once known.
    pub peer_cert_chain: Option<Vec<u8>>,
    /// The pre-shared key.
    pub psk: Vec<u8>,
    /// The measurement record this device reports, encoded (count, 24-bit
    /// length, blocks); the measurement summary hash is taken over it.
    pub measurement_data: Vec<u8>,
}

/// The selections both sides agreed on.
#[derive(Debug, Clone, Copy, PartialEq, Eq, Structural)]
pub struct SpdmNegotiateInfo {
    pub spdm_version_sel: SpdmVersion,
    pub req_ct_exponent_sel: u8,
    pub req_capabilities_sel: u32,
    pub rsp_ct_exponent_sel: u8,
    pub rsp_capabilities_sel: u32,
    pub measurement_specification_sel: u8,
    pub measurement_hash_sel: u32,
    pub base_hash_sel: SpdmBaseHashAlgo,
    pub base_asym_sel: SpdmBaseAsymAlgo,
    pub dhe_sel: SpdmDheAlgo,
    pub aead_sel: SpdmAeadAlgo,
    pub req_asym_sel: u16,
    pub key_schedule_sel: SpdmKeyScheduleAlgo,
}

/// How far the connection has come.
#[derive(Debug, Clone, Copy, PartialEq, Eq, Structural)]
pub enum SpdmConnectionState {
    SpdmConnectionNotStarted,
    SpdmConnectionAfterVersion,
    SpdmConnectionAfterCapabilities,
    SpdmConnectionNegotiated,
}

#[derive(Debug, Clone)]
pub struct SpdmRuntimeInfo {
    pub connection_state: SpdmConnectionState,
    pub need_measurement_summary_hash: bool,
    pub message_a: ManagedBuffer,
    pub message_b: ManagedBuffer,
    pub message_c: ManagedBuffer,
    /// Measurement exchanges since the last signed one.
    pub message_m: ManagedBuffer,
}

pub struct SpdmContext<D, T, C> {
    pub device_io: D,
    pub transport_encap: T,
    pub crypto: SpdmCryptoRegistry<C>,
    pub config_info: SpdmConfigInfo,
    pub provision_info: SpdmProvisionInfo,
    pub negotiate_info: SpdmNegotiateInfo,
    pub runtime_info: SpdmRuntimeInfo,
    pub session_pool: SpdmSessionPool,
}

/// Nothing negotiated yet.
pub open spec fn initial_negotiate_info() -> SpdmNegotiateInfo {
    SpdmNegotiateInfo {
        spdm_version_sel: SpdmVersion::SpdmVersion10,
        req_ct_exponent_sel: 0,
        req_capabilities_sel: 0,
        rsp_ct_exponent_sel: 0,
        rsp_capabilities_sel: 0,
        measurement_specification_sel: 0,
        measurement_hash_sel: 0,
        base_hash_sel: SpdmBaseHashAlgo { bits: 0 },
        base_asym_sel: SpdmBaseAsymAlgo { bits: 0 },
        dhe_sel: SpdmDheAlgo { bits: 0 },
        aead_sel: SpdmAeadAlgo { bits: 0 },
        req_asym_sel: 0,
        key_schedule_sel: SpdmKeyScheduleAlgo { bits: 0 },
    }
}

impl<D, T, C> SpdmContext<D, T, C> {
    /// The transcripts and the session pool are well formed.
    pub open spec fn wf(&self) -> bool {
        &&& self.runtime_info.message_a.wf()
        &&& self.runtime_info.message_b.wf()
        &&& self.runtime_info.message_c.wf()
        &&& self.runtime_info.message_m.wf()
        &&& self.session_pool.wf()
    }

    pub fn new(
        device_io: D,
        transport_encap: T,
        crypto: SpdmCryptoRegistry<C>,
        config_info: SpdmConfigInfo,
        provision_info: SpdmProvisionInfo,
    ) -> (c: SpdmContext<D, T, C>)
        ensures
            c.wf(),
            c.device_io == device_io,
            c.transport_encap == transport_encap,
            c.crypto == crypto,
            c.negotiate_info == initial_negotiate_info(),
            c.runtime_info.connection_state == SpdmConnectionState::SpdmConnectionNotStarted,
            c.runtime_info.message_a@.len() == 0,
            c.runtime_info.message_b@.len() == 0,
            c.runtime_info.message_c@.len() == 0,
            forall|i: int| 0 <= i < c.session_pool.sessions@.len() ==> !crate::session::is_active(#[trigger] c.session_pool.sessions@[i]),
    {
        SpdmContext {
            device_io,
            transport_encap,
            crypto,
            config_info,
            provision_info,
            negotiate_info: SpdmNegotiateInfo {
                spdm_version_sel: SpdmVersion::SpdmVersion10,
                req_ct_exponent_sel: 0,
                req_capabilities_sel: 0,
                rsp_ct_exponent_sel: 0,
                rsp_capabilities_sel: 0,
                measurement_specification_sel: 0,
                measurement_hash_sel: 0,
                base_hash_sel: SpdmBaseHashAlgo { bits: 0 },
                base_asym_sel: SpdmBaseAsymAlgo { bits: 0 },
                dhe_sel: SpdmDheAlgo { bits: 0 },
                aead_sel: SpdmAeadAlgo { bits: 0 },
                req_asym_sel: 0,
                key_schedule_sel: SpdmKeyScheduleAlgo { bits: 0 },
            },
            runtime_info: SpdmRuntimeInfo {
                connection_state: SpdmConnectionState::SpdmConnectionNotStarted,
                need_measurement_summary_hash: false,
                message_a: ManagedBuffer::new(),
                message_b: ManagedBuffer::new(),
                message_c: ManagedBuffer::new(),
                message_m: ManagedBuffer::new(),
            },
            session_pool: SpdmSessionPool::new(),
        }
    }

    /// Digest length of the negotiated hash.
    pub fn get_hash_size(&self) -> (r: u16)
        ensures
            r == hash_size(self.negotiate_info.base_hash_sel.bits),
    {
        self.negotiate_info.base_hash_sel.get_size()
    }

    /// Signature length of the negotiated asymmetric algorithm.
    pub fn get_asym_key_size(&self) -> (r: u16)
        ensures
            r == asym_size(self.negotiate_info.base_asym_sel.bits),
    {
        self.negotiate_info.base_asym_sel.get_size()
    }

    /// Public value length of the negotiated DHE group.
    pub fn get_dhe_key_size(&self) -> (r: u16)
        ensures
            r == dhe_size(self.negotiate_info.dhe_sel.bits),
    {
        self.negotiate_info.dhe_sel.get_size()
    }

    /// The session-establishment transcript `message_a || Ct || message_k
    /// || message_f`, where `Ct` is the certificate chain hash (absent in
    /// PSK sessions); `None` when it does not fit a transcript buffer.
    pub fn calc_transcript_data(
        &self,
        cert_chain_hash: Option<&SpdmDigestStruct>,
        message_k: &ManagedBuffer,
        message_f: Option<&ManagedBuffer>,
    ) -> (r: Option<ManagedBuffer>)
        requires
            self.wf(),
            message_k.wf(),
            message_f matches Some(f) ==> f.wf(),
        ensures
            r matches Some(t) ==> t.wf() && t@ == self.runtime_info.message_a@
                + (match cert_chain_hash { Some(h) => h@, None => Seq::empty() })
                + message_k@
                + (match message_f { Some(f) => f@, None => Seq::empty() }),
            r is None ==> self.runtime_info.message_a@.len()
                + (match cert_chain_hash { Some(h) => h@.len(), None => 0nat })
                + message_k@.len()
                + (match message_f { Some(f) => f@.len(), None => 0nat }) > crate::config::MAX_SPDM_MESSAGE_BUFFER_SIZE,
    {
        let mut t = ManagedBuffer::new();
        t.append_message(self.runtime_info.message_a.as_slice())?;
        if let Some(h) = cert_chain_hash {
            t.append_message(h.data.as_slice())?;
        }
        t.append_message(message_k.as_slice())?;
        if let Some(f) = message_f {
            t.append_message(f.as_slice())?;
        }
        Some(t)
    }
}

impl<D, T, C: SpdmCryptoProvider> SpdmContext<D, T, C> {
    /// Hash of the transcript built by [`Self::calc_transcript_data`].
    pub fn calc_transcript_hash(
        &self,
        cert_chain_hash: Option<&SpdmDigestStruct>,
        message_k: &ManagedBuffer,
        message_f: Option<&ManagedBuffer>,
    ) -> (r: Option<SpdmDigestStruct>)
        requires
            self.wf(),
            message_k.wf(),
            message_f matches Some(f) ==> f.wf(),
        ensures
            r matches Some(d) ==> d@.len() == hash_size(self.negotiate_info.base_hash_sel.bits) > 0,
    {
        let data = self.calc_transcript_data(cert_chain_hash, message_k, message_f)?;
        hash::hash_all(&self.crypto, self.negotiate_info.base_hash_sel, data.as_slice())
    }

    /// Hash of this endpoint's or the peer's certificate chain, `Ct`.
    pub fn cert_chain_hash(&self, mine: bool) -> (r: Option<SpdmDigestStruct>)
        ensures
            r matches Some(d) ==> d@.len() == hash_size(self.negotiate_info.base_hash_sel.bits) > 0,
    {
        let chain = if mine { &self.provision_info.my_cert_chain } else { &self.provision_info.peer_cert_chain };
        match chain {
            Some(c) => {
                if c.len() as u64 >= 0x1000_0000_0000_0000u64 {
                    return None;
                }
                hash::hash_all(&self.crypto, self.negotiate_info.base_hash_sel, c.as_slice())
            },
            None => None,
        }
    }
}

} // verus!
