use spdmlib::requester::session_req::{accept_key_exchange_rsp, accept_psk_exchange_rsp};
use std::cell::RefCell;
use std::collections::VecDeque;
use std::rc::Rc;

use spdmlib::common::{
    SpdmConfigInfo, SpdmConnectionState, SpdmDeviceIo, SpdmProvisionInfo, SpdmTransportEncap, SPDM_CERT_CAP,
    SPDM_CHAL_CAP, SPDM_ENCRYPT_CAP, SPDM_HBEAT_CAP, SPDM_KEY_EX_CAP, SPDM_MAC_CAP, SPDM_PSK_CAP,
};
use spdmlib::crypto::{aead, asym_sign, asym_verify, cert_operation, dhe, hkdf, hmac, SpdmCryptoProvider, SpdmCryptoRegistry};
use spdmlib::error::{SpdmResult, SpdmStatus};
use spdmlib::msgs::{
    SpdmAeadAlgo, SpdmBaseAsymAlgo, SpdmBaseHashAlgo, SpdmDheAlgo, SpdmDheExchangeStruct, SpdmDheFinalKeyStruct,
    SpdmDigestStruct, SpdmKeyScheduleAlgo, SpdmSignatureStruct, SpdmVersion, SPDM_AEAD_AES_256_GCM,
    SPDM_ASYM_ECDSA_P384, SPDM_DHE_FFDHE_3072, SPDM_HASH_SHA_384, SPDM_KEY_SCHEDULE_SPDM,
};
use spdmlib::requester::RequesterContext;
use spdmlib::responder::ResponderContext;
use spdmlib::session::SpdmSessionState;

type Queue = Rc<RefCell<VecDeque<Vec<u8>>>>;

/// Test double for the crypto capabilities: HMAC, HKDF and AES-GCM from
/// ring; a keyed-hash stand-in for signatures and for key agreement.
#[derive(Clone)]
struct TestCrypto;

fn hmac_alg(algo: SpdmBaseHashAlgo) -> ring::hmac::Algorithm {
    match algo.bits {
        SPDM_HASH_SHA_384 => ring::hmac::HMAC_SHA384,
        0x4 => ring::hmac::HMAC_SHA512,
        _ => ring::hmac::HMAC_SHA256,
    }
}

fn sha384(data: &[u8]) -> Vec<u8> {
    ring::digest::digest(&ring::digest::SHA384, data).as_ref().to_vec()
}

impl SpdmCryptoProvider for TestCrypto {
    fn hash_all(&self, _algo: SpdmBaseHashAlgo, data: &[u8]) -> Option<SpdmDigestStruct> {
        Some(SpdmDigestStruct { data: sha384(data) })
    }

    fn hmac(&self, algo: SpdmBaseHashAlgo, key: &[u8], data: &[u8]) -> Option<SpdmDigestStruct> {
        let k = ring::hmac::Key::new(hmac_alg(algo), key);
        Some(SpdmDigestStruct { data: ring::hmac::sign(&k, data).as_ref().to_vec() })
    }

    fn hmac_verify(&self, algo: SpdmBaseHashAlgo, key: &[u8], data: &[u8], mac: &SpdmDigestStruct) -> SpdmResult {
        let k = ring::hmac::Key::new(hmac_alg(algo), key);
        ring::hmac::verify(&k, data, &mac.data).map_err(|_| SpdmStatus::CryptoFailure)
    }

    fn hkdf_expand(&self, algo: SpdmBaseHashAlgo, prk: &[u8], info: &[u8], out_size: u16) -> Option<SpdmDigestStruct> {
        let k = ring::hmac::Key::new(hmac_alg(algo), prk);
        let mut out = Vec::new();
        let mut t: Vec<u8> = Vec::new();
        let mut counter = 1u8;
        while out.len() < out_size as usize {
            let mut input = t.clone();
            input.extend_from_slice(info);
            input.push(counter);
            t = ring::hmac::sign(&k, &input).as_ref().to_vec();
            out.extend_from_slice(&t);
            counter += 1;
        }
        out.truncate(out_size as usize);
        Some(SpdmDigestStruct { data: out })
    }

    fn encrypt(&self, _algo: SpdmAeadAlgo, key: &[u8], iv: &[u8], aad: &[u8], plain: &[u8]) -> SpdmResult<(Vec<u8>, Vec<u8>)> {
        let unbound = ring::aead::UnboundKey::new(&ring::aead::AES_256_GCM, key).map_err(|_| SpdmStatus::CryptoFailure)?;
        let key = ring::aead::LessSafeKey::new(unbound);
        let mut nonce = [0u8; 12];
        nonce.copy_from_slice(iv);
        let mut data = plain.to_vec();
        let tag = key
            .seal_in_place_separate_tag(ring::aead::Nonce::assume_unique_for_key(nonce), ring::aead::Aad::from(aad), &mut data)
            .map_err(|_| SpdmStatus::CryptoFailure)?;
        Ok((data, tag.as_ref().to_vec()))
    }

    fn decrypt(&self, _algo: SpdmAeadAlgo, key: &[u8], iv: &[u8], aad: &[u8], cipher: &[u8], tag: &[u8]) -> SpdmResult<Vec<u8>> {
        let unbound = ring::aead::UnboundKey::new(&ring::aead::AES_256_GCM, key).map_err(|_| SpdmStatus::CryptoFailure)?;
        let key = ring::aead::LessSafeKey::new(unbound);
        let mut nonce = [0u8; 12];
        nonce.copy_from_slice(iv);
        let mut data = cipher.to_vec();
        data.extend_from_slice(tag);
        let plain = key
            .open_in_place(ring::aead::Nonce::assume_unique_for_key(nonce), ring::aead::Aad::from(aad), &mut data)
            .map_err(|_| SpdmStatus::CryptoFailure)?;
        Ok(plain.to_vec())
    }

    fn sign(&self, _hash: SpdmBaseHashAlgo, _asym: SpdmBaseAsymAlgo, data: &[u8]) -> Option<SpdmSignatureStruct> {
        let mut s = sha384(data);
        s.extend_from_slice(&sha384(&s));
        Some(SpdmSignatureStruct { data: s })
    }

    fn verify(&self, hash: SpdmBaseHashAlgo, asym: SpdmBaseAsymAlgo, _cert: &[u8], data: &[u8], sig: &SpdmSignatureStruct) -> SpdmResult {
        match self.sign(hash, asym, data) {
            Some(s) if s.data == sig.data => Ok(()),
            _ => Err(SpdmStatus::CryptoFailure),
        }
    }

    fn generate_key_pair(&self, algo: SpdmDheAlgo) -> Option<(SpdmDheExchangeStruct, Vec<u8>)> {
        let n = algo.get_size() as usize;
        let mut public = vec![0u8; n];
        ring::rand::SecureRandom::fill(&ring::rand::SystemRandom::new(), &mut public).ok()?;
        Some((SpdmDheExchangeStruct { data: public.clone() }, public))
    }

    fn compute_final_key(&self, _algo: SpdmDheAlgo, private_key: Vec<u8>, peer: &SpdmDheExchangeStruct) -> Option<SpdmDheFinalKeyStruct> {
        let (a, b) = if private_key <= peer.data { (private_key, peer.data.clone()) } else { (peer.data.clone(), private_key) };
        let mut input = a;
        input.extend_from_slice(&b);
        Some(SpdmDheFinalKeyStruct { data: sha384(&input) })
    }

    fn get_cert_from_cert_chain(&self, chain: &[u8], _index: isize) -> SpdmResult<(usize, usize)> {
        Ok((0, chain.len()))
    }

    fn verify_cert_chain(&self, _chain: &[u8]) -> SpdmResult {
        Ok(())
    }
}

fn registry() -> SpdmCryptoRegistry<TestCrypto> {
    let mut r = SpdmCryptoRegistry::new();
    assert!(hmac::register(&mut r, TestCrypto));
    assert!(hkdf::register(&mut r, TestCrypto));
    assert!(aead::register(&mut r, TestCrypto));
    assert!(asym_sign::register(&mut r, TestCrypto));
    assert!(asym_verify::register(&mut r, TestCrypto));
    assert!(dhe::register(&mut r, TestCrypto));
    assert!(cert_operation::register(&mut r, TestCrypto));
    r
}

/// Frames: one flag byte (1 = secured) then the message.
struct TestTransport;

impl SpdmTransportEncap for TestTransport {
    fn encap(&mut self, spdm: &[u8], secured: bool) -> SpdmResult<Vec<u8>> {
        let mut v = vec![secured as u8];
        v.extend_from_slice(spdm);
        Ok(v)
    }
    fn decap(&mut self, frame: &[u8]) -> SpdmResult<(Vec<u8>, bool)> {
        if frame.is_empty() {
            return Err(SpdmStatus::DecodeFailure);
        }
        Ok((frame[1..].to_vec(), frame[0] == 1))
    }
    fn encap_app(&mut self, spdm: &[u8]) -> SpdmResult<Vec<u8>> {
        Ok(spdm.to_vec())
    }
    fn decap_app(&mut self, app: &[u8]) -> SpdmResult<Vec<u8>> {
        Ok(app.to_vec())
    }
    fn get_sequence_number_count(&mut self) -> u8 {
        8
    }
    fn get_max_random_count(&mut self) -> u8 {
        0
    }
}

/// The responder's side of the link.
struct ResponderIo {
    inbox: Queue,
    outbox: Queue,
}

impl SpdmDeviceIo for ResponderIo {
    fn send(&mut self, buffer: &[u8]) -> SpdmResult {
        self.outbox.borrow_mut().push_back(buffer.to_vec());
        Ok(())
    }
    fn receive(&mut self) -> SpdmResult<Vec<u8>> {
        self.inbox.borrow_mut().pop_front().ok_or(SpdmStatus::IoFailure)
    }
}

type Responder = ResponderContext<ResponderIo, TestTransport, TestCrypto>;

/// The requester's side: receiving runs the responder on what was sent.
struct RequesterIo {
    to_responder: Queue,
    from_responder: Queue,
    responder: Rc<RefCell<Responder>>,
}

impl SpdmDeviceIo for RequesterIo {
    fn send(&mut self, buffer: &[u8]) -> SpdmResult {
        self.to_responder.borrow_mut().push_back(buffer.to_vec());
        Ok(())
    }
    fn receive(&mut self) -> SpdmResult<Vec<u8>> {
        if self.from_responder.borrow().is_empty() {
            let _ = self.responder.borrow_mut().process_message();
        }
        self.from_responder.borrow_mut().pop_front().ok_or(SpdmStatus::IoFailure)
    }
}

fn config() -> SpdmConfigInfo {
    SpdmConfigInfo {
        spdm_version: vec![SpdmVersion::SpdmVersion10, SpdmVersion::SpdmVersion11],
        req_capabilities: SPDM_CERT_CAP | SPDM_CHAL_CAP | SPDM_ENCRYPT_CAP | SPDM_MAC_CAP | SPDM_KEY_EX_CAP | SPDM_PSK_CAP | SPDM_HBEAT_CAP,
        rsp_capabilities: SPDM_CERT_CAP | SPDM_CHAL_CAP | SPDM_ENCRYPT_CAP | SPDM_MAC_CAP | SPDM_KEY_EX_CAP | SPDM_PSK_CAP | SPDM_HBEAT_CAP,
        req_ct_exponent: 0,
        rsp_ct_exponent: 0,
        measurement_specification: 1,
        measurement_hash_algo: 0x4,
        base_hash_algo: SpdmBaseHashAlgo { bits: SPDM_HASH_SHA_384 },
        base_asym_algo: SpdmBaseAsymAlgo { bits: SPDM_ASYM_ECDSA_P384 },
        dhe_algo: SpdmDheAlgo { bits: SPDM_DHE_FFDHE_3072 },
        aead_algo: SpdmAeadAlgo { bits: SPDM_AEAD_AES_256_GCM },
        req_asym_algo: 0,
        key_schedule_algo: SpdmKeyScheduleAlgo { bits: SPDM_KEY_SCHEDULE_SPDM },
    }
}

/// One firmware block of four raw bytes: count, 24-bit length, block.
fn measurement_record() -> Vec<u8> {
    vec![1, 11, 0, 0, 1, 1, 7, 0, 0x81, 4, 0, 1, 2, 3, 4]
}

fn provision() -> SpdmProvisionInfo {
    SpdmProvisionInfo {
        my_cert_chain: Some(b"test certificate chain".to_vec()),
        peer_cert_chain: Some(b"test certificate chain".to_vec()),
        psk: b"TestPskData\0".to_vec(),
        measurement_data: measurement_record(),
    }
}

struct Link {
    requester: RequesterContext<RequesterIo, TestTransport, TestCrypto>,
    responder: Rc<RefCell<Responder>>,
    sent_by_responder: Queue,
}

fn link() -> Link {
    let to_responder: Queue = Rc::new(RefCell::new(VecDeque::new()));
    let from_responder: Queue = Rc::new(RefCell::new(VecDeque::new()));
    let responder = Rc::new(RefCell::new(ResponderContext::new(
        ResponderIo { inbox: to_responder.clone(), outbox: from_responder.clone() },
        TestTransport,
        registry(),
        config(),
        provision(),
    )));
    let requester = RequesterContext::new(
        RequesterIo { to_responder, from_responder: from_responder.clone(), responder: responder.clone() },
        TestTransport,
        registry(),
        config(),
        provision(),
    );
    Link { requester, responder, sent_by_responder: from_responder }
}

fn standalone_responder() -> (Responder, Queue, Queue) {
    let inbox: Queue = Rc::new(RefCell::new(VecDeque::new()));
    let outbox: Queue = Rc::new(RefCell::new(VecDeque::new()));
    let r = ResponderContext::new(
        ResponderIo { inbox: inbox.clone(), outbox: outbox.clone() },
        TestTransport,
        registry(),
        config(),
        provision(),
    );
    (r, inbox, outbox)
}

#[test]
fn version_negotiation() {
    let (mut rsp, _inbox, _outbox) = standalone_responder();
    let answer = rsp.handle_spdm_version(&[0x11, 0x84, 0, 0]);
    assert_eq!(answer, vec![0x11, 0x04, 0, 0, 0, 2, 0, 0x10, 0, 0x11]);
    assert_eq!(rsp.common.negotiate_info.spdm_version_sel, SpdmVersion::SpdmVersion11);
    assert_eq!(rsp.common.runtime_info.connection_state, SpdmConnectionState::SpdmConnectionAfterVersion);
    let mut a = vec![0x11, 0x84, 0, 0];
    a.extend_from_slice(&answer);
    assert_eq!(rsp.common.runtime_info.message_a.as_slice(), &a[..]);

    let mut l = link();
    assert!(l.requester.send_receive_spdm_version().is_ok());
    assert_eq!(l.requester.common.negotiate_info.spdm_version_sel, SpdmVersion::SpdmVersion11);
    assert_eq!(l.responder.borrow().common.negotiate_info.spdm_version_sel, SpdmVersion::SpdmVersion11);
}

#[test]
fn capability_happy_path() {
    let mut l = link();
    assert!(l.requester.send_receive_spdm_version().is_ok());
    assert!(l.requester.send_receive_spdm_capability().is_ok());
    let both = config().req_capabilities & config().rsp_capabilities;
    assert_eq!(l.requester.common.negotiate_info.req_capabilities_sel, both);
    assert_eq!(l.requester.common.negotiate_info.rsp_capabilities_sel, both);
    let r = l.responder.borrow();
    assert_eq!(r.common.negotiate_info.req_capabilities_sel, both);
    assert_eq!(r.common.negotiate_info.rsp_capabilities_sel, both);
    assert_ne!(both & SPDM_CERT_CAP, 0);
    assert_ne!(both & SPDM_CHAL_CAP, 0);
}

#[test]
fn capabilities_before_version_is_unexpected() {
    let (mut rsp, _i, _o) = standalone_responder();
    let mut req = vec![0x11, 0xE1, 0, 0, 0, 0, 0, 0];
    req.extend_from_slice(&(SPDM_CERT_CAP | SPDM_CHAL_CAP).to_le_bytes());
    assert_eq!(rsp.handle_spdm_capability(&req), vec![0x10, 0x7F, 0x04, 0x00]);
}

#[test]
fn algorithm_selection() {
    let mut l = link();
    assert!(l.requester.init_connection().is_ok());
    let n = l.requester.common.negotiate_info;
    assert_eq!(n.base_hash_sel.bits, SPDM_HASH_SHA_384);
    assert_eq!(n.base_asym_sel.bits, SPDM_ASYM_ECDSA_P384);
    assert_eq!(n.dhe_sel.bits, SPDM_DHE_FFDHE_3072);
    assert_eq!(n.aead_sel.bits, SPDM_AEAD_AES_256_GCM);
    assert_eq!(l.responder.borrow().common.negotiate_info, n);
    assert_eq!(l.requester.common.runtime_info.connection_state, SpdmConnectionState::SpdmConnectionNegotiated);
    assert_eq!(
        l.requester.common.runtime_info.message_a.as_slice(),
        l.responder.borrow().common.runtime_info.message_a.as_slice()
    );
}

#[test]
fn key_exchange_finish_session() {
    let mut l = link();
    assert!(l.requester.init_connection().is_ok());
    let id = l.requester.start_session(false, 0, 0).expect("session");
    assert_eq!(id, (0xFFFFu32 << 16) | 0xFFFF);
    let req_index = l.requester.common.session_pool.get_session_via_id(id).unwrap();
    let rs = &l.requester.common.session_pool.sessions[req_index];
    assert_eq!(rs.state, SpdmSessionState::SpdmSessionEstablished);
    let r = l.responder.borrow();
    let rsp_index = r.common.session_pool.get_session_via_id(id).unwrap();
    let ps = &r.common.session_pool.sessions[rsp_index];
    assert_eq!(ps.state, SpdmSessionState::SpdmSessionEstablished);
    assert!(!ps.use_psk);
    // Same transcript on both sides, hence the same TH2.
    assert_eq!(rs.runtime_info.message_k.as_slice(), ps.runtime_info.message_k.as_slice());
    assert_eq!(rs.runtime_info.message_f.as_slice(), ps.runtime_info.message_f.as_slice());
    assert_eq!(rs.master_secret, ps.master_secret);
    assert_eq!(rs.request_direction.key, ps.request_direction.key);
}

#[test]
fn psk_session_and_heartbeat() {
    let mut l = link();
    assert!(l.requester.init_connection().is_ok());
    let id = l.requester.start_session(true, 0, 0).expect("psk session");
    let i = l.requester.common.session_pool.get_session_via_id(id).unwrap();
    let s = &l.requester.common.session_pool.sessions[i];
    assert_eq!(s.state, SpdmSessionState::SpdmSessionEstablished);
    assert!(s.use_psk);
    assert_eq!(s.dhe_secret, b"TestPskData\0".to_vec());
    {
        let r = l.responder.borrow();
        let j = r.common.session_pool.get_session_via_id(id).unwrap();
        assert!(r.common.session_pool.sessions[j].use_psk);
        assert_eq!(r.common.session_pool.sessions[j].state, SpdmSessionState::SpdmSessionEstablished);
    }
    assert!(l.requester.send_receive_spdm_heartbeat(id).is_ok());
    assert!(l.requester.send_receive_spdm_heartbeat(id).is_ok());
}

#[test]
fn end_session_frees_both_sides() {
    let mut l = link();
    assert!(l.requester.init_connection().is_ok());
    let id = l.requester.start_session(true, 0, 0).expect("psk session");
    assert!(l.requester.end_session(id).is_ok());
    assert!(l.requester.common.session_pool.get_session_via_id(id).is_none());
    assert!(l.responder.borrow().common.session_pool.get_session_via_id(id).is_none());
}

#[test]
fn challenge_before_capabilities_is_unexpected() {
    let (mut rsp, _inbox, outbox) = standalone_responder();
    let _ = rsp.handle_spdm_version(&[0x11, 0x84, 0, 0]);
    let mut challenge = vec![0x11, 0x83, 0, 0];
    challenge.extend_from_slice(&[0x5a; 32]);
    assert!(rsp.dispatch_message(&challenge));
    let sent = outbox.borrow_mut().pop_front().unwrap();
    assert_eq!(sent, vec![0, 0x11, 0x7F, 0x04, 0x00]);
    assert_eq!(rsp.common.runtime_info.message_c.len(), 0);
    assert!(rsp.common.session_pool.get_next_available_session() == Some(0));
}

#[test]
fn session_exhaustion() {
    let mut l = link();
    assert!(l.requester.init_connection().is_ok());
    for _ in 0..4 {
        assert!(l.requester.start_session(false, 0, 0).is_ok());
    }
    // The requester's own pool is full too; send a fifth exchange by hand.
    let mut r = l.responder.borrow_mut();
    let states: Vec<(u32, SpdmSessionState)> =
        r.common.session_pool.sessions.iter().map(|s| (s.session_id, s.state)).collect();
    assert!(states.iter().all(|(_, st)| *st == SpdmSessionState::SpdmSessionEstablished));
    let mut request = vec![0x11, 0xE4, 0, 0, 0x34, 0x12, 0, 0];
    request.extend_from_slice(&[7u8; 32]);
    request.extend_from_slice(&vec![9u8; 384]);
    request.extend_from_slice(&[0, 0]);
    let answer = r.handle_spdm_key_exchange(&request);
    assert_eq!(answer, vec![0x11, 0x7F, 0x0A, 0x00]);
    let after: Vec<(u32, SpdmSessionState)> =
        r.common.session_pool.sessions.iter().map(|s| (s.session_id, s.state)).collect();
    assert_eq!(states, after);
}

#[test]
fn key_exchange_undecodable_is_invalid_request() {
    let mut l = link();
    assert!(l.requester.init_connection().is_ok());
    let mut r = l.responder.borrow_mut();
    let answer = r.handle_spdm_key_exchange(&[0x11, 0xE4, 0, 0, 1]);
    assert_eq!(answer, vec![0x11, 0x7F, 0x01, 0x00]);
    assert!(r.common.session_pool.get_next_available_session() == Some(0));
}

#[test]
fn unknown_code_is_unsupported() {
    let (mut rsp, _inbox, outbox) = standalone_responder();
    assert!(!rsp.dispatch_message(&[0x11, 0x55, 0, 0]));
    assert_eq!(outbox.borrow_mut().pop_front().unwrap(), vec![0, 0x10, 0x7F, 0x07, 0x00]);
    assert!(!rsp.dispatch_message(&[0x11, 0xE5, 0, 0]));
    assert_eq!(outbox.borrow_mut().pop_front().unwrap(), vec![0, 0x10, 0x7F, 0x04, 0x00]);
    // A response code sent to the responder is known, so it is unexpected.
    assert!(!rsp.dispatch_message(&[0x11, 0x04, 0, 0]));
    assert_eq!(outbox.borrow_mut().pop_front().unwrap(), vec![0, 0x10, 0x7F, 0x04, 0x00]);
}

#[test]
fn registry_first_registration_wins() {
    let mut r: SpdmCryptoRegistry<TestCrypto> = SpdmCryptoRegistry::new();
    assert!(hmac::register(&mut r, TestCrypto));
    assert!(!hmac::register(&mut r, TestCrypto));
    let unregistered: SpdmCryptoRegistry<TestCrypto> = SpdmCryptoRegistry::new();
    assert!(hmac::hmac(&unregistered, SpdmBaseHashAlgo { bits: SPDM_HASH_SHA_384 }, b"k", b"d").is_none());
    let d = hmac::hmac(&r, SpdmBaseHashAlgo { bits: SPDM_HASH_SHA_384 }, b"k", b"d").unwrap();
    assert_eq!(d.data.len(), 48);
}

#[test]
fn attestation_exchanges() {
    let mut l = link();
    assert!(l.requester.init_connection().is_ok());
    l.requester.common.provision_info.peer_cert_chain = None;
    let digest = l.requester.send_receive_spdm_digest().unwrap();
    assert_eq!(digest.data, sha384(b"test certificate chain"));
    assert!(l.requester.send_receive_spdm_certificate(0).is_ok());
    assert_eq!(l.requester.common.provision_info.peer_cert_chain, Some(b"test certificate chain".to_vec()));
    assert!(l.requester.send_receive_spdm_challenge(0, 0).is_ok());
    let r = l.responder.borrow();
    assert_eq!(l.requester.common.runtime_info.message_b.as_slice(), r.common.runtime_info.message_b.as_slice());
    assert_eq!(l.requester.common.runtime_info.message_c.as_slice(), r.common.runtime_info.message_c.as_slice());
    assert!(r.common.runtime_info.message_c.len() > 0);
}

#[test]
fn measurements_all_blocks() {
    let mut l = link();
    assert!(l.requester.init_connection().is_ok());
    let mut r = l.responder.borrow_mut();
    let answer = r.handle_spdm_measurement(&[0x11, 0xE0, 0, 0xFF]);
    assert_eq!(&answer[0..4], &[0x11, 0x60, 0, 0]);
    assert_eq!(&answer[4..19], &measurement_record()[..]);
    assert_eq!(answer.len(), 19 + 32 + 2);
    let count = r.handle_spdm_measurement(&[0x11, 0xE0, 0, 0]);
    assert_eq!(&count[0..8], &[0x11, 0x60, 1, 0, 0, 0, 0, 0]);
    let signed = {
        let mut req = vec![0x11, 0xE0, 1, 0xFF];
        req.extend_from_slice(&[3u8; 32]);
        req.push(0);
        r.handle_spdm_measurement(&req)
    };
    assert_eq!(signed.len(), 19 + 32 + 2 + 96);
    assert_eq!(r.common.runtime_info.message_m.len(), 0);
}

#[test]
fn key_exchange_with_summary_hash() {
    let mut l = link();
    assert!(l.requester.init_connection().is_ok());
    let id = l.requester.start_session(false, 0, 0xFF).expect("session");
    assert!(l.requester.send_receive_spdm_heartbeat(id).is_ok());
    assert!(l.responder.borrow().common.runtime_info.need_measurement_summary_hash);
}

#[test]
fn key_update_keeps_session_usable() {
    let mut l = link();
    assert!(l.requester.init_connection().is_ok());
    let id = l.requester.start_session(false, 0, 0).expect("session");
    let i = l.requester.common.session_pool.get_session_via_id(id).unwrap();
    let before = l.requester.common.session_pool.sessions[i].request_direction.key.clone();
    assert!(l.requester.send_receive_spdm_key_update(id, false).is_ok());
    let after = l.requester.common.session_pool.sessions[i].request_direction.key.clone();
    assert_ne!(before, after);
    assert!(l.requester.common.session_pool.sessions[i].backup_request_direction.is_none());
    assert!(l.requester.send_receive_spdm_heartbeat(id).is_ok());
    assert!(l.requester.send_receive_spdm_key_update(id, true).is_ok());
    assert!(l.requester.send_receive_spdm_heartbeat(id).is_ok());
    let r = l.responder.borrow();
    let j = r.common.session_pool.get_session_via_id(id).unwrap();
    let rs = &r.common.session_pool.sessions[j];
    let qs = &l.requester.common.session_pool.sessions[i];
    assert_eq!(rs.request_direction.key, qs.request_direction.key);
    assert_eq!(rs.response_direction.key, qs.response_direction.key);
}

#[test]
fn error_kinds_reach_callers() {
    let mut l = link();
    // Capabilities before version.
    assert_eq!(l.requester.send_receive_spdm_capability(), Err(SpdmStatus::InvalidState));
    // A session id nobody holds.
    assert_eq!(l.requester.send_secured_message(0x1234_5678, b"x"), Err(SpdmStatus::InvalidParameter));
    assert_eq!(l.requester.receive_secured_message(0x1234_5678), Err(SpdmStatus::InvalidParameter));
    assert!(l.requester.init_connection().is_ok());
    for _ in 0..4 {
        assert!(l.requester.start_session(true, 0, 0).is_ok());
    }
    assert_eq!(l.requester.start_session(true, 0, 0), Err(SpdmStatus::SessionExhausted));
    // Nothing answers a receive that was not preceded by a request.
    let mut lone = link();
    assert_eq!(lone.requester.receive_message(), Err(SpdmStatus::IoFailure));
}

#[test]
fn aead_checks_its_inputs() {
    let r = registry();
    let empty: SpdmCryptoRegistry<TestCrypto> = SpdmCryptoRegistry::new();
    let algo = SpdmAeadAlgo { bits: SPDM_AEAD_AES_256_GCM };
    assert_eq!(aead::encrypt(&r, algo, &[0u8; 16], &[0u8; 12], b"", b"p"), Err(SpdmStatus::InvalidParameter));
    assert_eq!(aead::encrypt(&empty, algo, &[0u8; 32], &[0u8; 12], b"", b"p"), Err(SpdmStatus::CryptoFailure));
    let (c, t) = aead::encrypt(&r, algo, &[7u8; 32], &[1u8; 12], b"aad", b"plain").unwrap();
    assert_eq!(c.len(), 5);
    assert_eq!(t.len(), 16);
    assert_ne!(c, b"plain".to_vec());
    assert_eq!(aead::decrypt(&r, algo, &[7u8; 32], &[1u8; 12], b"aad", &c, &t).unwrap(), b"plain".to_vec());
    assert!(aead::decrypt(&r, algo, &[7u8; 32], &[1u8; 12], b"bad", &c, &t).is_err());
}

#[test]
fn finish_twice_is_unexpected() {
    let mut l = link();
    assert!(l.requester.init_connection().is_ok());
    let id = l.requester.start_session(false, 0, 0).expect("session");
    let mut r = l.responder.borrow_mut();
    let j = r.common.session_pool.get_session_via_id(id).unwrap();
    let mut rs = r.common.session_pool.sessions[j].clone();
    let answer = r.finish_in_session(&mut rs, &[0x11, 0xE5, 0, 0]);
    assert_eq!(answer, vec![0x11, 0x7F, 0x04, 0x00]);
    assert_eq!(rs.state, SpdmSessionState::SpdmSessionEstablished);
}

#[test]
fn finish_with_bad_verify_data_is_decrypt_error() {
    let mut l = link();
    assert!(l.requester.init_connection().is_ok());
    let id = l.requester.send_receive_spdm_key_exchange(0, 0).expect("exchange");
    let mut r = l.responder.borrow_mut();
    let j = r.common.session_pool.get_session_via_id(id).unwrap();
    let mut rs = r.common.session_pool.sessions[j].clone();
    let mut request = vec![0x11, 0xE5, 0, 0];
    request.extend_from_slice(&[0u8; 48]);
    let answer = r.finish_in_session(&mut rs, &request);
    assert_eq!(answer, vec![0x11, 0x7F, 0x06, 0x00]);
    assert_eq!(rs.state, SpdmSessionState::SpdmSessionHandshaking);
}

#[test]
fn signed_measurements_verify() {
    let mut l = link();
    assert!(l.requester.init_connection().is_ok());
    let record = l.requester.send_receive_spdm_measurement(true, 0).expect("measurements");
    assert_eq!(record.record.len(), 1);
    assert_eq!(record.record[0].measurement.value, vec![1, 2, 3, 4]);
    let unsigned = l.requester.send_receive_spdm_measurement(false, 0).expect("measurements");
    assert_eq!(unsigned, record);
}

#[test]
fn process_frame_outcomes() {
    let (mut rsp, _inbox, _outbox) = standalone_responder();
    assert_eq!(rsp.process_frame(&[0x11, 0x84, 0, 0], false), Ok(true));
    assert_eq!(rsp.process_frame(&[0x11, 0x68, 0, 0], false), Ok(false));
    assert_eq!(rsp.process_frame(&[1, 2, 3], true), Err(SpdmStatus::DecodeFailure));
    assert_eq!(rsp.process_frame(&[1, 2, 3, 4, 5, 6], true), Err(SpdmStatus::InvalidParameter));
}

#[test]
fn init_connection_without_versions_is_invalid() {
    let mut l = link();
    l.requester.common.config_info.spdm_version = Vec::new();
    assert_eq!(l.requester.init_connection(), Err(SpdmStatus::InvalidParameter));
    let mut l = link();
    assert!(l.requester.init_connection().is_ok());
    assert_eq!(&l.requester.common.runtime_info.message_a.as_slice()[0..4], &[0x11, 0x84, 0, 0]);
}

#[test]
fn start_session_errors() {
    let mut l = link();
    assert_eq!(l.requester.start_session(false, 0, 0), Err(SpdmStatus::InvalidState));
    assert!(l.requester.init_connection().is_ok());
    let id = l.requester.start_session(false, 0, 0).unwrap();
    let i = l.requester.common.session_pool.get_session_via_id(id).unwrap();
    assert_eq!(id >> 16, 0xFFFF - i as u32);
    assert!(l.requester.end_session(id).is_ok());
    let s = &l.requester.common.session_pool.sessions[i];
    assert_eq!(s.state, SpdmSessionState::SpdmSessionNotStarted);
    assert!(s.master_secret.iter().all(|b| *b == 0));
    assert_eq!(s.request_direction.sequence_number, 0);
}

#[test]
fn counter_at_maximum_ends_session() {
    let mut l = link();
    assert!(l.requester.init_connection().is_ok());
    let id = l.requester.start_session(true, 0, 0).unwrap();
    let i = l.requester.common.session_pool.get_session_via_id(id).unwrap();
    l.requester.common.session_pool.sessions[i].request_direction.sequence_number = u64::MAX;
    assert_eq!(l.requester.send_secured_message(id, b"x"), Err(SpdmStatus::InvalidState));
    assert_eq!(l.requester.common.session_pool.sessions[i].state, SpdmSessionState::SpdmSessionNotStarted);
    assert!(l.requester.common.session_pool.get_session_via_id(id).is_none());
}

#[test]
fn secured_dispatch_answers_heartbeat() {
    let mut l = link();
    assert!(l.requester.init_connection().is_ok());
    let id = l.requester.start_session(true, 0, 0).unwrap();
    let mut r = l.responder.borrow_mut();
    let (handled, frame) = r.dispatch_secured_message(id, &[0x11, 0xE8, 0, 0]);
    assert!(handled);
    assert_eq!(frame, vec![0x11, 0x68, 0, 0]);
    let j = r.common.session_pool.get_session_via_id(id).unwrap();
    assert_eq!(r.common.session_pool.sessions[j].state, SpdmSessionState::SpdmSessionEstablished);
    let mut bad = id.to_le_bytes().to_vec();
    bad.extend_from_slice(&[0u8; 40]);
    assert_eq!(r.process_frame(&bad, true), Err(SpdmStatus::DecodeFailure));
    assert_eq!(r.common.session_pool.sessions[j].state, SpdmSessionState::SpdmSessionEstablished);
}

#[test]
fn exchange_answers_are_taken_apart() {
    assert_eq!(accept_key_exchange_rsp(&vec![0x11, 0x7F, 0x0A, 0], 384, 0, 96, 48).err(), Some(SpdmStatus::SessionExhausted));
    assert_eq!(accept_key_exchange_rsp(&vec![0x11, 0x7F, 0x01, 0], 384, 0, 96, 48).err(), Some(SpdmStatus::Unsupported));
    assert_eq!(accept_key_exchange_rsp(&vec![0x11, 0x64, 0, 0], 384, 0, 96, 48).err(), Some(SpdmStatus::DecodeFailure));
    assert_eq!(accept_psk_exchange_rsp(&vec![0x11, 0x01], 0, 48).err(), Some(SpdmStatus::DecodeFailure));
}
