//! Session slots, the key schedule and record protection.
use vstd::prelude::*;
use crate::codec::{encode_bytes, encode_u16, encode_u32, spec_u16, spec_u32, Reader};
use crate::config::MAX_SPDM_SESSION_COUNT;
use crate::crypto::aead::AEAD_TAG_SIZE;
use crate::crypto::{aead, hkdf, hmac, SpdmCryptoProvider, SpdmCryptoRegistry};
use crate::error::{SpdmResult, SpdmStatus};
use crate::msgs::{
    aead_iv_size, aead_key_size, hash_size, SpdmAeadAlgo, SpdmBaseHashAlgo, SpdmDheAlgo,
    SpdmDigestStruct, SpdmKeyScheduleAlgo,
};
use crate::transcript::ManagedBuffer;

verus! {

#[derive(Debug, Clone, Copy, PartialEq, Eq, Structural)]
pub enum SpdmSessionState {
    SpdmSessionNotStarted,
    SpdmSessionHandshaking,
    SpdmSessionEstablished,
}

/// The algorithms a session runs with.
#[derive(Debug, Clone, Copy, PartialEq, Eq, Structural)]
pub struct SpdmSessionCryptoParam {
    pub base_hash_algo: SpdmBaseHashAlgo,
    pub dhe_algo: SpdmDheAlgo,
    pub aead_algo: SpdmAeadAlgo,
    pub key_schedule_algo: SpdmKeyScheduleAlgo,
}

/// What the transport says about record framing.
#[derive(Debug, Clone, Copy, PartialEq, Eq, Structural)]
pub struct SpdmSessionTransportParam {
    pub sequence_number_count: u8,
    pub max_random_count: u8,
}

/// Keys of one direction of traffic.
#[derive(Debug, Clone)]
pub struct SpdmSessionDirection {
    pub secret: Vec<u8>,
    pub finished_key: Vec<u8>,
    pub key: Vec<u8>,
    pub iv: Vec<u8>,
    pub sequence_number: u64,
}

/// Transcript pieces owned by a session.
#[derive(Debug, Clone)]
pub struct SpdmSessionRuntimeInfo {
    pub message_k: ManagedBuffer,
    pub message_f: ManagedBuffer,
    pub message_m: ManagedBuffer,
}

#[derive(Debug, Clone)]
pub struct SpdmSession {
    pub session_id: u32,
    pub state: SpdmSessionState,
    pub use_psk: bool,
    pub crypto_param: SpdmSessionCryptoParam,
    pub transport_param: SpdmSessionTransportParam,
    pub dhe_secret: Vec<u8>,
    pub handshake_secret: Vec<u8>,
    pub master_secret: Vec<u8>,
    pub request_direction: SpdmSessionDirection,
    pub response_direction: SpdmSessionDirection,
    /// The keys a key update replaced, kept until the update is confirmed
    /// or rolled back.
    pub backup_request_direction: Option<SpdmSessionDirection>,
    pub backup_response_direction: Option<SpdmSessionDirection>,
    pub runtime_info: SpdmSessionRuntimeInfo,
}

pub open spec fn all_zero(s: Seq<u8>) -> bool {
    forall|i: int| 0 <= i < s.len() ==> s[i] == 0
}

pub open spec fn direction_zeroed(d: SpdmSessionDirection) -> bool {
    &&& all_zero(d.secret@)
    &&& all_zero(d.finished_key@)
    &&& all_zero(d.key@)
    &&& all_zero(d.iv@)
    &&& d.sequence_number == 0
}

/// Every secret of the session is zero and both counters are reset.
pub open spec fn secrets_zeroed(s: SpdmSession) -> bool {
    &&& all_zero(s.dhe_secret@)
    &&& all_zero(s.handshake_secret@)
    &&& all_zero(s.master_secret@)
    &&& direction_zeroed(s.request_direction)
    &&& direction_zeroed(s.response_direction)
    &&& s.backup_request_direction is None
    &&& s.backup_response_direction is None
}

/// Overwrites every byte with zero.
pub fn zeroize(v: &mut Vec<u8>)
    ensures
        final(v)@.len() == old(v)@.len(),
        all_zero(final(v)@),
{
    let mut i: usize = 0;
    while i < v.len()
        invariant
            i <= v@.len(),
            v@.len() == old(v)@.len(),
            forall|j: int| 0 <= j < i ==> v@[j] == 0,
        decreases v@.len() - i,
    {
        v.set(i, 0);
        i = i + 1;
    }
}

pub fn zeros(n: usize) -> (v: Vec<u8>)
    ensures
        v@.len() == n,
        all_zero(v@),
{
    let mut v: Vec<u8> = Vec::new();
    while v.len() < n
        invariant
            v@.len() <= n,
            all_zero(v@),
        decreases n - v@.len(),
    {
        v.push(0);
    }
    v
}

fn empty_direction() -> (d: SpdmSessionDirection)
    ensures
        direction_zeroed(d),
{
    SpdmSessionDirection {
        secret: Vec::new(),
        finished_key: Vec::new(),
        key: Vec::new(),
        iv: Vec::new(),
        sequence_number: 0,
    }
}

fn zeroize_direction(d: &mut SpdmSessionDirection)
    ensures
        direction_zeroed(*final(d)),
{
    zeroize(&mut d.secret);
    zeroize(&mut d.finished_key);
    zeroize(&mut d.key);
    zeroize(&mut d.iv);
    d.sequence_number = 0;
}

/// The nonce of record `seq`: the first eight bytes of the static IV
/// XORed with the little-endian counter.
pub open spec fn spec_iv(iv: Seq<u8>, seq: u64) -> Seq<u8> {
    Seq::new(iv.len(), |i: int| if i < 8 { (iv[i] ^ ((seq >> (8 * i) as u64) & 0xff) as u8) as u8 } else { iv[i] })
}

/// Computes the nonce of record `seq`.
pub fn compute_iv(iv: &[u8], seq: u64) -> (r: Vec<u8>)
    ensures
        r@ == spec_iv(iv@, seq),
{
    let mut r: Vec<u8> = Vec::new();
    let mut i: usize = 0;
    while i < iv.len()
        invariant
            i <= iv@.len(),
            r@ =~= spec_iv(iv@, seq).take(i as int),
        decreases iv@.len() - i,
    {
        if i < 8 {
            let b = ((seq >> (8 * i) as u64) & 0xff) as u8;
            r.push(iv[i] ^ b);
        } else {
            r.push(iv[i]);
        }
        i = i + 1;
    }
    r
}

proof fn lemma_xor_cancel(a: u8, b: u8, c: u8)
    requires
        a ^ b == a ^ c,
    ensures
        b == c,
{
    assert(b == c) by (bit_vector)
        requires
            a ^ b == a ^ c,
    ;
}

proof fn lemma_bytes_determine(x: u64, y: u64)
    requires
        (x & 0xff) == (y & 0xff),
        ((x >> 8) & 0xff) == ((y >> 8) & 0xff),
        ((x >> 16) & 0xff) == ((y >> 16) & 0xff),
        ((x >> 24) & 0xff) == ((y >> 24) & 0xff),
        ((x >> 32) & 0xff) == ((y >> 32) & 0xff),
        ((x >> 40) & 0xff) == ((y >> 40) & 0xff),
        ((x >> 48) & 0xff) == ((y >> 48) & 0xff),
        ((x >> 56) & 0xff) == ((y >> 56) & 0xff),
    ensures
        x == y,
{
    assert(x == y) by (bit_vector)
        requires
            (x & 0xff) == (y & 0xff),
            ((x >> 8) & 0xff) == ((y >> 8) & 0xff),
            ((x >> 16) & 0xff) == ((y >> 16) & 0xff),
            ((x >> 24) & 0xff) == ((y >> 24) & 0xff),
            ((x >> 32) & 0xff) == ((y >> 32) & 0xff),
            ((x >> 40) & 0xff) == ((y >> 40) & 0xff),
            ((x >> 48) & 0xff) == ((y >> 48) & 0xff),
            ((x >> 56) & 0xff) == ((y >> 56) & 0xff),
    ;
}

proof fn lemma_byte_fits(x: u64, k: u64)
    ensures
        ((x >> k) & 0xff) < 256,
{
    assert(((x >> k) & 0xff) < 256) by (bit_vector);
}

proof fn lemma_iv_byte(iv: Seq<u8>, s1: u64, s2: u64, k: int)
    requires
        iv.len() >= 8,
        0 <= k < 8,
        spec_iv(iv, s1) == spec_iv(iv, s2),
    ensures
        ((s1 >> (8 * k) as u64) & 0xff) == ((s2 >> (8 * k) as u64) & 0xff),
{
    assert(spec_iv(iv, s1)[k] == spec_iv(iv, s2)[k]);
    assert(spec_iv(iv, s1)[k] == (iv[k] ^ (((s1 >> (8 * k) as u64) & 0xff) as u8)) as u8);
    assert(spec_iv(iv, s2)[k] == (iv[k] ^ (((s2 >> (8 * k) as u64) & 0xff) as u8)) as u8);
    lemma_byte_fits(s1, (8 * k) as u64);
    lemma_byte_fits(s2, (8 * k) as u64);
    lemma_xor_cancel(iv[k], ((s1 >> (8 * k) as u64) & 0xff) as u8, ((s2 >> (8 * k) as u64) & 0xff) as u8);
}

/// Distinct record counters give distinct nonces.
pub proof fn lemma_iv_injective(iv: Seq<u8>, s1: u64, s2: u64)
    requires
        iv.len() >= 8,
        s1 != s2,
    ensures
        spec_iv(iv, s1) != spec_iv(iv, s2),
{
    if spec_iv(iv, s1) == spec_iv(iv, s2) {
        lemma_iv_byte(iv, s1, s2, 0);
        lemma_iv_byte(iv, s1, s2, 1);
        lemma_iv_byte(iv, s1, s2, 2);
        lemma_iv_byte(iv, s1, s2, 3);
        lemma_iv_byte(iv, s1, s2, 4);
        lemma_iv_byte(iv, s1, s2, 5);
        lemma_iv_byte(iv, s1, s2, 6);
        lemma_iv_byte(iv, s1, s2, 7);
        assert(((s1 >> 0u64) & 0xff) == ((s2 >> 0u64) & 0xff));
        assert(((s1 >> 8u64) & 0xff) == ((s2 >> 8u64) & 0xff));
        assert(((s1 >> 16u64) & 0xff) == ((s2 >> 16u64) & 0xff));
        assert(((s1 >> 24u64) & 0xff) == ((s2 >> 24u64) & 0xff));
        assert(((s1 >> 32u64) & 0xff) == ((s2 >> 32u64) & 0xff));
        assert(((s1 >> 40u64) & 0xff) == ((s2 >> 40u64) & 0xff));
        assert(((s1 >> 48u64) & 0xff) == ((s2 >> 48u64) & 0xff));
        assert(((s1 >> 56u64) & 0xff) == ((s2 >> 56u64) & 0xff));
        assert((s1 >> 0u64) == s1) by (bit_vector);
        assert((s2 >> 0u64) == s2) by (bit_vector);
        lemma_bytes_determine(s1, s2);
    }
}

/// Records sent one after another on a direction, starting at counter `s0`,
/// carry pairwise distinct nonces, and their counters strictly increase.
pub proof fn lemma_record_ivs_distinct(iv: Seq<u8>, s0: u64, n: u64)
    requires
        iv.len() >= 8,
        s0 + n <= u64::MAX,
    ensures
        forall|i: u64, j: u64| i < j < n ==> (s0 + i) < (s0 + j) && #[trigger] spec_iv(iv, (s0 + i) as u64) != #[trigger] spec_iv(iv, (s0 + j) as u64),
{
    assert forall|i: u64, j: u64| i < j < n implies (s0 + i) < (s0 + j) && #[trigger] spec_iv(iv, (s0 + i) as u64) != #[trigger] spec_iv(iv, (s0 + j) as u64) by {
        lemma_iv_injective(iv, (s0 + i) as u64, (s0 + j) as u64);
    }
}

/// Labels of the key schedule, as bytes.
pub open spec fn spec_label_version() -> Seq<u8> {
    seq![115u8, 112u8, 100u8, 109u8, 49u8, 46u8, 49u8, 32u8]
}

pub fn label_version() -> (v: Vec<u8>)
    ensures
        v@ == spec_label_version(),
{
    let mut v: Vec<u8> = Vec::new();
    v.push(115);
    v.push(112);
    v.push(100);
    v.push(109);
    v.push(49);
    v.push(46);
    v.push(49);
    v.push(32);
    assert(v@ =~= spec_label_version());
    v
}

pub open spec fn spec_label_req_hs_data() -> Seq<u8> {
    seq![114u8, 101u8, 113u8, 32u8, 104u8, 115u8, 32u8, 100u8, 97u8, 116u8, 97u8]
}

pub fn label_req_hs_data() -> (v: Vec<u8>)
    ensures
        v@ == spec_label_req_hs_data(),
{
    let mut v: Vec<u8> = Vec::new();
    v.push(114);
    v.push(101);
    v.push(113);
    v.push(32);
    v.push(104);
    v.push(115);
    v.push(32);
    v.push(100);
    v.push(97);
    v.push(116);
    v.push(97);
    assert(v@ =~= spec_label_req_hs_data());
    v
}

pub open spec fn spec_label_rsp_hs_data() -> Seq<u8> {
    seq![114u8, 115u8, 112u8, 32u8, 104u8, 115u8, 32u8, 100u8, 97u8, 116u8, 97u8]
}

pub fn label_rsp_hs_data() -> (v: Vec<u8>)
    ensures
        v@ == spec_label_rsp_hs_data(),
{
    let mut v: Vec<u8> = Vec::new();
    v.push(114);
    v.push(115);
    v.push(112);
    v.push(32);
    v.push(104);
    v.push(115);
    v.push(32);
    v.push(100);
    v.push(97);
    v.push(116);
    v.push(97);
    assert(v@ =~= spec_label_rsp_hs_data());
    v
}

pub open spec fn spec_label_req_app_data() -> Seq<u8> {
    seq![114u8, 101u8, 113u8, 32u8, 97u8, 112u8, 112u8, 32u8, 100u8, 97u8, 116u8, 97u8]
}

pub fn label_req_app_data() -> (v: Vec<u8>)
    ensures
        v@ == spec_label_req_app_data(),
{
    let mut v: Vec<u8> = Vec::new();
    v.push(114);
    v.push(101);
    v.push(113);
    v.push(32);
    v.push(97);
    v.push(112);
    v.push(112);
    v.push(32);
    v.push(100);
    v.push(97);
    v.push(116);
    v.push(97);
    assert(v@ =~= spec_label_req_app_data());
    v
}

pub open spec fn spec_label_rsp_app_data() -> Seq<u8> {
    seq![114u8, 115u8, 112u8, 32u8, 97u8, 112u8, 112u8, 32u8, 100u8, 97u8, 116u8, 97u8]
}

pub fn label_rsp_app_data() -> (v: Vec<u8>)
    ensures
        v@ == spec_label_rsp_app_data(),
{
    let mut v: Vec<u8> = Vec::new();
    v.push(114);
    v.push(115);
    v.push(112);
    v.push(32);
    v.push(97);
    v.push(112);
    v.push(112);
    v.push(32);
    v.push(100);
    v.push(97);
    v.push(116);
    v.push(97);
    assert(v@ =~= spec_label_rsp_app_data());
    v
}

pub open spec fn spec_label_derived() -> Seq<u8> {
    seq![100u8, 101u8, 114u8, 105u8, 118u8, 101u8, 100u8]
}

pub fn label_derived() -> (v: Vec<u8>)
    ensures
        v@ == spec_label_derived(),
{
    let mut v: Vec<u8> = Vec::new();
    v.push(100);
    v.push(101);
    v.push(114);
    v.push(105);
    v.push(118);
    v.push(101);
    v.push(100);
    assert(v@ =~= spec_label_derived());
    v
}

pub open spec fn spec_label_finished() -> Seq<u8> {
    seq![102u8, 105u8, 110u8, 105u8, 115u8, 104u8, 101u8, 100u8]
}

pub fn label_finished() -> (v: Vec<u8>)
    ensures
        v@ == spec_label_finished(),
{
    let mut v: Vec<u8> = Vec::new();
    v.push(102);
    v.push(105);
    v.push(110);
    v.push(105);
    v.push(115);
    v.push(104);
    v.push(101);
    v.push(100);
    assert(v@ =~= spec_label_finished());
    v
}

pub open spec fn spec_label_key() -> Seq<u8> {
    seq![107u8, 101u8, 121u8]
}

pub fn label_key() -> (v: Vec<u8>)
    ensures
        v@ == spec_label_key(),
{
    let mut v: Vec<u8> = Vec::new();
    v.push(107);
    v.push(101);
    v.push(121);
    assert(v@ =~= spec_label_key());
    v
}

pub open spec fn spec_label_iv() -> Seq<u8> {
    seq![105u8, 118u8]
}

pub fn label_iv() -> (v: Vec<u8>)
    ensures
        v@ == spec_label_iv(),
{
    let mut v: Vec<u8> = Vec::new();
    v.push(105);
    v.push(118);
    assert(v@ =~= spec_label_iv());
    v
}

pub open spec fn spec_label_traffic_upd() -> Seq<u8> {
    seq![116u8, 114u8, 97u8, 102u8, 102u8, 105u8, 99u8, 32u8, 117u8, 112u8, 100u8]
}

pub fn label_traffic_upd() -> (v: Vec<u8>)
    ensures
        v@ == spec_label_traffic_upd(),
{
    let mut v: Vec<u8> = Vec::new();
    v.push(116);
    v.push(114);
    v.push(97);
    v.push(102);
    v.push(102);
    v.push(105);
    v.push(99);
    v.push(32);
    v.push(117);
    v.push(112);
    v.push(100);
    assert(v@ =~= spec_label_traffic_upd());
    v
}

} // verus!
verus! {

/// `length || "spdm1.1 " || label || context`, the info of each expansion.
pub open spec fn spec_bin_concat(length: u16, label: Seq<u8>, context: Seq<u8>) -> Seq<u8> {
    spec_u16(length) + spec_label_version() + label + context
}

pub fn bin_concat(length: u16, label: &[u8], context: &[u8]) -> (r: Vec<u8>)
    ensures
        r@ == spec_bin_concat(length, label@, context@),
{
    let mut r: Vec<u8> = Vec::new();
    encode_u16(length, &mut r);
    let version = label_version();
    encode_bytes(version.as_slice(), &mut r);
    encode_bytes(label, &mut r);
    encode_bytes(context, &mut r);
    assert(r@ =~= spec_bin_concat(length, label@, context@));
    r
}

/// What a direction derived from `secret` looks like.
pub open spec fn direction_from(d: SpdmSessionDirection, secret: Seq<u8>, hash: SpdmBaseHashAlgo, aead: SpdmAeadAlgo) -> bool {
    &&& d.secret@ == secret
    &&& d.finished_key@.len() == hash_size(hash.bits)
    &&& d.key@.len() == aead_key_size(aead.bits)
    &&& d.iv@.len() == aead_iv_size(aead.bits)
    &&& d.sequence_number == 0
}

/// Derives the finished key, the AEAD key and the static IV of one direction.
pub fn derive_direction<P: SpdmCryptoProvider>(
    registry: &SpdmCryptoRegistry<P>,
    hash: SpdmBaseHashAlgo,
    aead_algo: SpdmAeadAlgo,
    secret: Vec<u8>,
) -> (r: SpdmResult<SpdmSessionDirection>)
    ensures
        r matches Ok(d) ==> direction_from(d, secret@, hash, aead_algo),
        registry.hkdf@ is None ==> r is Err,
{
    let hash_len = hash.get_size();
    let key_len = aead_algo.get_key_size();
    let iv_len = aead_algo.get_iv_size();
    let empty: Vec<u8> = Vec::new();
    let l_finished = label_finished();
    let l_key = label_key();
    let l_iv = label_iv();
    let info = bin_concat(hash_len, l_finished.as_slice(), empty.as_slice());
    let finished_key = match hkdf::hkdf_expand(registry, hash, secret.as_slice(), info.as_slice(), hash_len) {
        Some(d) => d.data,
        None => {
            return Err(SpdmStatus::CryptoFailure);
        },
    };
    let info = bin_concat(key_len, l_key.as_slice(), empty.as_slice());
    let key = match hkdf::hkdf_expand(registry, hash, secret.as_slice(), info.as_slice(), key_len) {
        Some(d) => d.data,
        None => {
            return Err(SpdmStatus::CryptoFailure);
        },
    };
    let info = bin_concat(iv_len, l_iv.as_slice(), empty.as_slice());
    let iv = match hkdf::hkdf_expand(registry, hash, secret.as_slice(), info.as_slice(), iv_len) {
        Some(d) => d.data,
        None => {
            return Err(SpdmStatus::CryptoFailure);
        },
    };
    Ok(SpdmSessionDirection { secret, finished_key, key, iv, sequence_number: 0 })
}

/// Writes the low `count` bytes of `seq`, least significant first.
pub open spec fn spec_seq_bytes(seq: u64, count: nat) -> Seq<u8> {
    Seq::new(count, |i: int| ((seq >> (8 * i) as u64) & 0xff) as u8)
}

fn encode_seq(seq: u64, count: u8, w: &mut Vec<u8>)
    requires
        count <= 8,
    ensures
        final(w)@ == old(w)@ + spec_seq_bytes(seq, count as nat),
{
    let mut i: u8 = 0;
    while i < count
        invariant
            i <= count <= 8,
            w@ =~= old(w)@ + spec_seq_bytes(seq, count as nat).take(i as int),
        decreases count - i,
    {
        w.push(((seq >> (8 * i) as u64) & 0xff) as u8);
        i = i + 1;
    }
    assert(spec_seq_bytes(seq, count as nat).take(count as int) =~= spec_seq_bytes(seq, count as nat));
}

/// Record header: session id, sequence number bytes, length of what follows.
pub open spec fn spec_record_header(session_id: u32, seq: u64, count: nat, length: u16) -> Seq<u8> {
    spec_u32(session_id) + spec_seq_bytes(seq, count) + spec_u16(length)
}

impl SpdmSession {
    /// A free slot: not started, id zero, no secrets.
    pub fn new() -> (s: SpdmSession)
        ensures
            s.state == SpdmSessionState::SpdmSessionNotStarted,
            s.session_id == 0,
            secrets_zeroed(s),
            s.runtime_info.message_k.wf(),
            s.runtime_info.message_f.wf(),
            s.runtime_info.message_m.wf(),
    {
        SpdmSession {
            session_id: 0,
            state: SpdmSessionState::SpdmSessionNotStarted,
            use_psk: false,
            crypto_param: SpdmSessionCryptoParam {
                base_hash_algo: SpdmBaseHashAlgo { bits: 0 },
                dhe_algo: SpdmDheAlgo { bits: 0 },
                aead_algo: SpdmAeadAlgo { bits: 0 },
                key_schedule_algo: SpdmKeyScheduleAlgo { bits: 0 },
            },
            transport_param: SpdmSessionTransportParam { sequence_number_count: 0, max_random_count: 0 },
            dhe_secret: Vec::new(),
            handshake_secret: Vec::new(),
            master_secret: Vec::new(),
            request_direction: empty_direction(),
            response_direction: empty_direction(),
            backup_request_direction: None,
            backup_response_direction: None,
            runtime_info: SpdmSessionRuntimeInfo {
                message_k: ManagedBuffer::new(),
                message_f: ManagedBuffer::new(),
                message_m: ManagedBuffer::new(),
            },
        }
    }

    /// Claims a free slot for `session_id` and starts the handshake.
    pub fn setup(&mut self, session_id: u32) -> (r: SpdmResult)
        ensures
            r is Ok <==> old(self).state == SpdmSessionState::SpdmSessionNotStarted,
            r is Ok ==> *final(self) == (SpdmSession {
                session_id,
                state: SpdmSessionState::SpdmSessionHandshaking,
                ..*old(self)
            }),
            r is Err ==> *final(self) == *old(self),
    {
        if self.state != SpdmSessionState::SpdmSessionNotStarted {
            return Err(SpdmStatus::InvalidState);
        }
        self.session_id = session_id;
        self.state = SpdmSessionState::SpdmSessionHandshaking;
        Ok(())
    }

    /// Ends session `session_id`: every secret is zeroed, both counters are
    /// reset, the transcripts are emptied and the slot is free again.
    pub fn teardown(&mut self, session_id: u32) -> (r: SpdmResult)
        ensures
            r is Ok <==> old(self).session_id == session_id,
            r is Ok ==> {
                &&& final(self).state == SpdmSessionState::SpdmSessionNotStarted
                &&& final(self).session_id == 0
                &&& secrets_zeroed(*final(self))
                &&& final(self).runtime_info.message_k@.len() == 0
                &&& final(self).runtime_info.message_f@.len() == 0
                &&& final(self).runtime_info.message_m@.len() == 0
                &&& final(self).runtime_info.message_k.wf()
                &&& final(self).runtime_info.message_f.wf()
                &&& final(self).runtime_info.message_m.wf()
                &&& final(self).crypto_param == old(self).crypto_param
                &&& final(self).transport_param == old(self).transport_param
            },
            r is Err ==> *final(self) == *old(self),
    {
        if self.session_id != session_id {
            return Err(SpdmStatus::InvalidParameter);
        }
        zeroize(&mut self.dhe_secret);
        zeroize(&mut self.handshake_secret);
        zeroize(&mut self.master_secret);
        zeroize_direction(&mut self.request_direction);
        zeroize_direction(&mut self.response_direction);
        self.backup_request_direction = None;
        self.backup_response_direction = None;
        self.runtime_info.message_k.reset_message();
        self.runtime_info.message_f.reset_message();
        self.runtime_info.message_m.reset_message();
        self.use_psk = false;
        self.session_id = 0;
        self.state = SpdmSessionState::SpdmSessionNotStarted;
        Ok(())
    }

    pub fn set_session_state(&mut self, state: SpdmSessionState)
        ensures
            *final(self) == (SpdmSession { state, ..*old(self) }),
    {
        self.state = state;
    }

    pub fn set_use_psk(&mut self, use_psk: bool)
        ensures
            *final(self) == (SpdmSession { use_psk, ..*old(self) }),
    {
        self.use_psk = use_psk;
    }

    pub fn set_crypto_param(
        &mut self,
        base_hash_algo: SpdmBaseHashAlgo,
        dhe_algo: SpdmDheAlgo,
        aead_algo: SpdmAeadAlgo,
        key_schedule_algo: SpdmKeyScheduleAlgo,
    )
        ensures
            *final(self) == (SpdmSession {
                crypto_param: SpdmSessionCryptoParam { base_hash_algo, dhe_algo, aead_algo, key_schedule_algo },
                ..*old(self)
            }),
    {
        self.crypto_param = SpdmSessionCryptoParam { base_hash_algo, dhe_algo, aead_algo, key_schedule_algo };
    }

    pub fn set_transport_param(&mut self, sequence_number_count: u8, max_random_count: u8)
        ensures
            *final(self) == (SpdmSession {
                transport_param: SpdmSessionTransportParam { sequence_number_count, max_random_count },
                ..*old(self)
            }),
    {
        self.transport_param = SpdmSessionTransportParam { sequence_number_count, max_random_count };
    }

    /// Keeps the DHE shared secret, or the PSK in a PSK session.
    pub fn set_dhe_secret(&mut self, secret: &[u8])
        ensures
            final(self).dhe_secret@ == secret@,
            *final(self) == (SpdmSession { dhe_secret: final(self).dhe_secret, ..*old(self) }),
    {
        let mut v: Vec<u8> = Vec::new();
        encode_bytes(secret, &mut v);
        self.dhe_secret = v;
    }

    /// Handshake secret `HMAC(0^H, dhe_secret)`, then the request and
    /// response handshake secrets expanded with "req hs data" / "rsp hs data"
    /// over TH1, and the keys of both directions. Nothing changes on failure.
    pub fn generate_handshake_secret<P: SpdmCryptoProvider>(
        &mut self,
        registry: &SpdmCryptoRegistry<P>,
        th1: &SpdmDigestStruct,
    ) -> (r: SpdmResult)
        ensures
            r is Ok ==> {
                &&& final(self).handshake_secret@.len() == hash_size(old(self).crypto_param.base_hash_algo.bits)
                &&& direction_from(final(self).request_direction, final(self).request_direction.secret@,
                    old(self).crypto_param.base_hash_algo, old(self).crypto_param.aead_algo)
                &&& direction_from(final(self).response_direction, final(self).response_direction.secret@,
                    old(self).crypto_param.base_hash_algo, old(self).crypto_param.aead_algo)
                &&& *final(self) == (SpdmSession {
                    handshake_secret: final(self).handshake_secret,
                    request_direction: final(self).request_direction,
                    response_direction: final(self).response_direction,
                    ..*old(self)
                })
            },
            r is Err ==> *final(self) == *old(self),
            registry.hmac@ is None ==> r is Err,
    {
        let hash = self.crypto_param.base_hash_algo;
        let aead_algo = self.crypto_param.aead_algo;
        let hash_len = hash.get_size();
        let salt = zeros(hash_len as usize);
        let handshake_secret = match hmac::hmac(registry, hash, salt.as_slice(), self.dhe_secret.as_slice()) {
            Some(d) => d.data,
            None => {
                return Err(SpdmStatus::CryptoFailure);
            },
        };
        let l_req = label_req_hs_data();
        let l_rsp = label_rsp_hs_data();
        let info = bin_concat(hash_len, l_req.as_slice(), th1.data.as_slice());
        let req_secret = match hkdf::hkdf_expand(registry, hash, handshake_secret.as_slice(), info.as_slice(), hash_len) {
            Some(d) => d.data,
            None => {
                return Err(SpdmStatus::CryptoFailure);
            },
        };
        let info = bin_concat(hash_len, l_rsp.as_slice(), th1.data.as_slice());
        let rsp_secret = match hkdf::hkdf_expand(registry, hash, handshake_secret.as_slice(), info.as_slice(), hash_len) {
            Some(d) => d.data,
            None => {
                return Err(SpdmStatus::CryptoFailure);
            },
        };
        let request_direction = derive_direction(registry, hash, aead_algo, req_secret)?;
        let response_direction = derive_direction(registry, hash, aead_algo, rsp_secret)?;
        self.handshake_secret = handshake_secret;
        self.request_direction = request_direction;
        self.response_direction = response_direction;
        Ok(())
    }

    /// Master secret `HMAC(HKDF-Expand(handshake_secret, "derived"), 0^H)`,
    /// then the data secrets of both directions over TH2, with counters
    /// reset. Nothing changes on failure.
    pub fn generate_data_secret<P: SpdmCryptoProvider>(
        &mut self,
        registry: &SpdmCryptoRegistry<P>,
        th2: &SpdmDigestStruct,
    ) -> (r: SpdmResult)
        ensures
            r is Ok ==> {
                &&& final(self).master_secret@.len() == hash_size(old(self).crypto_param.base_hash_algo.bits)
                &&& direction_from(final(self).request_direction, final(self).request_direction.secret@,
                    old(self).crypto_param.base_hash_algo, old(self).crypto_param.aead_algo)
                &&& direction_from(final(self).response_direction, final(self).response_direction.secret@,
                    old(self).crypto_param.base_hash_algo, old(self).crypto_param.aead_algo)
                &&& *final(self) == (SpdmSession {
                    master_secret: final(self).master_secret,
                    request_direction: final(self).request_direction,
                    response_direction: final(self).response_direction,
                    ..*old(self)
                })
            },
            r is Err ==> *final(self) == *old(self),
    {
        let hash = self.crypto_param.base_hash_algo;
        let aead_algo = self.crypto_param.aead_algo;
        let hash_len = hash.get_size();
        let empty: Vec<u8> = Vec::new();
        let l_derived = label_derived();
        let info = bin_concat(hash_len, l_derived.as_slice(), empty.as_slice());
        let salt = match hkdf::hkdf_expand(registry, hash, self.handshake_secret.as_slice(), info.as_slice(), hash_len) {
            Some(d) => d.data,
            None => {
                return Err(SpdmStatus::CryptoFailure);
            },
        };
        let zero_ikm = zeros(hash_len as usize);
        let master_secret = match hmac::hmac(registry, hash, salt.as_slice(), zero_ikm.as_slice()) {
            Some(d) => d.data,
            None => {
                return Err(SpdmStatus::CryptoFailure);
            },
        };
        let l_req = label_req_app_data();
        let l_rsp = label_rsp_app_data();
        let info = bin_concat(hash_len, l_req.as_slice(), th2.data.as_slice());
        let req_secret = match hkdf::hkdf_expand(registry, hash, master_secret.as_slice(), info.as_slice(), hash_len) {
            Some(d) => d.data,
            None => {
                return Err(SpdmStatus::CryptoFailure);
            },
        };
        let info = bin_concat(hash_len, l_rsp.as_slice(), th2.data.as_slice());
        let rsp_secret = match hkdf::hkdf_expand(registry, hash, master_secret.as_slice(), info.as_slice(), hash_len) {
            Some(d) => d.data,
            None => {
                return Err(SpdmStatus::CryptoFailure);
            },
        };
        let request_direction = derive_direction(registry, hash, aead_algo, req_secret)?;
        let response_direction = derive_direction(registry, hash, aead_algo, rsp_secret)?;
        self.master_secret = master_secret;
        self.request_direction = request_direction;
        self.response_direction = response_direction;
        Ok(())
    }

    /// Rotates the data keys of the chosen directions: the new secret is the
    /// old one expanded with "traffic upd", and the counter restarts.
    pub fn create_data_secret_update<P: SpdmCryptoProvider>(
        &mut self,
        registry: &SpdmCryptoRegistry<P>,
        update_requester: bool,
        update_responder: bool,
    ) -> (r: SpdmResult)
        ensures
            r is Err ==> *final(self) == *old(self),
            r is Ok ==> final(self).session_id == old(self).session_id && final(self).state == old(self).state,
            r is Ok ==> final(self).transport_param == old(self).transport_param && final(self).crypto_param
                == old(self).crypto_param && final(self).use_psk == old(self).use_psk,
            r is Ok && !update_requester ==> final(self).request_direction == old(self).request_direction,
            r is Ok && !update_responder ==> final(self).response_direction == old(self).response_direction,
            r is Ok && update_requester ==> final(self).request_direction.sequence_number == 0,
            r is Ok && update_responder ==> final(self).response_direction.sequence_number == 0,
            r is Ok && update_requester ==> final(self).backup_request_direction == Some(old(self).request_direction),
            r is Ok && update_responder ==> final(self).backup_response_direction == Some(old(self).response_direction),
            r is Ok && !update_requester ==> final(self).backup_request_direction == old(self).backup_request_direction,
            r is Ok && !update_responder ==> final(self).backup_response_direction == old(self).backup_response_direction,
            r is Ok ==> final(self).runtime_info == old(self).runtime_info,
    {
        let hash = self.crypto_param.base_hash_algo;
        let aead_algo = self.crypto_param.aead_algo;
        let hash_len = hash.get_size();
        let empty: Vec<u8> = Vec::new();
        let l_upd = label_traffic_upd();
        let info = bin_concat(hash_len, l_upd.as_slice(), empty.as_slice());
        let new_request = if update_requester {
            let s = match hkdf::hkdf_expand(registry, hash, self.request_direction.secret.as_slice(), info.as_slice(), hash_len) {
                Some(d) => d.data,
                None => {
                    return Err(SpdmStatus::CryptoFailure);
                },
            };
            Some(derive_direction(registry, hash, aead_algo, s)?)
        } else {
            None
        };
        let new_response = if update_responder {
            let s = match hkdf::hkdf_expand(registry, hash, self.response_direction.secret.as_slice(), info.as_slice(), hash_len) {
                Some(d) => d.data,
                None => {
                    return Err(SpdmStatus::CryptoFailure);
                },
            };
            Some(derive_direction(registry, hash, aead_algo, s)?)
        } else {
            None
        };
        if let Some(d) = new_request {
            let mut old_direction = d;
            core::mem::swap(&mut old_direction, &mut self.request_direction);
            self.backup_request_direction = Some(old_direction);
        }
        if let Some(d) = new_response {
            let mut old_direction = d;
            core::mem::swap(&mut old_direction, &mut self.response_direction);
            self.backup_response_direction = Some(old_direction);
        }
        Ok(())
    }

    /// Ends a key update: with `use_new_key` the new keys stay; otherwise
    /// the keys the update replaced come back. Either way nothing is kept
    /// in reserve afterwards.
    pub fn activate_data_secret_update(&mut self, use_new_key: bool)
        ensures
            final(self).backup_request_direction is None,
            final(self).backup_response_direction is None,
            final(self).request_direction == if !use_new_key && old(self).backup_request_direction is Some {
                old(self).backup_request_direction->0
            } else {
                old(self).request_direction
            },
            final(self).response_direction == if !use_new_key && old(self).backup_response_direction is Some {
                old(self).backup_response_direction->0
            } else {
                old(self).response_direction
            },
            *final(self) == (SpdmSession {
                request_direction: final(self).request_direction,
                response_direction: final(self).response_direction,
                backup_request_direction: None,
                backup_response_direction: None,
                ..*old(self)
            }),
    {
        let mut req: Option<SpdmSessionDirection> = None;
        core::mem::swap(&mut req, &mut self.backup_request_direction);
        let mut rsp: Option<SpdmSessionDirection> = None;
        core::mem::swap(&mut rsp, &mut self.backup_response_direction);
        if !use_new_key {
            if let Some(d) = req {
                self.request_direction = d;
            }
            if let Some(d) = rsp {
                self.response_direction = d;
            }
        }
    }

    /// HMAC with the responder's finished key.
    pub fn generate_hmac_with_response_finished_key<P: SpdmCryptoProvider>(
        &self,
        registry: &SpdmCryptoRegistry<P>,
        data: &[u8],
    ) -> (r: SpdmResult<SpdmDigestStruct>)
        ensures
            r matches Ok(d) ==> d@.len() == hash_size(self.crypto_param.base_hash_algo.bits) > 0,
    {
        match hmac::hmac(registry, self.crypto_param.base_hash_algo, self.response_direction.finished_key.as_slice(), data) {
            Some(d) => Ok(d),
            None => Err(SpdmStatus::CryptoFailure),
        }
    }

    /// HMAC with the requester's finished key.
    pub fn generate_hmac_with_request_finished_key<P: SpdmCryptoProvider>(
        &self,
        registry: &SpdmCryptoRegistry<P>,
        data: &[u8],
    ) -> (r: SpdmResult<SpdmDigestStruct>)
        ensures
            r matches Ok(d) ==> d@.len() == hash_size(self.crypto_param.base_hash_algo.bits) > 0,
    {
        match hmac::hmac(registry, self.crypto_param.base_hash_algo, self.request_direction.finished_key.as_slice(), data) {
            Some(d) => Ok(d),
            None => Err(SpdmStatus::CryptoFailure),
        }
    }

    /// Checks an HMAC made with the requester's finished key.
    pub fn verify_hmac_with_request_finished_key<P: SpdmCryptoProvider>(
        &self,
        registry: &SpdmCryptoRegistry<P>,
        data: &[u8],
        hmac: &SpdmDigestStruct,
    ) -> (r: SpdmResult)
        ensures
            hmac@.len() != hash_size(self.crypto_param.base_hash_algo.bits) ==> r is Err,
    {
        hmac::hmac_verify(registry, self.crypto_param.base_hash_algo, self.request_direction.finished_key.as_slice(), data, hmac)
    }

    /// Checks an HMAC made with the responder's finished key.
    pub fn verify_hmac_with_response_finished_key<P: SpdmCryptoProvider>(
        &self,
        registry: &SpdmCryptoRegistry<P>,
        data: &[u8],
        hmac: &SpdmDigestStruct,
    ) -> (r: SpdmResult)
        ensures
            hmac@.len() != hash_size(self.crypto_param.base_hash_algo.bits) ==> r is Err,
    {
        hmac::hmac_verify(registry, self.crypto_param.base_hash_algo, self.response_direction.finished_key.as_slice(), data, hmac)
    }
}

} // verus!
verus! {

/// The direction a role sends on: the requester sends on the request
/// direction, the responder on the response direction.
pub open spec fn send_direction(s: SpdmSession, is_requester: bool) -> SpdmSessionDirection {
    if is_requester { s.request_direction } else { s.response_direction }
}

pub open spec fn receive_direction(s: SpdmSession, is_requester: bool) -> SpdmSessionDirection {
    if is_requester { s.response_direction } else { s.request_direction }
}

/// The session with the counter of one direction advanced by one.
pub open spec fn advanced(s: SpdmSession, request_side: bool) -> SpdmSession {
    if request_side {
        SpdmSession {
            request_direction: SpdmSessionDirection {
                sequence_number: (s.request_direction.sequence_number + 1) as u64,
                ..s.request_direction
            },
            ..s
        }
    } else {
        SpdmSession {
            response_direction: SpdmSessionDirection {
                sequence_number: (s.response_direction.sequence_number + 1) as u64,
                ..s.response_direction
            },
            ..s
        }
    }
}

impl SpdmSession {
    /// Seals one application message as a secured record: header
    /// (session id, counter bytes, length), then the encrypted
    /// `length || payload`, then the tag. The nonce is the static IV XORed
    /// with the counter, and the counter then advances by one. A counter
    /// that would wrap ends the session instead.
    pub fn encode_spdm_secured_message<P: SpdmCryptoProvider>(
        &mut self,
        registry: &SpdmCryptoRegistry<P>,
        app_buffer: &[u8],
        is_requester: bool,
    ) -> (r: SpdmResult<Vec<u8>>)
        requires
            old(self).transport_param.sequence_number_count <= 8,
        ensures
            r matches Ok(out) ==> {
                &&& *final(self) == advanced(*old(self), is_requester)
                &&& send_direction(*old(self), is_requester).sequence_number < u64::MAX
                &&& out@.len() == 4 + old(self).transport_param.sequence_number_count + 2 + 2 + app_buffer@.len() + AEAD_TAG_SIZE
                &&& out@.take(4 + old(self).transport_param.sequence_number_count + 2) == spec_record_header(
                    old(self).session_id,
                    send_direction(*old(self), is_requester).sequence_number,
                    old(self).transport_param.sequence_number_count as nat,
                    (2 + app_buffer@.len() + AEAD_TAG_SIZE) as u16,
                )
            },
            r is Err && send_direction(*old(self), is_requester).sequence_number == u64::MAX ==> final(self).state == SpdmSessionState::SpdmSessionNotStarted,
            r is Err && send_direction(*old(self), is_requester).sequence_number < u64::MAX ==> *final(self) == *old(self),
            old(self).state == SpdmSessionState::SpdmSessionNotStarted ==> r is Err,
            final(self).crypto_param == old(self).crypto_param,
            final(self).transport_param == old(self).transport_param,
            final(self).use_psk == old(self).use_psk || !is_active(*final(self)),
    {
        if self.state == SpdmSessionState::SpdmSessionNotStarted {
            return Err(SpdmStatus::InvalidState);
        }
        let seq = if is_requester {
            self.request_direction.sequence_number
        } else {
            self.response_direction.sequence_number
        };
        if seq == u64::MAX {
            let id = self.session_id;
            let _ = self.teardown(id);
            return Err(SpdmStatus::InvalidState);
        }
        if app_buffer.len() > 0xFFFF - 2 - AEAD_TAG_SIZE {
            return Err(SpdmStatus::InvalidParameter);
        }
        let count = self.transport_param.sequence_number_count;
        let length = (2 + app_buffer.len() + AEAD_TAG_SIZE) as u16;
        let mut out: Vec<u8> = Vec::new();
        encode_u32(self.session_id, &mut out);
        encode_seq(seq, count, &mut out);
        encode_u16(length, &mut out);
        let ghost header = out@;
        let mut plain: Vec<u8> = Vec::new();
        encode_u16(app_buffer.len() as u16, &mut plain);
        encode_bytes(app_buffer, &mut plain);
        let sealed = if is_requester {
            let iv = compute_iv(self.request_direction.iv.as_slice(), seq);
            aead::encrypt(registry, self.crypto_param.aead_algo, self.request_direction.key.as_slice(), iv.as_slice(), out.as_slice(), plain.as_slice())
        } else {
            let iv = compute_iv(self.response_direction.iv.as_slice(), seq);
            aead::encrypt(registry, self.crypto_param.aead_algo, self.response_direction.key.as_slice(), iv.as_slice(), out.as_slice(), plain.as_slice())
        };
        let (cipher, tag) = sealed?;
        encode_bytes(cipher.as_slice(), &mut out);
        encode_bytes(tag.as_slice(), &mut out);
        assert(out@.take(header.len() as int) =~= header);
        if is_requester {
            self.request_direction.sequence_number = seq + 1;
        } else {
            self.response_direction.sequence_number = seq + 1;
        }
        Ok(out)
    }

    /// Opens one secured record addressed to this session: the id must be
    /// ours, the counter bytes must match the expected counter, and the tag
    /// must check. Returns the application message; the counter advances.
    pub fn decode_spdm_secured_message<P: SpdmCryptoProvider>(
        &mut self,
        registry: &SpdmCryptoRegistry<P>,
        secured_buffer: &[u8],
        is_requester: bool,
    ) -> (r: SpdmResult<Vec<u8>>)
        requires
            old(self).transport_param.sequence_number_count <= 8,
        ensures
            r is Ok ==> *final(self) == advanced(*old(self), !is_requester),
            r is Ok ==> receive_direction(*old(self), is_requester).sequence_number < u64::MAX,
            r is Ok ==> secured_buffer@.take(4) == spec_u32(old(self).session_id),
            r is Err ==> *final(self) == *old(self),
            old(self).state == SpdmSessionState::SpdmSessionNotStarted ==> r is Err,
    {
        if self.state == SpdmSessionState::SpdmSessionNotStarted {
            return Err(SpdmStatus::InvalidState);
        }
        let seq = if is_requester {
            self.response_direction.sequence_number
        } else {
            self.request_direction.sequence_number
        };
        if seq == u64::MAX {
            return Err(SpdmStatus::InvalidState);
        }
        let count = self.transport_param.sequence_number_count;
        let mut expected: Vec<u8> = Vec::new();
        encode_u32(self.session_id, &mut expected);
        encode_seq(seq, count, &mut expected);
        let header_len = expected.len();
        if secured_buffer.len() < header_len + 2 {
            return Err(SpdmStatus::DecodeFailure);
        }
        let mut i: usize = 0;
        while i < header_len
            invariant
                header_len == expected@.len(),
                header_len + 2 <= secured_buffer@.len(),
                i <= header_len,
                forall|j: int| 0 <= j < i ==> secured_buffer@[j] == expected@[j],
            decreases header_len - i,
        {
            if secured_buffer[i] != expected[i] {
                return Err(SpdmStatus::DecodeFailure);
            }
            i = i + 1;
        }
        assert(secured_buffer@.take(4) =~= spec_u32(self.session_id)) by {
            assert(expected@.take(4) =~= spec_u32(self.session_id));
        }
        let mut reader = Reader::init(&secured_buffer[header_len..secured_buffer.len()]);
        let length = match reader.read_u16() {
            Some(l) => l as usize,
            None => {
                return Err(SpdmStatus::DecodeFailure);
            },
        };
        if length < AEAD_TAG_SIZE + 2 || secured_buffer.len() - header_len - 2 < length {
            return Err(SpdmStatus::DecodeFailure);
        }
        let aad_end = header_len + 2;
        let cipher_end = aad_end + length - AEAD_TAG_SIZE;
        let aad = &secured_buffer[0..aad_end];
        let cipher = &secured_buffer[aad_end..cipher_end];
        let tag = &secured_buffer[cipher_end..cipher_end + AEAD_TAG_SIZE];
        let plain = if is_requester {
            let iv = compute_iv(self.response_direction.iv.as_slice(), seq);
            aead::decrypt(registry, self.crypto_param.aead_algo, self.response_direction.key.as_slice(), iv.as_slice(), aad, cipher, tag)
        } else {
            let iv = compute_iv(self.request_direction.iv.as_slice(), seq);
            aead::decrypt(registry, self.crypto_param.aead_algo, self.request_direction.key.as_slice(), iv.as_slice(), aad, cipher, tag)
        };
        let plain = plain?;
        let mut pr = Reader::init(plain.as_slice());
        let app_len = match pr.read_u16() {
            Some(l) => l as usize,
            None => {
                return Err(SpdmStatus::DecodeFailure);
            },
        };
        let app = match pr.read_bytes(app_len) {
            Some(a) => a,
            None => {
                return Err(SpdmStatus::DecodeFailure);
            },
        };
        if is_requester {
            self.response_direction.sequence_number = seq + 1;
        } else {
            self.request_direction.sequence_number = seq + 1;
        }
        Ok(app)
    }
}

/// The fixed pool of session slots.
pub struct SpdmSessionPool {
    pub sessions: Vec<SpdmSession>,
}

pub open spec fn is_active(s: SpdmSession) -> bool {
    s.state != SpdmSessionState::SpdmSessionNotStarted
}

impl SpdmSessionPool {
    /// The pool has its full size, and no two active slots share an id.
    pub open spec fn wf(&self) -> bool {
        &&& self.sessions@.len() == MAX_SPDM_SESSION_COUNT
        &&& forall|i: int, j: int| 0 <= i < j < self.sessions@.len() && is_active(#[trigger] self.sessions@[i])
            && is_active(#[trigger] self.sessions@[j]) ==> self.sessions@[i].session_id != self.sessions@[j].session_id
    }

    /// The index of the first free slot.
    pub open spec fn first_free(&self) -> Option<int> {
        if exists|i: int| 0 <= i < self.sessions@.len() && !is_active(#[trigger] self.sessions@[i]) {
            Some(choose|i: int| 0 <= i < self.sessions@.len() && !is_active(#[trigger] self.sessions@[i])
                && forall|j: int| 0 <= j < i ==> is_active(#[trigger] self.sessions@[j]))
        } else {
            None
        }
    }

    pub fn new() -> (p: SpdmSessionPool)
        ensures
            p.wf(),
            forall|i: int| 0 <= i < p.sessions@.len() ==> !is_active(#[trigger] p.sessions@[i]),
    {
        let mut sessions: Vec<SpdmSession> = Vec::new();
        while sessions.len() < MAX_SPDM_SESSION_COUNT
            invariant
                sessions@.len() <= MAX_SPDM_SESSION_COUNT,
                forall|i: int| 0 <= i < sessions@.len() ==> !is_active(#[trigger] sessions@[i]),
            decreases MAX_SPDM_SESSION_COUNT - sessions@.len(),
        {
            sessions.push(SpdmSession::new());
        }
        SpdmSessionPool { sessions }
    }

    /// The first slot that is not in use.
    pub fn get_next_available_session(&self) -> (r: Option<usize>)
        ensures
            r is None <==> forall|i: int| 0 <= i < self.sessions@.len() ==> is_active(#[trigger] self.sessions@[i]),
            r matches Some(i) ==> i < self.sessions@.len() && !is_active(self.sessions@[i as int])
                && forall|j: int| 0 <= j < i ==> is_active(#[trigger] self.sessions@[j]),
    {
        let mut i: usize = 0;
        while i < self.sessions.len()
            invariant
                i <= self.sessions@.len(),
                forall|j: int| 0 <= j < i ==> is_active(#[trigger] self.sessions@[j]),
            decreases self.sessions@.len() - i,
        {
            if self.sessions[i].state == SpdmSessionState::SpdmSessionNotStarted {
                return Some(i);
            }
            i = i + 1;
        }
        None
    }

    /// The active slot that holds `session_id`.
    pub fn get_session_via_id(&self, session_id: u32) -> (r: Option<usize>)
        ensures
            r is None <==> forall|i: int| 0 <= i < self.sessions@.len() ==> !(is_active(#[trigger] self.sessions@[i])
                && self.sessions@[i].session_id == session_id),
            r matches Some(i) ==> i < self.sessions@.len() && is_active(self.sessions@[i as int])
                && self.sessions@[i as int].session_id == session_id,
    {
        let mut i: usize = 0;
        while i < self.sessions.len()
            invariant
                i <= self.sessions@.len(),
                forall|j: int| 0 <= j < i ==> !(is_active(#[trigger] self.sessions@[j]) && self.sessions@[j].session_id == session_id),
            decreases self.sessions@.len() - i,
        {
            if self.sessions[i].state != SpdmSessionState::SpdmSessionNotStarted && self.sessions[i].session_id == session_id {
                return Some(i);
            }
            i = i + 1;
        }
        None
    }

    /// Starts session `session_id` in free slot `index`; refused when the
    /// slot is taken or the id is already active.
    pub fn setup(&mut self, index: usize, session_id: u32) -> (r: SpdmResult)
        requires
            old(self).wf(),
        ensures
            final(self).wf(),
            r is Ok <==> index < old(self).sessions@.len() && !is_active(old(self).sessions@[index as int])
                && forall|i: int| 0 <= i < old(self).sessions@.len() ==> !(is_active(#[trigger] old(self).sessions@[i])
                && old(self).sessions@[i].session_id == session_id),
            r is Ok ==> final(self).sessions@ == old(self).sessions@.update(index as int, SpdmSession {
                session_id,
                state: SpdmSessionState::SpdmSessionHandshaking,
                ..old(self).sessions@[index as int]
            }),
            r is Err ==> *final(self) == *old(self),
    {
        if index >= self.sessions.len() || self.sessions[index].state != SpdmSessionState::SpdmSessionNotStarted {
            return Err(SpdmStatus::InvalidParameter);
        }
        if self.get_session_via_id(session_id).is_some() {
            return Err(SpdmStatus::InvalidParameter);
        }
        let r = self.sessions[index].setup(session_id);
        assert(self.sessions@ =~= old(self).sessions@.update(index as int, SpdmSession {
            session_id,
            state: SpdmSessionState::SpdmSessionHandshaking,
            ..old(self).sessions@[index as int]
        }));
        assert forall|i: int, j: int| 0 <= i < j < self.sessions@.len() && is_active(#[trigger] self.sessions@[i])
            && is_active(#[trigger] self.sessions@[j]) implies self.sessions@[i].session_id != self.sessions@[j].session_id by {
            if i != index && j != index {
                assert(self.sessions@[i] == old(self).sessions@[i]);
                assert(self.sessions@[j] == old(self).sessions@[j]);
            } else if i == index {
                assert(self.sessions@[j] == old(self).sessions@[j]);
            } else {
                assert(self.sessions@[i] == old(self).sessions@[i]);
            }
        }
        r
    }

    /// Puts a started session into free slot `index`; refused when the slot
    /// is taken or another active slot holds the same id.
    pub fn install(&mut self, index: usize, session: SpdmSession) -> (r: SpdmResult)
        requires
            old(self).wf(),
        ensures
            final(self).wf(),
            r is Ok <==> index < old(self).sessions@.len() && !is_active(old(self).sessions@[index as int])
                && is_active(session) && forall|i: int| 0 <= i < old(self).sessions@.len() ==> !(is_active(
                #[trigger] old(self).sessions@[i]) && old(self).sessions@[i].session_id == session.session_id),
            r is Ok ==> final(self).sessions@ == old(self).sessions@.update(index as int, session),
            r is Err ==> *final(self) == *old(self),
    {
        if index >= self.sessions.len() || self.sessions[index].state != SpdmSessionState::SpdmSessionNotStarted
            || session.state == SpdmSessionState::SpdmSessionNotStarted {
            return Err(SpdmStatus::InvalidParameter);
        }
        if self.get_session_via_id(session.session_id).is_some() {
            return Err(SpdmStatus::InvalidParameter);
        }
        let ghost s = session;
        self.sessions.set(index, session);
        assert forall|i: int, j: int| 0 <= i < j < self.sessions@.len() && is_active(#[trigger] self.sessions@[i])
            && is_active(#[trigger] self.sessions@[j]) implies self.sessions@[i].session_id != self.sessions@[j].session_id by {
            if i != index && j != index {
                assert(self.sessions@[i] == old(self).sessions@[i]);
                assert(self.sessions@[j] == old(self).sessions@[j]);
            } else if i == index {
                assert(self.sessions@[j] == old(self).sessions@[j]);
            } else {
                assert(self.sessions@[i] == old(self).sessions@[i]);
            }
        }
        Ok(())
    }

    /// Takes the session out of slot `index`, leaving a free slot.
    pub fn take(&mut self, index: usize) -> (s: SpdmSession)
        requires
            old(self).wf(),
            index < old(self).sessions@.len(),
        ensures
            final(self).wf(),
            s == old(self).sessions@[index as int],
            !is_active(final(self).sessions@[index as int]),
            secrets_zeroed(final(self).sessions@[index as int]),
            final(self).sessions@ == old(self).sessions@.update(index as int, final(self).sessions@[index as int]),
    {
        let mut s = SpdmSession::new();
        core::mem::swap(&mut s, &mut self.sessions[index]);
        assert forall|i: int, j: int| 0 <= i < j < self.sessions@.len() && is_active(#[trigger] self.sessions@[i])
            && is_active(#[trigger] self.sessions@[j]) implies self.sessions@[i].session_id != self.sessions@[j].session_id by {
            assert(self.sessions@[i] == old(self).sessions@[i]);
            assert(self.sessions@[j] == old(self).sessions@[j]);
        }
        s
    }

    /// Puts a session back into the free slot `index`. The session is
    /// inactive, or no other active slot holds its id.
    pub fn put_back(&mut self, index: usize, s: SpdmSession)
        requires
            old(self).wf(),
            index < old(self).sessions@.len(),
            !is_active(old(self).sessions@[index as int]),
            is_active(s) ==> forall|j: int| 0 <= j < old(self).sessions@.len() && j != index ==> !(is_active(
                #[trigger] old(self).sessions@[j]) && old(self).sessions@[j].session_id == s.session_id),
        ensures
            final(self).wf(),
            final(self).sessions@ == old(self).sessions@.update(index as int, s),
    {
        self.sessions.set(index, s);
        assert forall|i: int, j: int| 0 <= i < j < self.sessions@.len() && is_active(#[trigger] self.sessions@[i])
            && is_active(#[trigger] self.sessions@[j]) implies self.sessions@[i].session_id != self.sessions@[j].session_id by {
            if i != index && j != index {
                assert(self.sessions@[i] == old(self).sessions@[i]);
                assert(self.sessions@[j] == old(self).sessions@[j]);
            } else if i == index {
                assert(self.sessions@[j] == old(self).sessions@[j]);
            } else {
                assert(self.sessions@[i] == old(self).sessions@[i]);
            }
        }
    }

    /// Ends session `session_id`: its slot is zeroed and freed.
    pub fn teardown(&mut self, session_id: u32) -> (r: SpdmResult)
        requires
            old(self).wf(),
        ensures
            final(self).wf(),
            r is Ok <==> exists|i: int| 0 <= i < old(self).sessions@.len() && is_active(#[trigger] old(self).sessions@[i])
                && old(self).sessions@[i].session_id == session_id,
            r is Ok ==> exists|i: int| 0 <= i < old(self).sessions@.len() && is_active(#[trigger] old(self).sessions@[i])
                && old(self).sessions@[i].session_id == session_id
                && !is_active(final(self).sessions@[i]) && secrets_zeroed(final(self).sessions@[i])
                && final(self).sessions@ == old(self).sessions@.update(i, final(self).sessions@[i]),
            r is Err ==> *final(self) == *old(self),
    {
        match self.get_session_via_id(session_id) {
            None => Err(SpdmStatus::InvalidParameter),
            Some(index) => {
                let r = self.sessions[index].teardown(session_id);
                assert(self.sessions@ =~= old(self).sessions@.update(index as int, self.sessions@[index as int]));
                assert forall|i: int, j: int| 0 <= i < j < self.sessions@.len() && is_active(#[trigger] self.sessions@[i])
                    && is_active(#[trigger] self.sessions@[j]) implies self.sessions@[i].session_id != self.sessions@[j].session_id by {
                    assert(self.sessions@[i] == old(self).sessions@[i]);
                    assert(self.sessions@[j] == old(self).sessions@[j]);
                }
                r
            },
        }
    }
}

/// Once the slot that `get_next_available_session` returned has been set
/// up, the next call returns a different slot (or none): two sessions are
/// never handed the same slot.
pub proof fn lemma_session_slots_distinct(before: SpdmSessionPool, after: SpdmSessionPool, index: int, session_id: u32)
    requires
        before.wf(),
        0 <= index < before.sessions@.len(),
        !is_active(before.sessions@[index]),
        forall|j: int| 0 <= j < index ==> is_active(#[trigger] before.sessions@[j]),
        after.sessions@ == before.sessions@.update(index, SpdmSession {
            session_id,
            state: SpdmSessionState::SpdmSessionHandshaking,
            ..before.sessions@[index]
        }),
    ensures
        forall|k: int| 0 <= k < after.sessions@.len() && !is_active(#[trigger] after.sessions@[k]) ==> k != index && k > index,
        is_active(after.sessions@[index]) && after.sessions@[index].session_id == session_id,
{
    assert forall|k: int| 0 <= k < after.sessions@.len() && !is_active(#[trigger] after.sessions@[k]) implies k != index && k > index by {
        if k < index {
            assert(after.sessions@[k] == before.sessions@[k]);
        }
    }
}

} // verus!
verus! {

/// In a well-formed pool an active id names one slot only: once `setup`
/// has placed `session_id` in slot `index`, `get_session_via_id` can only
/// return that slot.
pub proof fn lemma_lookup_finds_setup_slot(pool: SpdmSessionPool, index: int, session_id: u32)
    requires
        pool.wf(),
        0 <= index < pool.sessions@.len(),
        is_active(pool.sessions@[index]),
        pool.sessions@[index].session_id == session_id,
    ensures
        forall|j: int| 0 <= j < pool.sessions@.len() && is_active(#[trigger] pool.sessions@[j])
            && pool.sessions@[j].session_id == session_id ==> j == index,
{
    assert forall|j: int| 0 <= j < pool.sessions@.len() && is_active(#[trigger] pool.sessions@[j])
        && pool.sessions@[j].session_id == session_id implies j == index by {
        if j < index {
            assert(pool.sessions@[j].session_id != pool.sessions@[index].session_id);
        } else if j > index {
            assert(pool.sessions@[index].session_id != pool.sessions@[j].session_id);
        }
    }
}

} // verus!
