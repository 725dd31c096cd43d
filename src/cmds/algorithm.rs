//! NEGOTIATE_ALGORITHMS and ALGORITHMS payloads, with the four algorithm
//! structure tables (DHE, AEAD, requester asymmetric, key schedule).
use vstd::prelude::*;
use crate::codec::{encode_u16, encode_u32, Reader};

verus! {

pub const SPDM_ALG_TYPE_DHE: u8 = 2;
pub const SPDM_ALG_TYPE_AEAD: u8 = 3;
pub const SPDM_ALG_TYPE_REQ_ASYM: u8 = 4;
pub const SPDM_ALG_TYPE_KEY_SCHEDULE: u8 = 5;

/// What one side offers or selects. The DHE, AEAD, requester asymmetric and
/// key schedule masks travel in the algorithm structure tables.
#[derive(Debug, Clone, Copy, PartialEq, Eq, Structural)]
pub struct SpdmAlgorithmsPayload {
    pub measurement_specification: u8,
    pub measurement_hash_algo: u32,
    pub base_asym_algo: u32,
    pub base_hash_algo: u32,
    pub dhe: u16,
    pub aead: u16,
    pub req_asym: u16,
    pub key_schedule: u16,
}

/// The four tables: type, fixed count byte 0x20, then the two-byte mask.
pub open spec fn spec_alg_tables(p: SpdmAlgorithmsPayload) -> Seq<u8> {
    seq![2u8, 0x20u8, (p.dhe % 256) as u8, (p.dhe / 256) as u8,
        3u8, 0x20u8, (p.aead % 256) as u8, (p.aead / 256) as u8,
        4u8, 0x20u8, (p.req_asym % 256) as u8, (p.req_asym / 256) as u8,
        5u8, 0x20u8, (p.key_schedule % 256) as u8, (p.key_schedule / 256) as u8]
}

/// NEGOTIATE_ALGORITHMS after the header: table count, reserved, total
/// message length (48), measurement specification, reserved, asymmetric
/// and hash masks, reserved bytes and zero extension counts, the tables.
pub open spec fn spec_negotiate_algorithms(p: SpdmAlgorithmsPayload) -> Seq<u8> {
    seq![4u8, 0u8, 48u8, 0u8, p.measurement_specification, 0u8,
        (p.base_asym_algo % 256) as u8, ((p.base_asym_algo / 256) % 256) as u8, ((p.base_asym_algo / 65536) % 256) as u8, (p.base_asym_algo / 16777216) as u8,
        (p.base_hash_algo % 256) as u8, ((p.base_hash_algo / 256) % 256) as u8, ((p.base_hash_algo / 65536) % 256) as u8, (p.base_hash_algo / 16777216) as u8,
        0u8, 0u8, 0u8, 0u8, 0u8, 0u8, 0u8, 0u8, 0u8, 0u8, 0u8, 0u8, 0u8, 0u8, 0u8, 0u8] + spec_alg_tables(p)
}

/// ALGORITHMS after the header: as above with the total length 52 and the
/// measurement hash mask before the asymmetric and hash selections.
pub open spec fn spec_algorithms(p: SpdmAlgorithmsPayload) -> Seq<u8> {
    seq![4u8, 0u8, 52u8, 0u8, p.measurement_specification, 0u8,
        (p.measurement_hash_algo % 256) as u8, ((p.measurement_hash_algo / 256) % 256) as u8, ((p.measurement_hash_algo / 65536) % 256) as u8, (p.measurement_hash_algo / 16777216) as u8,
        (p.base_asym_algo % 256) as u8, ((p.base_asym_algo / 256) % 256) as u8, ((p.base_asym_algo / 65536) % 256) as u8, (p.base_asym_algo / 16777216) as u8,
        (p.base_hash_algo % 256) as u8, ((p.base_hash_algo / 256) % 256) as u8, ((p.base_hash_algo / 65536) % 256) as u8, (p.base_hash_algo / 16777216) as u8,
        0u8, 0u8, 0u8, 0u8, 0u8, 0u8, 0u8, 0u8, 0u8, 0u8, 0u8, 0u8, 0u8, 0u8, 0u8, 0u8] + spec_alg_tables(p)
}
pub open spec fn zeros_seq(n: nat) -> Seq<u8> {
    Seq::new(n, |i: int| 0u8)
}

pub open spec fn u16_at(s: Seq<u8>, off: int) -> u16 {
    (s[off] + 256 * s[off + 1]) as u16
}

pub open spec fn u32_at(s: Seq<u8>, off: int) -> u32 {
    (s[off] + 256 * s[off + 1] + 65536 * s[off + 2] + 16777216 * s[off + 3]) as u32
}

/// The four tables at `off` are well formed: the expected types in order,
/// each with a fixed-size mask of two bytes.
pub open spec fn tables_ok(s: Seq<u8>, off: int) -> bool {
    &&& s[off] == SPDM_ALG_TYPE_DHE && s[off + 1] == 0x20
    &&& s[off + 4] == SPDM_ALG_TYPE_AEAD && s[off + 5] == 0x20
    &&& s[off + 8] == SPDM_ALG_TYPE_REQ_ASYM && s[off + 9] == 0x20
    &&& s[off + 12] == SPDM_ALG_TYPE_KEY_SCHEDULE && s[off + 13] == 0x20
}

/// Accepts a request with four well-formed tables and no extensions.
pub open spec fn parse_negotiate_algorithms(s: Seq<u8>) -> Option<(SpdmAlgorithmsPayload, Seq<u8>)> {
    if s.len() >= 46 && s[0] == 4 && s[26] == 0 && s[27] == 0 && tables_ok(s, 30) {
        Some((
            SpdmAlgorithmsPayload {
                measurement_specification: s[4],
                measurement_hash_algo: 0,
                base_asym_algo: u32_at(s, 6),
                base_hash_algo: u32_at(s, 10),
                dhe: u16_at(s, 32),
                aead: u16_at(s, 36),
                req_asym: u16_at(s, 40),
                key_schedule: u16_at(s, 44),
            },
            s.skip(46),
        ))
    } else {
        None
    }
}

/// Accepts a response with four well-formed tables and no extensions.
pub open spec fn parse_algorithms(s: Seq<u8>) -> Option<(SpdmAlgorithmsPayload, Seq<u8>)> {
    if s.len() >= 50 && s[0] == 4 && s[30] == 0 && s[31] == 0 && tables_ok(s, 34) {
        Some((
            SpdmAlgorithmsPayload {
                measurement_specification: s[4],
                measurement_hash_algo: u32_at(s, 6),
                base_asym_algo: u32_at(s, 10),
                base_hash_algo: u32_at(s, 14),
                dhe: u16_at(s, 36),
                aead: u16_at(s, 40),
                req_asym: u16_at(s, 44),
                key_schedule: u16_at(s, 48),
            },
            s.skip(50),
        ))
    } else {
        None
    }
}

fn get_u16_at(b: &Vec<u8>, off: usize) -> (r: u16)
    requires
        off + 2 <= b.len(),
    ensures
        r == u16_at(b@, off as int),
{
    b[off] as u16 + 256 * b[off + 1] as u16
}

fn get_u32_at(b: &Vec<u8>, off: usize) -> (r: u32)
    requires
        off + 4 <= b.len(),
    ensures
        r == u32_at(b@, off as int),
{
    b[off] as u32 + 256 * b[off + 1] as u32 + 65536 * b[off + 2] as u32 + 16777216 * b[off + 3] as u32
}

fn get_tables_ok(b: &Vec<u8>, off: usize) -> (r: bool)
    requires
        off + 16 <= b.len(),
    ensures
        r == tables_ok(b@, off as int),
{
    b[off] == SPDM_ALG_TYPE_DHE && b[off + 1] == 0x20 && b[off + 4] == SPDM_ALG_TYPE_AEAD && b[off + 5] == 0x20
        && b[off + 8] == SPDM_ALG_TYPE_REQ_ASYM && b[off + 9] == 0x20 && b[off + 12] == SPDM_ALG_TYPE_KEY_SCHEDULE
        && b[off + 13] == 0x20
}

fn encode_zeros(n: usize, w: &mut Vec<u8>)
    ensures
        final(w)@ == old(w)@ + zeros_seq(n as nat),
{
    let mut i: usize = 0;
    while i < n
        invariant
            i <= n,
            w@ =~= old(w)@ + zeros_seq(i as nat),
        decreases n - i,
    {
        w.push(0);
        i = i + 1;
    }
}

fn encode_alg_tables(p: &SpdmAlgorithmsPayload, w: &mut Vec<u8>)
    ensures
        final(w)@ == old(w)@ + spec_alg_tables(*p),
{
    w.push(SPDM_ALG_TYPE_DHE);
    w.push(0x20);
    encode_u16(p.dhe, w);
    w.push(SPDM_ALG_TYPE_AEAD);
    w.push(0x20);
    encode_u16(p.aead, w);
    w.push(SPDM_ALG_TYPE_REQ_ASYM);
    w.push(0x20);
    encode_u16(p.req_asym, w);
    w.push(SPDM_ALG_TYPE_KEY_SCHEDULE);
    w.push(0x20);
    encode_u16(p.key_schedule, w);
    assert(final(w)@ =~= old(w)@ + spec_alg_tables(*p));
}

impl SpdmAlgorithmsPayload {
    pub fn encode_negotiate_algorithms(&self, w: &mut Vec<u8>)
        ensures
            final(w)@ == old(w)@ + spec_negotiate_algorithms(*self),
    {
        w.push(4);
        w.push(0);
        encode_u16(48, w);
        w.push(self.measurement_specification);
        w.push(0);
        encode_u32(self.base_asym_algo, w);
        encode_u32(self.base_hash_algo, w);
        encode_zeros(16, w);
        encode_alg_tables(self, w);
        assert(final(w)@ =~= old(w)@ + spec_negotiate_algorithms(*self));
    }

    pub fn encode_algorithms(&self, w: &mut Vec<u8>)
        ensures
            final(w)@ == old(w)@ + spec_algorithms(*self),
    {
        w.push(4);
        w.push(0);
        encode_u16(52, w);
        w.push(self.measurement_specification);
        w.push(0);
        encode_u32(self.measurement_hash_algo, w);
        encode_u32(self.base_asym_algo, w);
        encode_u32(self.base_hash_algo, w);
        encode_zeros(16, w);
        encode_alg_tables(self, w);
        assert(final(w)@ =~= old(w)@ + spec_algorithms(*self));
    }

    pub fn read_negotiate_algorithms(r: &mut Reader) -> (p: Option<SpdmAlgorithmsPayload>)
        requires
            old(r).wf(),
        ensures
            final(r).wf(),
            final(r).buf@ == old(r).buf@,
            match parse_negotiate_algorithms(old(r).rest()) {
                Some((v, rest)) => p == Some(v) && final(r).rest() == rest,
                None => p is None,
            },
    {
        let b = r.read_bytes(46);
        if b.is_none() {
            return None;
        }
        let b = b.unwrap();
        if b[0] != 4 || b[26] != 0 || b[27] != 0 || !get_tables_ok(&b, 30) {
            return None;
        }
        Some(SpdmAlgorithmsPayload {
            measurement_specification: b[4],
            measurement_hash_algo: 0,
            base_asym_algo: get_u32_at(&b, 6),
            base_hash_algo: get_u32_at(&b, 10),
            dhe: get_u16_at(&b, 32),
            aead: get_u16_at(&b, 36),
            req_asym: get_u16_at(&b, 40),
            key_schedule: get_u16_at(&b, 44),
        })
    }

    pub fn read_algorithms(r: &mut Reader) -> (p: Option<SpdmAlgorithmsPayload>)
        requires
            old(r).wf(),
        ensures
            final(r).wf(),
            final(r).buf@ == old(r).buf@,
            match parse_algorithms(old(r).rest()) {
                Some((v, rest)) => p == Some(v) && final(r).rest() == rest,
                None => p is None,
            },
    {
        let b = r.read_bytes(50);
        if b.is_none() {
            return None;
        }
        let b = b.unwrap();
        if b[0] != 4 || b[30] != 0 || b[31] != 0 || !get_tables_ok(&b, 34) {
            return None;
        }
        Some(SpdmAlgorithmsPayload {
            measurement_specification: b[4],
            measurement_hash_algo: get_u32_at(&b, 6),
            base_asym_algo: get_u32_at(&b, 10),
            base_hash_algo: get_u32_at(&b, 14),
            dhe: get_u16_at(&b, 36),
            aead: get_u16_at(&b, 40),
            req_asym: get_u16_at(&b, 44),
            key_schedule: get_u16_at(&b, 48),
        })
    }
}

/// NEGOTIATE_ALGORITHMS decodes from its encoding to what was offered
/// (the measurement hash mask is not part of the request).
#[verifier::rlimit(100)]
#[verifier::spinoff_prover]
pub proof fn lemma_negotiate_algorithms_round_trip(p: SpdmAlgorithmsPayload, rest: Seq<u8>)
    requires
        p.measurement_hash_algo == 0,
    ensures
        parse_negotiate_algorithms(spec_negotiate_algorithms(p) + rest) == Some((p, rest)),
{
    let s = spec_negotiate_algorithms(p) + rest;
    assert(s.skip(46) =~= rest);
}

/// ALGORITHMS decodes from its encoding to the selections.
#[verifier::rlimit(100)]
#[verifier::spinoff_prover]
pub proof fn lemma_algorithms_round_trip(p: SpdmAlgorithmsPayload, rest: Seq<u8>)
    ensures
        parse_algorithms(spec_algorithms(p) + rest) == Some((p, rest)),
{
    let s = spec_algorithms(p) + rest;
    assert(s.skip(50) =~= rest);
}

} // verus!
