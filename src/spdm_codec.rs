//! Certificate chain, PSK context and hint, opaque data, and the
//! measurement block and record structures.
use vstd::prelude::*;
use crate::codec::{
    encode_bytes, encode_u16, encode_u24, lemma_bytes_round_trip, lemma_u16_round_trip,
    lemma_u24_round_trip, parse_bytes, parse_u16, parse_u24, spec_u16, spec_u24, Reader,
};
use crate::config::MAX_SPDM_MEASUREMENT_BLOCK_COUNT;
use crate::msgs::SpdmDigestStruct;

verus! {

/// PSK context bytes; their count is carried by the enclosing message.
#[derive(Debug, Clone, PartialEq, Eq)]
pub struct SpdmPskContextStruct {
    pub data: Vec<u8>,
}

/// PSK hint bytes; their count is carried by the enclosing message.
#[derive(Debug, Clone, PartialEq, Eq)]
pub struct SpdmPskHintStruct {
    pub data: Vec<u8>,
}

impl SpdmPskContextStruct {
    pub fn spdm_encode(&self, w: &mut Vec<u8>)
        ensures
            final(w)@ == old(w)@ + self.data@,
    {
        encode_bytes(self.data.as_slice(), w);
    }

    pub fn spdm_read(size: u16, r: &mut Reader) -> (d: Option<SpdmPskContextStruct>)
        requires
            old(r).wf(),
        ensures
            final(r).wf(),
            final(r).buf@ == old(r).buf@,
            match parse_bytes(old(r).rest(), size as nat) {
                Some((v, rest)) => d is Some && d->0.data@ == v && final(r).rest() == rest,
                None => d is None,
            },
    {
        match r.read_bytes(size as usize) {
            Some(data) => Some(SpdmPskContextStruct { data }),
            None => None,
        }
    }
}

impl SpdmPskHintStruct {
    pub fn spdm_encode(&self, w: &mut Vec<u8>)
        ensures
            final(w)@ == old(w)@ + self.data@,
    {
        encode_bytes(self.data.as_slice(), w);
    }

    pub fn spdm_read(size: u16, r: &mut Reader) -> (d: Option<SpdmPskHintStruct>)
        requires
            old(r).wf(),
        ensures
            final(r).wf(),
            final(r).buf@ == old(r).buf@,
            match parse_bytes(old(r).rest(), size as nat) {
                Some((v, rest)) => d is Some && d->0.data@ == v && final(r).rest() == rest,
                None => d is None,
            },
    {
        match r.read_bytes(size as usize) {
            Some(data) => Some(SpdmPskHintStruct { data }),
            None => None,
        }
    }
}

/// Opaque data: a 16-bit length, then that many bytes.
#[derive(Debug, Clone, PartialEq, Eq)]
pub struct SpdmOpaqueStruct {
    pub data: Vec<u8>,
}

pub open spec fn spec_opaque(d: Seq<u8>) -> Seq<u8> {
    spec_u16(d.len() as u16) + d
}

pub open spec fn parse_opaque(s: Seq<u8>) -> Option<(Seq<u8>, Seq<u8>)> {
    match parse_u16(s) {
        Some((n, s1)) => parse_bytes(s1, n as nat),
        None => None,
    }
}

impl SpdmOpaqueStruct {
    pub fn spdm_encode(&self, w: &mut Vec<u8>)
        requires
            self.data@.len() <= 0xFFFF,
        ensures
            final(w)@ == old(w)@ + spec_opaque(self.data@),
    {
        encode_u16(self.data.len() as u16, w);
        encode_bytes(self.data.as_slice(), w);
        assert(final(w)@ =~= old(w)@ + spec_opaque(self.data@));
    }

    pub fn spdm_read(r: &mut Reader) -> (d: Option<SpdmOpaqueStruct>)
        requires
            old(r).wf(),
        ensures
            final(r).wf(),
            final(r).buf@ == old(r).buf@,
            match parse_opaque(old(r).rest()) {
                Some((v, rest)) => d is Some && d->0.data@ == v && final(r).rest() == rest,
                None => d is None,
            },
    {
        match r.read_u16() {
            Some(n) => match r.read_bytes(n as usize) {
                Some(data) => Some(SpdmOpaqueStruct { data }),
                None => None,
            },
            None => None,
        }
    }
}

#[verifier::spinoff_prover]
pub proof fn lemma_opaque_round_trip(d: Seq<u8>, rest: Seq<u8>)
    requires
        d.len() <= 0xFFFF,
    ensures
        parse_opaque(spec_opaque(d) + rest) == Some((d, rest)),
{
    lemma_u16_round_trip(d.len() as u16, d + rest);
    assert(spec_opaque(d) + rest =~= spec_u16(d.len() as u16) + (d + rest));
    lemma_bytes_round_trip(d, rest);
}

/// Certificate chain: total length, reserved, root hash, then the DER chain.
#[derive(Debug, Clone, PartialEq, Eq)]
pub struct SpdmCertChain {
    pub root_hash: SpdmDigestStruct,
    pub cert_chain: Vec<u8>,
}

pub ghost struct CertChainModel {
    pub root_hash: Seq<u8>,
    pub cert_chain: Seq<u8>,
}

impl View for SpdmCertChain {
    type V = CertChainModel;

    open spec fn view(&self) -> CertChainModel {
        CertChainModel { root_hash: self.root_hash@, cert_chain: self.cert_chain@ }
    }
}

pub open spec fn spec_cert_chain(c: CertChainModel) -> Seq<u8> {
    spec_u16((c.cert_chain.len() + c.root_hash.len() + 4) as u16) + spec_u16(0) + c.root_hash
        + c.cert_chain
}

/// The length field counts itself, the reserved field, the root hash of the
/// negotiated size and the chain; a length too short for the first three is
/// refused.
pub open spec fn parse_cert_chain(hash_size: nat, s: Seq<u8>) -> Option<(CertChainModel, Seq<u8>)> {
    match parse_u16(s) {
        Some((length, s1)) => match parse_u16(s1) {
            Some((_, s2)) => match parse_bytes(s2, hash_size) {
                Some((root_hash, s3)) => if length >= 4 + hash_size {
                    match parse_bytes(s3, (length - 4 - hash_size) as nat) {
                        Some((cert_chain, s4)) => Some((CertChainModel { root_hash, cert_chain }, s4)),
                        None => None,
                    }
                } else {
                    None
                },
                None => None,
            },
            None => None,
        },
        None => None,
    }
}

impl SpdmCertChain {
    pub fn spdm_encode(&self, w: &mut Vec<u8>)
        requires
            self.cert_chain@.len() + self.root_hash@.len() + 4 <= 0xFFFF,
        ensures
            final(w)@ == old(w)@ + spec_cert_chain(self@),
    {
        let length = (self.cert_chain.len() + self.root_hash.data.len() + 4) as u16;
        encode_u16(length, w);
        encode_u16(0, w);
        self.root_hash.spdm_encode(w);
        encode_bytes(self.cert_chain.as_slice(), w);
        assert(final(w)@ =~= old(w)@ + spec_cert_chain(self@));
    }

    pub fn spdm_read(hash_size: u16, r: &mut Reader) -> (c: Option<SpdmCertChain>)
        requires
            old(r).wf(),
        ensures
            final(r).wf(),
            final(r).buf@ == old(r).buf@,
            match parse_cert_chain(hash_size as nat, old(r).rest()) {
                Some((v, rest)) => c is Some && c->0@ == v && final(r).rest() == rest,
                None => c is None,
            },
    {
        let length = r.read_u16();
        if length.is_none() {
            return None;
        }
        let length = length.unwrap();
        if r.read_u16().is_none() {
            return None;
        }
        let root_hash = SpdmDigestStruct::spdm_read(hash_size, r);
        if root_hash.is_none() {
            return None;
        }
        if (length as u32) < 4 + hash_size as u32 {
            return None;
        }
        let data_size = length - 4 - hash_size;
        match r.read_bytes(data_size as usize) {
            Some(cert_chain) => Some(SpdmCertChain { root_hash: root_hash.unwrap(), cert_chain }),
            None => None,
        }
    }
}

#[verifier::spinoff_prover]
pub proof fn lemma_cert_chain_round_trip(c: CertChainModel, rest: Seq<u8>)
    requires
        c.cert_chain.len() + c.root_hash.len() + 4 <= 0xFFFF,
    ensures
        parse_cert_chain(c.root_hash.len(), spec_cert_chain(c) + rest) == Some((c, rest)),
{
    let length = (c.cert_chain.len() + c.root_hash.len() + 4) as u16;
    let tail = c.root_hash + (c.cert_chain + rest);
    assert(spec_cert_chain(c) + rest =~= spec_u16(length) + (spec_u16(0) + tail));
    lemma_u16_round_trip(length, spec_u16(0) + tail);
    lemma_u16_round_trip(0, tail);
    lemma_bytes_round_trip(c.root_hash, c.cert_chain + rest);
    lemma_bytes_round_trip(c.cert_chain, rest);
}

/// What a DMTF measurement measures.
#[derive(Debug, Clone, Copy, PartialEq, Eq, Structural)]
pub enum SpdmDmtfMeasurementType {
    SpdmDmtfMeasurementRom,
    SpdmDmtfMeasurementFirmware,
    SpdmDmtfMeasurementHardwareConfig,
    SpdmDmtfMeasurementFirmwareConfig,
    SpdmDmtfMeasurementManifest,
    Unknown(u8),
}

/// How the value is represented: a digest, or the raw bit stream.
#[derive(Debug, Clone, Copy, PartialEq, Eq, Structural)]
pub enum SpdmDmtfMeasurementRepresentation {
    SpdmDmtfMeasurementDigest,
    SpdmDmtfMeasurementRawBit,
}

pub open spec fn type_to_u8(t: SpdmDmtfMeasurementType) -> u8 {
    match t {
        SpdmDmtfMeasurementType::SpdmDmtfMeasurementRom => 0,
        SpdmDmtfMeasurementType::SpdmDmtfMeasurementFirmware => 1,
        SpdmDmtfMeasurementType::SpdmDmtfMeasurementHardwareConfig => 2,
        SpdmDmtfMeasurementType::SpdmDmtfMeasurementFirmwareConfig => 3,
        SpdmDmtfMeasurementType::SpdmDmtfMeasurementManifest => 4,
        SpdmDmtfMeasurementType::Unknown(b) => b,
    }
}

pub open spec fn type_from_u8(b: u8) -> SpdmDmtfMeasurementType {
    if b == 0 {
        SpdmDmtfMeasurementType::SpdmDmtfMeasurementRom
    } else if b == 1 {
        SpdmDmtfMeasurementType::SpdmDmtfMeasurementFirmware
    } else if b == 2 {
        SpdmDmtfMeasurementType::SpdmDmtfMeasurementHardwareConfig
    } else if b == 3 {
        SpdmDmtfMeasurementType::SpdmDmtfMeasurementFirmwareConfig
    } else if b == 4 {
        SpdmDmtfMeasurementType::SpdmDmtfMeasurementManifest
    } else {
        SpdmDmtfMeasurementType::Unknown(b)
    }
}

/// A type fits in seven bits, and an `Unknown` one holds no named value.
pub open spec fn type_valid(t: SpdmDmtfMeasurementType) -> bool {
    match t {
        SpdmDmtfMeasurementType::Unknown(b) => 4 < b < 0x80,
        _ => true,
    }
}

pub open spec fn repr_bit(r: SpdmDmtfMeasurementRepresentation) -> u8 {
    match r {
        SpdmDmtfMeasurementRepresentation::SpdmDmtfMeasurementDigest => 0,
        SpdmDmtfMeasurementRepresentation::SpdmDmtfMeasurementRawBit => 0x80,
    }
}

/// The first byte: the representation in the top bit, the type below it.
pub open spec fn measurement_type_byte(t: SpdmDmtfMeasurementType, r: SpdmDmtfMeasurementRepresentation) -> u8 {
    (repr_bit(r) | (type_to_u8(t) & 0x7f)) as u8
}

/// A DMTF-format measurement: type, representation and value.
#[derive(Debug, Clone, PartialEq, Eq)]
pub struct SpdmDmtfMeasurementStructure {
    pub measurement_type: SpdmDmtfMeasurementType,
    pub representation: SpdmDmtfMeasurementRepresentation,
    pub value: Vec<u8>,
}

pub ghost struct DmtfModel {
    pub mtype: SpdmDmtfMeasurementType,
    pub representation: SpdmDmtfMeasurementRepresentation,
    pub value: Seq<u8>,
}

impl View for SpdmDmtfMeasurementStructure {
    type V = DmtfModel;

    open spec fn view(&self) -> DmtfModel {
        DmtfModel { mtype: self.measurement_type, representation: self.representation, value: self.value@ }
    }
}

pub open spec fn spec_dmtf(m: DmtfModel) -> Seq<u8> {
    seq![measurement_type_byte(m.mtype, m.representation)] + spec_u16(m.value.len() as u16) + m.value
}

pub open spec fn parse_dmtf(s: Seq<u8>) -> Option<(DmtfModel, Seq<u8>)> {
    if s.len() >= 1 {
        match parse_u16(s.skip(1)) {
            Some((n, s2)) => match parse_bytes(s2, n as nat) {
                Some((value, s3)) => Some((
                    DmtfModel {
                        mtype: type_from_u8(s[0] & 0x7f),
                        representation: if s[0] & 0x80 == 0 {
                            SpdmDmtfMeasurementRepresentation::SpdmDmtfMeasurementDigest
                        } else {
                            SpdmDmtfMeasurementRepresentation::SpdmDmtfMeasurementRawBit
                        },
                        value,
                    },
                    s3,
                )),
                None => None,
            },
            None => None,
        }
    } else {
        None
    }
}

impl SpdmDmtfMeasurementType {
    pub fn get_u8(&self) -> (r: u8)
        ensures
            r == type_to_u8(*self),
    {
        match self {
            SpdmDmtfMeasurementType::SpdmDmtfMeasurementRom => 0,
            SpdmDmtfMeasurementType::SpdmDmtfMeasurementFirmware => 1,
            SpdmDmtfMeasurementType::SpdmDmtfMeasurementHardwareConfig => 2,
            SpdmDmtfMeasurementType::SpdmDmtfMeasurementFirmwareConfig => 3,
            SpdmDmtfMeasurementType::SpdmDmtfMeasurementManifest => 4,
            SpdmDmtfMeasurementType::Unknown(b) => *b,
        }
    }
}

impl SpdmDmtfMeasurementStructure {
    pub fn spdm_encode(&self, w: &mut Vec<u8>)
        requires
            self.value@.len() <= 0xFFFF,
        ensures
            final(w)@ == old(w)@ + spec_dmtf(self@),
    {
        let rep: u8 = match self.representation {
            SpdmDmtfMeasurementRepresentation::SpdmDmtfMeasurementDigest => 0,
            SpdmDmtfMeasurementRepresentation::SpdmDmtfMeasurementRawBit => 0x80,
        };
        w.push(rep | (self.measurement_type.get_u8() & 0x7f));
        encode_u16(self.value.len() as u16, w);
        encode_bytes(self.value.as_slice(), w);
        assert(final(w)@ =~= old(w)@ + spec_dmtf(self@));
    }

    pub fn spdm_read(r: &mut Reader) -> (m: Option<SpdmDmtfMeasurementStructure>)
        requires
            old(r).wf(),
        ensures
            final(r).wf(),
            final(r).buf@ == old(r).buf@,
            match parse_dmtf(old(r).rest()) {
                Some((v, rest)) => m is Some && m->0@ == v && final(r).rest() == rest,
                None => m is None,
            },
    {
        let b = r.read_u8();
        if b.is_none() {
            return None;
        }
        let b = b.unwrap();
        let t = b & 0x7f;
        let mtype = if t == 0 {
            SpdmDmtfMeasurementType::SpdmDmtfMeasurementRom
        } else if t == 1 {
            SpdmDmtfMeasurementType::SpdmDmtfMeasurementFirmware
        } else if t == 2 {
            SpdmDmtfMeasurementType::SpdmDmtfMeasurementHardwareConfig
        } else if t == 3 {
            SpdmDmtfMeasurementType::SpdmDmtfMeasurementFirmwareConfig
        } else if t == 4 {
            SpdmDmtfMeasurementType::SpdmDmtfMeasurementManifest
        } else {
            SpdmDmtfMeasurementType::Unknown(t)
        };
        let representation = if b & 0x80 == 0 {
            SpdmDmtfMeasurementRepresentation::SpdmDmtfMeasurementDigest
        } else {
            SpdmDmtfMeasurementRepresentation::SpdmDmtfMeasurementRawBit
        };
        let n = r.read_u16();
        if n.is_none() {
            return None;
        }
        match r.read_bytes(n.unwrap() as usize) {
            Some(value) => Some(SpdmDmtfMeasurementStructure { measurement_type: mtype, representation, value }),
            None => None,
        }
    }
}

proof fn lemma_type_byte(t: u8, rep: u8)
    requires
        t < 0x80,
        rep == 0 || rep == 0x80,
    ensures
        (rep | (t & 0x7f)) & 0x7f == t,
        ((rep | (t & 0x7f)) & 0x80 == 0) == (rep == 0),
{
    assert((rep | (t & 0x7f)) & 0x7f == t) by (bit_vector)
        requires
            t < 0x80,
            rep == 0 || rep == 0x80,
    ;
    assert(((rep | (t & 0x7f)) & 0x80 == 0) == (rep == 0)) by (bit_vector)
        requires
            t < 0x80,
            rep == 0 || rep == 0x80,
    ;
}

#[verifier::spinoff_prover]
pub proof fn lemma_dmtf_round_trip(m: DmtfModel, rest: Seq<u8>)
    requires
        type_valid(m.mtype),
        m.value.len() <= 0xFFFF,
    ensures
        parse_dmtf(spec_dmtf(m) + rest) == Some((m, rest)),
{
    let s = spec_dmtf(m) + rest;
    lemma_type_byte(type_to_u8(m.mtype), repr_bit(m.representation));
    assert(s.skip(1) =~= spec_u16(m.value.len() as u16) + (m.value + rest));
    lemma_u16_round_trip(m.value.len() as u16, m.value + rest);
    lemma_bytes_round_trip(m.value, rest);
}

/// One measurement block: index, specification, size, then the measurement.
#[derive(Debug, Clone, PartialEq, Eq)]
pub struct SpdmMeasurementBlockStructure {
    pub index: u8,
    pub measurement_specification: u8,
    pub measurement_size: u16,
    pub measurement: SpdmDmtfMeasurementStructure,
}

pub ghost struct BlockModel {
    pub index: u8,
    pub measurement_specification: u8,
    pub measurement_size: u16,
    pub measurement: DmtfModel,
}

impl View for SpdmMeasurementBlockStructure {
    type V = BlockModel;

    open spec fn view(&self) -> BlockModel {
        BlockModel {
            index: self.index,
            measurement_specification: self.measurement_specification,
            measurement_size: self.measurement_size,
            measurement: self.measurement@,
        }
    }
}

pub open spec fn spec_block(b: BlockModel) -> Seq<u8> {
    seq![b.index, b.measurement_specification] + spec_u16(b.measurement_size) + spec_dmtf(b.measurement)
}

pub open spec fn parse_block(s: Seq<u8>) -> Option<(BlockModel, Seq<u8>)> {
    if s.len() >= 2 {
        match parse_u16(s.skip(2)) {
            Some((size, s1)) => match parse_dmtf(s1) {
                Some((m, s2)) => Some((
                    BlockModel {
                        index: s[0],
                        measurement_specification: s[1],
                        measurement_size: size,
                        measurement: m,
                    },
                    s2,
                )),
                None => None,
            },
            None => None,
        }
    } else {
        None
    }
}

/// A block's size field counts the measurement's type byte, its length
/// field and its value.
pub open spec fn block_consistent(b: BlockModel) -> bool {
    b.measurement_size == b.measurement.value.len() + 3
}

pub open spec fn block_valid(b: BlockModel) -> bool {
    block_consistent(b) && type_valid(b.measurement.mtype)
}

impl SpdmMeasurementBlockStructure {
    pub fn spdm_encode(&self, w: &mut Vec<u8>)
        requires
            self.measurement.value@.len() <= 0xFFFF,
        ensures
            final(w)@ == old(w)@ + spec_block(self@),
    {
        w.push(self.index);
        w.push(self.measurement_specification);
        encode_u16(self.measurement_size, w);
        self.measurement.spdm_encode(w);
        assert(final(w)@ =~= old(w)@ + spec_block(self@));
    }

    pub fn spdm_read(r: &mut Reader) -> (b: Option<SpdmMeasurementBlockStructure>)
        requires
            old(r).wf(),
        ensures
            final(r).wf(),
            final(r).buf@ == old(r).buf@,
            match parse_block(old(r).rest()) {
                Some((v, rest)) => b is Some && b->0@ == v && final(r).rest() == rest,
                None => b is None,
            },
    {
        let ghost s = r.rest();
        let index = r.read_u8();
        if index.is_none() {
            return None;
        }
        let spec = r.read_u8();
        if spec.is_none() {
            return None;
        }
        assert(s.skip(1).skip(1) =~= s.skip(2));
        let size = r.read_u16();
        if size.is_none() {
            return None;
        }
        match SpdmDmtfMeasurementStructure::spdm_read(r) {
            Some(measurement) => Some(SpdmMeasurementBlockStructure {
                index: index.unwrap(),
                measurement_specification: spec.unwrap(),
                measurement_size: size.unwrap(),
                measurement,
            }),
            None => None,
        }
    }
}

#[verifier::spinoff_prover]
pub proof fn lemma_block_round_trip(b: BlockModel, rest: Seq<u8>)
    requires
        block_valid(b),
    ensures
        parse_block(spec_block(b) + rest) == Some((b, rest)),
{
    let s = spec_block(b) + rest;
    assert(s.skip(2) =~= spec_u16(b.measurement_size) + (spec_dmtf(b.measurement) + rest));
    lemma_u16_round_trip(b.measurement_size, spec_dmtf(b.measurement) + rest);
    lemma_dmtf_round_trip(b.measurement, rest);
}

/// A count-prefixed, 24-bit-length-prefixed list of measurement blocks.
#[derive(Debug, Clone, PartialEq, Eq)]
pub struct SpdmMeasurementRecordStructure {
    pub record: Vec<SpdmMeasurementBlockStructure>,
}

pub open spec fn blocks_view(bs: Seq<SpdmMeasurementBlockStructure>) -> Seq<BlockModel> {
    bs.map_values(|b: SpdmMeasurementBlockStructure| b@)
}

impl View for SpdmMeasurementRecordStructure {
    type V = Seq<BlockModel>;

    open spec fn view(&self) -> Seq<BlockModel> {
        blocks_view(self.record@)
    }
}

/// The sum of `measurement_size + 4` over the blocks.
pub open spec fn record_length(bs: Seq<BlockModel>) -> int
    decreases bs.len(),
{
    if bs.len() == 0 {
        0
    } else {
        record_length(bs.drop_last()) + bs.last().measurement_size + 4
    }
}

pub open spec fn spec_blocks(bs: Seq<BlockModel>) -> Seq<u8>
    decreases bs.len(),
{
    if bs.len() == 0 {
        Seq::empty()
    } else {
        spec_blocks(bs.drop_last()) + spec_block(bs.last())
    }
}

pub open spec fn spec_record(bs: Seq<BlockModel>) -> Seq<u8> {
    seq![bs.len() as u8] + spec_u24(record_length(bs) as u32) + spec_blocks(bs)
}

pub open spec fn parse_blocks(s: Seq<u8>, n: nat) -> Option<(Seq<BlockModel>, Seq<u8>)>
    decreases n,
{
    if n == 0 {
        Some((Seq::empty(), s))
    } else {
        match parse_blocks(s, (n - 1) as nat) {
            Some((bs, s1)) => match parse_block(s1) {
                Some((b, s2)) => Some((bs.push(b), s2)),
                None => None,
            },
            None => None,
        }
    }
}

/// Decodes the blocks and keeps the record only if there are at most
/// `MAX_SPDM_MEASUREMENT_BLOCK_COUNT` of them, each block's size field is
/// consistent, and the 24-bit length equals the sum of `measurement_size + 4`.
pub open spec fn parse_record(s: Seq<u8>) -> Option<(Seq<BlockModel>, Seq<u8>)> {
    if s.len() >= 1 && s[0] as int <= MAX_SPDM_MEASUREMENT_BLOCK_COUNT {
        match parse_u24(s.skip(1)) {
            Some((len, s1)) => match parse_blocks(s1, s[0] as nat) {
                Some((bs, s2)) => if (forall|k: int| 0 <= k < bs.len() ==> block_consistent(#[trigger] bs[k]))
                    && record_length(bs) == len {
                    Some((bs, s2))
                } else {
                    None
                },
                None => None,
            },
            None => None,
        }
    } else {
        None
    }
}

pub open spec fn record_valid(bs: Seq<BlockModel>) -> bool {
    &&& bs.len() <= MAX_SPDM_MEASUREMENT_BLOCK_COUNT
    &&& forall|k: int| 0 <= k < bs.len() ==> block_valid(#[trigger] bs[k])
}

proof fn lemma_record_length_bound(bs: Seq<BlockModel>)
    ensures
        0 <= record_length(bs) <= bs.len() * 0x10003,
    decreases bs.len(),
{
    if bs.len() > 0 {
        lemma_record_length_bound(bs.drop_last());
    }
}

impl SpdmMeasurementRecordStructure {
    /// Writes the count, the 24-bit sum of `measurement_size + 4`, then the
    /// blocks. Every block must have a consistent size field.
    pub fn spdm_encode(&self, w: &mut Vec<u8>)
        requires
            self.record@.len() <= MAX_SPDM_MEASUREMENT_BLOCK_COUNT,
            forall|k: int| 0 <= k < self.record@.len() ==> block_consistent(#[trigger] self@[k]),
        ensures
            final(w)@ == old(w)@ + spec_record(self@),
            final(w)@.subrange(old(w)@.len() as int + 1, old(w)@.len() as int + 4) == spec_u24(record_length(self@) as u32),
    {
        let n = self.record.len();
        w.push(n as u8);
        let mut total: u32 = 0;
        let mut i: usize = 0;
        while i < n
            invariant
                n == self.record@.len(),
                n <= MAX_SPDM_MEASUREMENT_BLOCK_COUNT,
                i <= n,
                total == record_length(self@.take(i as int)),
                total <= i * 0x10003,
            decreases n - i,
        {
            assert(self@.take(i + 1).drop_last() =~= self@.take(i as int));
            total = total + self.record[i].measurement_size as u32 + 4;
            i = i + 1;
        }
        assert(self@.take(n as int) =~= self@);
        encode_u24(total, w);
        let ghost start = w@;
        let mut i: usize = 0;
        while i < n
            invariant
                n == self.record@.len(),
                forall|k: int| 0 <= k < self.record@.len() ==> block_consistent(#[trigger] self@[k]),
                i <= n,
                w@ == start + spec_blocks(self@.take(i as int)),
            decreases n - i,
        {
            assert(block_consistent(self@[i as int]));
            self.record[i].spdm_encode(w);
            i = i + 1;
            assert(self@.take(i as int).drop_last() =~= self@.take(i - 1));
            assert(w@ =~= start + spec_blocks(self@.take(i as int)));
        }
        assert(w@ =~= old(w)@ + spec_record(self@));
        assert(w@.subrange(old(w)@.len() as int + 1, old(w)@.len() as int + 4) =~= spec_u24(record_length(self@) as u32));
    }

    /// Reads the count and length, then the blocks; rejects the record when
    /// a block's size field or the length does not add up.
    pub fn spdm_read(r: &mut Reader) -> (rec: Option<SpdmMeasurementRecordStructure>)
        requires
            old(r).wf(),
        ensures
            final(r).wf(),
            final(r).buf@ == old(r).buf@,
            match parse_record(old(r).rest()) {
                Some((v, rest)) => rec is Some && rec->0@ == v && final(r).rest() == rest,
                None => rec is None,
            },
            rec matches Some(x) ==> x.record@.len() <= MAX_SPDM_MEASUREMENT_BLOCK_COUNT && forall|k: int|
                0 <= k < x.record@.len() ==> block_consistent(#[trigger] x@[k]),
    {
        let ghost s = r.rest();
        let n = r.read_u8();
        if n.is_none() {
            return None;
        }
        let n = n.unwrap();
        if n as usize > MAX_SPDM_MEASUREMENT_BLOCK_COUNT {
            return None;
        }
        let len = r.read_u24();
        if len.is_none() {
            return None;
        }
        let len = len.unwrap();
        let ghost s1 = r.rest();
        let mut record: Vec<SpdmMeasurementBlockStructure> = Vec::new();
        let mut i: u8 = 0;
        while i < n
            invariant
                r.wf(),
                r.buf@ == old(r).buf@,
                s == old(r).rest(),
                s.len() >= 1,
                n == s[0],
                n <= MAX_SPDM_MEASUREMENT_BLOCK_COUNT,
                parse_u24(s.skip(1)) == Some((len, s1)),
                i <= n,
                record@.len() == i,
                parse_blocks(s1, i as nat) == Some((blocks_view(record@), r.rest())),
            decreases n - i,
        {
            match SpdmMeasurementBlockStructure::spdm_read(r) {
                Some(b) => {
                    record.push(b);
                    i = i + 1;
                    assert(blocks_view(record@) =~= blocks_view(record@.drop_last()).push(b@));
                },
                None => {
                    proof {
                        if parse_blocks(s1, n as nat) is Some {
                            lemma_parse_blocks_prefix(s1, (i + 1) as nat, n as nat);
                        }
                    }
                    return None;
                },
            }
        }
        let mut total: u32 = 0;
        let mut k: usize = 0;
        while k < record.len()
            invariant
                r.wf(),
                r.buf@ == old(r).buf@,
                s == old(r).rest(),
                s.len() >= 1,
                n == s[0],
                n <= MAX_SPDM_MEASUREMENT_BLOCK_COUNT,
                parse_u24(s.skip(1)) == Some((len, s1)),
                record@.len() == n,
                parse_blocks(s1, n as nat) == Some((blocks_view(record@), r.rest())),
                k <= record@.len(),
                total == record_length(blocks_view(record@).take(k as int)),
                total <= k * 0x10003,
                forall|j: int| 0 <= j < k ==> block_consistent(#[trigger] blocks_view(record@)[j]),
            decreases record@.len() - k,
        {
            let b = &record[k];
            assert(blocks_view(record@)[k as int] == record@[k as int]@);
            if b.measurement_size < 3 || (b.measurement_size - 3) as usize != b.measurement.value.len() {
                assert(!block_consistent(blocks_view(record@)[k as int]));
                return None;
            }
            assert(blocks_view(record@).take(k + 1).drop_last() =~= blocks_view(record@).take(k as int));
            total = total + b.measurement_size as u32 + 4;
            k = k + 1;
        }
        assert(blocks_view(record@).take(k as int) =~= blocks_view(record@));
        if total != len {
            assert(parse_blocks(s1, s[0] as nat) == Some((blocks_view(record@), r.rest())));
            assert(record_length(blocks_view(record@)) != len);
            return None;
        }
        Some(SpdmMeasurementRecordStructure { record })
    }
}

proof fn lemma_parse_blocks_prefix(s: Seq<u8>, k: nat, m: nat)
    requires
        k <= m,
        parse_blocks(s, m) is Some,
    ensures
        parse_blocks(s, k) is Some,
    decreases m - k,
{
    if k < m {
        lemma_parse_blocks_prefix(s, (k + 1) as nat, m);
    }
}

proof fn lemma_blocks_round_trip(bs: Seq<BlockModel>, rest: Seq<u8>)
    requires
        forall|k: int| 0 <= k < bs.len() ==> block_valid(#[trigger] bs[k]),
    ensures
        parse_blocks(spec_blocks(bs) + rest, bs.len()) == Some((bs, rest)),
    decreases bs.len(),
{
    if bs.len() > 0 {
        let prev = bs.drop_last();
        assert forall|k: int| 0 <= k < prev.len() implies block_valid(#[trigger] prev[k]) by {
            assert(prev[k] == bs[k]);
        }
        lemma_blocks_round_trip(prev, spec_block(bs.last()) + rest);
        assert(spec_blocks(bs) + rest =~= spec_blocks(prev) + (spec_block(bs.last()) + rest));
        assert(block_valid(bs[bs.len() - 1]));
        lemma_block_round_trip(bs.last(), rest);
        assert(prev.push(bs.last()) =~= bs);
    }
}

/// A valid record decodes from its encoding to itself.
#[verifier::rlimit(60)]
#[verifier::spinoff_prover]
pub proof fn lemma_record_round_trip(bs: Seq<BlockModel>, rest: Seq<u8>)
    requires
        record_valid(bs),
    ensures
        parse_record(spec_record(bs) + rest) == Some((bs, rest)),
{
    let s = spec_record(bs) + rest;
    lemma_record_length_bound(bs);
    assert(s.skip(1) =~= spec_u24(record_length(bs) as u32) + (spec_blocks(bs) + rest));
    lemma_u24_round_trip(record_length(bs) as u32, spec_blocks(bs) + rest);
    lemma_blocks_round_trip(bs, rest);
}

/// A frame whose 24-bit length differs from the sum of `measurement_size + 4`
/// over its blocks does not decode.
pub proof fn lemma_record_length_checked(s: Seq<u8>)
    requires
        parse_record(s) is Some,
    ensures
        s.len() >= 4,
        parse_u24(s.skip(1)) is Some,
        record_length(decoded_blocks(s)) == length_field(s),
{
}

/// The blocks that decoding `s` yields, if it decodes.
pub open spec fn decoded_blocks(s: Seq<u8>) -> Seq<BlockModel> {
    match parse_record(s) {
        Some((bs, _)) => bs,
        None => Seq::empty(),
    }
}

/// The value of the 24-bit length field of a record frame.
pub open spec fn length_field(s: Seq<u8>) -> u32 {
    match parse_u24(s.skip(1)) {
        Some((n, _)) => n,
        None => 0,
    }
}

} // verus!
