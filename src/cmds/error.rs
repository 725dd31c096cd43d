//! The ERROR response: code, data and the extended data selected by the code.
use vstd::prelude::*;
use crate::codec::Reader;
use vstd::arithmetic::power2::{lemma2_to64, lemma2_to64_rest, lemma_pow2_strictly_increases, lemma_pow2_unfold, pow2};

verus! {

#[derive(Debug, Clone, Copy, PartialEq, Eq, Structural)]
pub enum SpdmErrorCode {
    SpdmErrorInvalidRequest,
    SpdmErrorInvalidSession,
    SpdmErrorBusy,
    SpdmErrorUnexpectedRequest,
    SpdmErrorUnspecified,
    SpdmErrorDecryptError,
    SpdmErrorUnsupportedRequest,
    SpdmErrorRequestInFlight,
    SpdmErrorInvalidResponseCode,
    SpdmErrorSessionLimitExceeded,
    SpdmErrorMajorVersionMismatch,
    SpdmErrorResponseNotReady,
    SpdmErrorRequestResynch,
    SpdmErrorVendorDefined,
    Unknown(u8),
}

pub open spec fn error_code_to_u8(c: SpdmErrorCode) -> u8 {
    match c {
        SpdmErrorCode::SpdmErrorInvalidRequest => 0x01,
        SpdmErrorCode::SpdmErrorInvalidSession => 0x02,
        SpdmErrorCode::SpdmErrorBusy => 0x03,
        SpdmErrorCode::SpdmErrorUnexpectedRequest => 0x04,
        SpdmErrorCode::SpdmErrorUnspecified => 0x05,
        SpdmErrorCode::SpdmErrorDecryptError => 0x06,
        SpdmErrorCode::SpdmErrorUnsupportedRequest => 0x07,
        SpdmErrorCode::SpdmErrorRequestInFlight => 0x08,
        SpdmErrorCode::SpdmErrorInvalidResponseCode => 0x09,
        SpdmErrorCode::SpdmErrorSessionLimitExceeded => 0x0A,
        SpdmErrorCode::SpdmErrorMajorVersionMismatch => 0x41,
        SpdmErrorCode::SpdmErrorResponseNotReady => 0x42,
        SpdmErrorCode::SpdmErrorRequestResynch => 0x43,
        SpdmErrorCode::SpdmErrorVendorDefined => 0xFF,
        SpdmErrorCode::Unknown(b) => b,
    }
}

pub open spec fn error_code_from_u8(b: u8) -> SpdmErrorCode {
    if b == 0x01 {
        SpdmErrorCode::SpdmErrorInvalidRequest
    } else if b == 0x02 {
        SpdmErrorCode::SpdmErrorInvalidSession
    } else if b == 0x03 {
        SpdmErrorCode::SpdmErrorBusy
    } else if b == 0x04 {
        SpdmErrorCode::SpdmErrorUnexpectedRequest
    } else if b == 0x05 {
        SpdmErrorCode::SpdmErrorUnspecified
    } else if b == 0x06 {
        SpdmErrorCode::SpdmErrorDecryptError
    } else if b == 0x07 {
        SpdmErrorCode::SpdmErrorUnsupportedRequest
    } else if b == 0x08 {
        SpdmErrorCode::SpdmErrorRequestInFlight
    } else if b == 0x09 {
        SpdmErrorCode::SpdmErrorInvalidResponseCode
    } else if b == 0x0A {
        SpdmErrorCode::SpdmErrorSessionLimitExceeded
    } else if b == 0x41 {
        SpdmErrorCode::SpdmErrorMajorVersionMismatch
    } else if b == 0x42 {
        SpdmErrorCode::SpdmErrorResponseNotReady
    } else if b == 0x43 {
        SpdmErrorCode::SpdmErrorRequestResynch
    } else if b == 0xFF {
        SpdmErrorCode::SpdmErrorVendorDefined
    } else {
        SpdmErrorCode::Unknown(b)
    }
}

/// An `Unknown` code holds no byte that has a name.
pub open spec fn error_code_valid(c: SpdmErrorCode) -> bool {
    match c {
        SpdmErrorCode::Unknown(b) => error_code_from_u8(b) == SpdmErrorCode::Unknown(b),
        _ => true,
    }
}

impl SpdmErrorCode {
    pub fn get_u8(&self) -> (r: u8)
        ensures
            r == error_code_to_u8(*self),
    {
        match self {
            SpdmErrorCode::SpdmErrorInvalidRequest => 0x01,
            SpdmErrorCode::SpdmErrorInvalidSession => 0x02,
            SpdmErrorCode::SpdmErrorBusy => 0x03,
            SpdmErrorCode::SpdmErrorUnexpectedRequest => 0x04,
            SpdmErrorCode::SpdmErrorUnspecified => 0x05,
            SpdmErrorCode::SpdmErrorDecryptError => 0x06,
            SpdmErrorCode::SpdmErrorUnsupportedRequest => 0x07,
            SpdmErrorCode::SpdmErrorRequestInFlight => 0x08,
            SpdmErrorCode::SpdmErrorInvalidResponseCode => 0x09,
            SpdmErrorCode::SpdmErrorSessionLimitExceeded => 0x0A,
            SpdmErrorCode::SpdmErrorMajorVersionMismatch => 0x41,
            SpdmErrorCode::SpdmErrorResponseNotReady => 0x42,
            SpdmErrorCode::SpdmErrorRequestResynch => 0x43,
            SpdmErrorCode::SpdmErrorVendorDefined => 0xFF,
            SpdmErrorCode::Unknown(b) => *b,
        }
    }

    pub fn from_u8(b: u8) -> (r: SpdmErrorCode)
        ensures
            r == error_code_from_u8(b),
    {
        if b == 0x01 {
            SpdmErrorCode::SpdmErrorInvalidRequest
        } else if b == 0x02 {
            SpdmErrorCode::SpdmErrorInvalidSession
        } else if b == 0x03 {
            SpdmErrorCode::SpdmErrorBusy
        } else if b == 0x04 {
            SpdmErrorCode::SpdmErrorUnexpectedRequest
        } else if b == 0x05 {
            SpdmErrorCode::SpdmErrorUnspecified
        } else if b == 0x06 {
            SpdmErrorCode::SpdmErrorDecryptError
        } else if b == 0x07 {
            SpdmErrorCode::SpdmErrorUnsupportedRequest
        } else if b == 0x08 {
            SpdmErrorCode::SpdmErrorRequestInFlight
        } else if b == 0x09 {
            SpdmErrorCode::SpdmErrorInvalidResponseCode
        } else if b == 0x0A {
            SpdmErrorCode::SpdmErrorSessionLimitExceeded
        } else if b == 0x41 {
            SpdmErrorCode::SpdmErrorMajorVersionMismatch
        } else if b == 0x42 {
            SpdmErrorCode::SpdmErrorResponseNotReady
        } else if b == 0x43 {
            SpdmErrorCode::SpdmErrorRequestResynch
        } else if b == 0xFF {
            SpdmErrorCode::SpdmErrorVendorDefined
        } else {
            SpdmErrorCode::Unknown(b)
        }
    }
}

pub proof fn lemma_error_code_byte(c: SpdmErrorCode)
    requires
        error_code_valid(c),
    ensures
        error_code_from_u8(error_code_to_u8(c)) == c,
{
}

#[derive(Debug, Clone, Copy, PartialEq, Eq, Structural)]
pub struct SpdmErrorResponseNoneExtData {}

#[derive(Debug, Clone, Copy, PartialEq, Eq, Structural)]
pub struct SpdmErrorResponseNotReadyExtData {
    pub rdt_exponent: u8,
    pub request_code: u8,
    pub token: u8,
    pub tdtm: u8,
}

impl SpdmErrorResponseNotReadyExtData {
    /// How long the requester should wait before resubmitting, in
    /// microseconds: `2^rdt_exponent`, or `None` when that does not fit in
    /// 64 bits.
    pub fn retry_delay_us(&self) -> (r: Option<u64>)
        ensures
            self.rdt_exponent < 64 ==> r == Some(pow2(self.rdt_exponent as nat) as u64),
            self.rdt_exponent >= 64 ==> r is None,
    {
        if self.rdt_exponent >= 64 {
            return None;
        }
        let mut d: u64 = 1;
        let mut i: u8 = 0;
        proof {
            lemma2_to64();
        }
        while i < self.rdt_exponent
            invariant
                i <= self.rdt_exponent < 64,
                d == pow2(i as nat),
            decreases self.rdt_exponent - i,
        {
            proof {
                lemma_pow2_unfold((i + 1) as nat);
                lemma_pow2_strictly_increases((i + 1) as nat, 64);
                lemma2_to64_rest();
            }
            d = d * 2;
            i = i + 1;
        }
        Some(d)
    }
}

/// Vendor-defined extended data: whatever follows the header, up to 32 bytes.
#[derive(Debug, Clone, PartialEq, Eq)]
pub struct SpdmErrorResponseVendorExtData {
    pub data: Vec<u8>,
}

#[derive(Debug, Clone, PartialEq, Eq)]
pub enum SpdmErrorResponseExtData {
    SpdmErrorExtDataNone(SpdmErrorResponseNoneExtData),
    SpdmErrorExtDataNotReady(SpdmErrorResponseNotReadyExtData),
    SpdmErrorExtDataVendorDefined(SpdmErrorResponseVendorExtData),
}

impl Default for SpdmErrorResponseExtData {
    /// No extended data.
    fn default() -> (r: SpdmErrorResponseExtData)
        ensures
            r@ == ErrorExtModel::NoExt,
    {
        SpdmErrorResponseExtData::SpdmErrorExtDataNone(SpdmErrorResponseNoneExtData {})
    }
}

#[derive(Debug, Clone, PartialEq, Eq)]
pub struct SpdmErrorResponsePayload {
    pub error_code: SpdmErrorCode,
    pub error_data: u8,
    pub extended_data: SpdmErrorResponseExtData,
}

/// What the extended data holds.
pub ghost enum ErrorExtModel {
    NoExt,
    NotReady(SpdmErrorResponseNotReadyExtData),
    Vendor(Seq<u8>),
}

pub ghost struct ErrorPayloadModel {
    pub error_code: SpdmErrorCode,
    pub error_data: u8,
    pub extended_data: ErrorExtModel,
}

impl View for SpdmErrorResponseExtData {
    type V = ErrorExtModel;

    open spec fn view(&self) -> ErrorExtModel {
        match self {
            SpdmErrorResponseExtData::SpdmErrorExtDataNone(_) => ErrorExtModel::NoExt,
            SpdmErrorResponseExtData::SpdmErrorExtDataNotReady(d) => ErrorExtModel::NotReady(*d),
            SpdmErrorResponseExtData::SpdmErrorExtDataVendorDefined(d) => ErrorExtModel::Vendor(d.data@),
        }
    }
}

impl View for SpdmErrorResponsePayload {
    type V = ErrorPayloadModel;

    open spec fn view(&self) -> ErrorPayloadModel {
        ErrorPayloadModel {
            error_code: self.error_code,
            error_data: self.error_data,
            extended_data: self.extended_data@,
        }
    }
}

pub open spec fn spec_not_ready(d: SpdmErrorResponseNotReadyExtData) -> Seq<u8> {
    seq![d.rdt_exponent, d.request_code, d.token, d.tdtm]
}

pub open spec fn spec_error_ext(e: ErrorExtModel) -> Seq<u8> {
    match e {
        ErrorExtModel::NoExt => Seq::empty(),
        ErrorExtModel::NotReady(d) => spec_not_ready(d),
        ErrorExtModel::Vendor(v) => v,
    }
}

/// The payload after the two header bytes: code, data, extended data.
pub open spec fn spec_error_payload(p: ErrorPayloadModel) -> Seq<u8> {
    seq![error_code_to_u8(p.error_code), p.error_data] + spec_error_ext(p.extended_data)
}

pub open spec fn parse_not_ready(s: Seq<u8>) -> Option<(SpdmErrorResponseNotReadyExtData, Seq<u8>)> {
    if s.len() >= 4 {
        Some((
            SpdmErrorResponseNotReadyExtData {
                rdt_exponent: s[0],
                request_code: s[1],
                token: s[2],
                tdtm: s[3],
            },
            s.skip(4),
        ))
    } else {
        None
    }
}

/// Vendor data takes whatever follows, up to 32 bytes.
pub open spec fn vendor_len(s: Seq<u8>) -> int {
    if s.len() < 32 { s.len() as int } else { 32 }
}

/// Which extended data the code selects: 0x42 gives the not-ready data,
/// 0xFF the vendor data, every other code none.
pub open spec fn parse_error_ext(code: u8, s: Seq<u8>) -> Option<(ErrorExtModel, Seq<u8>)> {
    if code == 0x42 {
        match parse_not_ready(s) {
            Some((d, rest)) => Some((ErrorExtModel::NotReady(d), rest)),
            None => None,
        }
    } else if code == 0xFF {
        Some((ErrorExtModel::Vendor(s.take(vendor_len(s))), s.skip(vendor_len(s))))
    } else {
        Some((ErrorExtModel::NoExt, s))
    }
}

pub open spec fn parse_error_payload(s: Seq<u8>) -> Option<(ErrorPayloadModel, Seq<u8>)> {
    if s.len() >= 2 {
        match parse_error_ext(s[0], s.skip(2)) {
            Some((e, rest)) => Some((
                ErrorPayloadModel {
                    error_code: error_code_from_u8(s[0]),
                    error_data: s[1],
                    extended_data: e,
                },
                rest,
            )),
            None => None,
        }
    } else {
        None
    }
}

/// A payload is valid when its extended data is the one its code selects.
pub open spec fn error_payload_valid(p: ErrorPayloadModel) -> bool {
    &&& error_code_valid(p.error_code)
    &&& match p.extended_data {
        ErrorExtModel::NotReady(_) => p.error_code == SpdmErrorCode::SpdmErrorResponseNotReady,
        ErrorExtModel::Vendor(v) => p.error_code == SpdmErrorCode::SpdmErrorVendorDefined && v.len() <= 32,
        ErrorExtModel::NoExt => p.error_code != SpdmErrorCode::SpdmErrorResponseNotReady
            && p.error_code != SpdmErrorCode::SpdmErrorVendorDefined,
    }
}

impl SpdmErrorResponseNotReadyExtData {
    pub fn spdm_encode(&self, w: &mut Vec<u8>)
        ensures
            final(w)@ == old(w)@ + spec_not_ready(*self),
    {
        w.push(self.rdt_exponent);
        w.push(self.request_code);
        w.push(self.token);
        w.push(self.tdtm);
        assert(final(w)@ =~= old(w)@ + spec_not_ready(*self));
    }

    pub fn spdm_read(r: &mut Reader) -> (d: Option<SpdmErrorResponseNotReadyExtData>)
        requires
            old(r).wf(),
        ensures
            final(r).wf(),
            final(r).buf@ == old(r).buf@,
            match parse_not_ready(old(r).rest()) {
                Some((v, rest)) => d == Some(v) && final(r).rest() == rest,
                None => d is None,
            },
    {
        let ghost s = r.rest();
        let rdt_exponent = r.read_u8();
        if rdt_exponent.is_none() {
            return None;
        }
        let request_code = r.read_u8();
        if request_code.is_none() {
            return None;
        }
        let token = r.read_u8();
        if token.is_none() {
            return None;
        }
        let tdtm = r.read_u8();
        if tdtm.is_none() {
            return None;
        }
        assert(s.skip(1).skip(1).skip(1).skip(1) =~= s.skip(4));
        Some(SpdmErrorResponseNotReadyExtData {
            rdt_exponent: rdt_exponent.unwrap(),
            request_code: request_code.unwrap(),
            token: token.unwrap(),
            tdtm: tdtm.unwrap(),
        })
    }
}

impl SpdmErrorResponseVendorExtData {
    pub fn spdm_encode(&self, w: &mut Vec<u8>)
        ensures
            final(w)@ == old(w)@ + self.data@,
    {
        crate::codec::encode_bytes(self.data.as_slice(), w);
    }

    /// Takes what follows, up to 32 bytes.
    pub fn spdm_read(r: &mut Reader) -> (d: SpdmErrorResponseVendorExtData)
        requires
            old(r).wf(),
        ensures
            final(r).wf(),
            final(r).buf@ == old(r).buf@,
            d.data@ == old(r).rest().take(vendor_len(old(r).rest())),
            final(r).rest() == old(r).rest().skip(vendor_len(old(r).rest())),
    {
        let ghost s = r.rest();
        let mut data: Vec<u8> = Vec::new();
        while data.len() < 32
            invariant_except_break
                r.wf(),
                r.buf@ == old(r).buf@,
                data@.len() <= 32,
                data@.len() <= s.len(),
                data@ == s.take(data@.len() as int),
                r.rest() == s.skip(data@.len() as int),
            ensures
                r.wf(),
                r.buf@ == old(r).buf@,
                data@ == s.take(vendor_len(s)),
                r.rest() == s.skip(vendor_len(s)),
            decreases 32 - data@.len(),
        {
            match r.read_u8() {
                Some(v) => {
                    data.push(v);
                    assert(data@ =~= s.take(data@.len() as int));
                    assert(s.skip(data@.len() - 1).skip(1) =~= s.skip(data@.len() as int));
                },
                None => {
                    break;
                },
            }
        }
        SpdmErrorResponseVendorExtData { data }
    }
}

impl SpdmErrorResponsePayload {
    /// Writes code, data and the extended data.
    pub fn spdm_encode(&self, w: &mut Vec<u8>)
        ensures
            final(w)@ == old(w)@ + spec_error_payload(self@),
    {
        w.push(self.error_code.get_u8());
        w.push(self.error_data);
        match &self.extended_data {
            SpdmErrorResponseExtData::SpdmErrorExtDataNotReady(d) => d.spdm_encode(w),
            SpdmErrorResponseExtData::SpdmErrorExtDataVendorDefined(d) => d.spdm_encode(w),
            SpdmErrorResponseExtData::SpdmErrorExtDataNone(_) => {},
        }
        assert(final(w)@ =~= old(w)@ + spec_error_payload(self@));
    }

    /// Reads code and data, then the extended data that the code selects.
    pub fn spdm_read(r: &mut Reader) -> (p: Option<SpdmErrorResponsePayload>)
        requires
            old(r).wf(),
        ensures
            final(r).wf(),
            final(r).buf@ == old(r).buf@,
            match parse_error_payload(old(r).rest()) {
                Some((v, rest)) => p is Some && p->0@ == v && final(r).rest() == rest,
                None => p is None,
            },
    {
        let ghost s = r.rest();
        let code = r.read_u8();
        if code.is_none() {
            return None;
        }
        let error_data = r.read_u8();
        if error_data.is_none() {
            return None;
        }
        let code = code.unwrap();
        assert(s.skip(1).skip(1) =~= s.skip(2));
        let extended_data = if code == 0x42 {
            match SpdmErrorResponseNotReadyExtData::spdm_read(r) {
                Some(d) => SpdmErrorResponseExtData::SpdmErrorExtDataNotReady(d),
                None => {
                    return None;
                },
            }
        } else if code == 0xFF {
            SpdmErrorResponseExtData::SpdmErrorExtDataVendorDefined(
                SpdmErrorResponseVendorExtData::spdm_read(r),
            )
        } else {
            SpdmErrorResponseExtData::SpdmErrorExtDataNone(SpdmErrorResponseNoneExtData {})
        };
        Some(SpdmErrorResponsePayload {
            error_code: SpdmErrorCode::from_u8(code),
            error_data: error_data.unwrap(),
            extended_data,
        })
    }
}

/// The extended data that decoding `s` yields.
pub open spec fn decoded_ext(s: Seq<u8>) -> ErrorExtModel {
    match parse_error_payload(s) {
        Some((p, _)) => p.extended_data,
        None => ErrorExtModel::NoExt,
    }
}

/// Decoding an error payload picks the extended data by the code byte alone:
/// 0x42 gives the not-ready data, 0xFF the vendor data, any other code none.
pub proof fn lemma_error_frame_discriminant(s: Seq<u8>)
    requires
        s.len() >= 6,
    ensures
        parse_error_payload(s) is Some,
        s[0] == 0x42 ==> decoded_ext(s) is NotReady,
        s[0] == 0xFF ==> decoded_ext(s) is Vendor,
        s[0] != 0x42 && s[0] != 0xFF ==> decoded_ext(s) is NoExt,
{
}

/// A valid error payload decodes from its own encoding to itself.
#[verifier::spinoff_prover]
pub proof fn lemma_error_payload_round_trip(p: ErrorPayloadModel)
    requires
        error_payload_valid(p),
    ensures
        parse_error_payload(spec_error_payload(p)) == Some((p, Seq::<u8>::empty())),
{
    let s = spec_error_payload(p);
    let ext = spec_error_ext(p.extended_data);
    assert(s.skip(2) =~= ext);
    lemma_error_code_byte(p.error_code);
    match p.extended_data {
        ErrorExtModel::NotReady(d) => {
            assert(ext.skip(4) =~= Seq::<u8>::empty());
        },
        ErrorExtModel::Vendor(v) => {
            assert(ext.take(vendor_len(ext)) =~= v);
            assert(ext.skip(vendor_len(ext)) =~= Seq::<u8>::empty());
        },
        ErrorExtModel::NoExt => {
            assert(ext =~= Seq::<u8>::empty());
        },
    }
}

} // verus!
