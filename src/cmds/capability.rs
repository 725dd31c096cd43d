//! GET_CAPABILITIES and CAPABILITIES payloads (same layout).
use vstd::prelude::*;
use crate::codec::{encode_u16, encode_u32, lemma_u32_round_trip, parse_u32, spec_u16, spec_u32, Reader};

verus! {

/// Timing exponent and capability flags.
#[derive(Debug, Clone, Copy, PartialEq, Eq, Structural)]
pub struct SpdmCapabilitiesPayload {
    pub ct_exponent: u8,
    pub flags: u32,
}

/// Parameters, reserved byte, exponent, reserved word, flags.
pub open spec fn spec_capabilities(p: SpdmCapabilitiesPayload) -> Seq<u8> {
    seq![0u8, 0u8, 0u8, p.ct_exponent] + spec_u16(0) + spec_u32(p.flags)
}

pub open spec fn parse_capabilities(s: Seq<u8>) -> Option<(SpdmCapabilitiesPayload, Seq<u8>)> {
    if s.len() >= 6 {
        match parse_u32(s.skip(6)) {
            Some((flags, rest)) => Some((SpdmCapabilitiesPayload { ct_exponent: s[3], flags }, rest)),
            None => None,
        }
    } else {
        None
    }
}

impl SpdmCapabilitiesPayload {
    pub fn spdm_encode(&self, w: &mut Vec<u8>)
        ensures
            final(w)@ == old(w)@ + spec_capabilities(*self),
    {
        w.push(0);
        w.push(0);
        w.push(0);
        w.push(self.ct_exponent);
        encode_u16(0, w);
        encode_u32(self.flags, w);
        assert(final(w)@ =~= old(w)@ + spec_capabilities(*self));
    }

    pub fn spdm_read(r: &mut Reader) -> (p: Option<SpdmCapabilitiesPayload>)
        requires
            old(r).wf(),
        ensures
            final(r).wf(),
            final(r).buf@ == old(r).buf@,
            match parse_capabilities(old(r).rest()) {
                Some((v, rest)) => p == Some(v) && final(r).rest() == rest,
                None => p is None,
            },
    {
        let ghost s = r.rest();
        let head = r.read_bytes(6);
        if head.is_none() {
            return None;
        }
        let head = head.unwrap();
        let flags = r.read_u32();
        if flags.is_none() {
            return None;
        }
        Some(SpdmCapabilitiesPayload { ct_exponent: head[3], flags: flags.unwrap() })
    }
}

#[verifier::spinoff_prover]
pub proof fn lemma_capabilities_round_trip(p: SpdmCapabilitiesPayload, rest: Seq<u8>)
    ensures
        parse_capabilities(spec_capabilities(p) + rest) == Some((p, rest)),
{
    let s = spec_capabilities(p) + rest;
    assert(s.skip(6) =~= spec_u32(p.flags) + rest);
    lemma_u32_round_trip(p.flags, rest);
}

} // verus!
