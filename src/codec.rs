//! Little-endian primitive encoding and a byte reader.
//!
//! Every `parse_*` spec function reads from the front of a byte sequence and
//! yields the value together with the bytes that follow it.
use vstd::prelude::*;

verus! {

pub open spec fn spec_u8(v: u8) -> Seq<u8> {
    seq![v]
}

pub open spec fn spec_u16(v: u16) -> Seq<u8> {
    seq![(v % 256) as u8, (v / 256) as u8]
}

/// Three bytes, least significant first; `v` must be below 2^24.
pub open spec fn spec_u24(v: u32) -> Seq<u8> {
    seq![(v % 256) as u8, ((v / 256) % 256) as u8, (v / 65536) as u8]
}

pub open spec fn spec_u32(v: u32) -> Seq<u8> {
    seq![(v % 256) as u8, ((v / 256) % 256) as u8, ((v / 65536) % 256) as u8, (v / 16777216) as u8]
}

pub open spec fn parse_u8(s: Seq<u8>) -> Option<(u8, Seq<u8>)> {
    if s.len() >= 1 {
        Some((s[0], s.skip(1)))
    } else {
        None
    }
}

pub open spec fn parse_u16(s: Seq<u8>) -> Option<(u16, Seq<u8>)> {
    if s.len() >= 2 {
        Some(((s[0] + 256 * s[1]) as u16, s.skip(2)))
    } else {
        None
    }
}

pub open spec fn parse_u24(s: Seq<u8>) -> Option<(u32, Seq<u8>)> {
    if s.len() >= 3 {
        Some(((s[0] + 256 * s[1] + 65536 * s[2]) as u32, s.skip(3)))
    } else {
        None
    }
}

pub open spec fn parse_u32(s: Seq<u8>) -> Option<(u32, Seq<u8>)> {
    if s.len() >= 4 {
        Some(((s[0] + 256 * s[1] + 65536 * s[2] + 16777216 * s[3]) as u32, s.skip(4)))
    } else {
        None
    }
}

/// The first `n` bytes, and what follows them.
pub open spec fn parse_bytes(s: Seq<u8>, n: nat) -> Option<(Seq<u8>, Seq<u8>)> {
    if s.len() >= n {
        Some((s.take(n as int), s.skip(n as int)))
    } else {
        None
    }
}

pub proof fn lemma_u8_round_trip(v: u8, rest: Seq<u8>)
    ensures
        parse_u8(spec_u8(v) + rest) == Some((v, rest)),
{
    assert((spec_u8(v) + rest).skip(1) =~= rest);
}

pub proof fn lemma_u16_round_trip(v: u16, rest: Seq<u8>)
    ensures
        parse_u16(spec_u16(v) + rest) == Some((v, rest)),
{
    assert((spec_u16(v) + rest).skip(2) =~= rest);
}

pub proof fn lemma_u24_round_trip(v: u32, rest: Seq<u8>)
    requires
        v < 0x100_0000,
    ensures
        parse_u24(spec_u24(v) + rest) == Some((v, rest)),
{
    assert((spec_u24(v) + rest).skip(3) =~= rest);
}

pub proof fn lemma_u32_round_trip(v: u32, rest: Seq<u8>)
    ensures
        parse_u32(spec_u32(v) + rest) == Some((v, rest)),
{
    assert((spec_u32(v) + rest).skip(4) =~= rest);
}

pub proof fn lemma_bytes_round_trip(b: Seq<u8>, rest: Seq<u8>)
    ensures
        parse_bytes(b + rest, b.len()) == Some((b, rest)),
{
    assert((b + rest).skip(b.len() as int) =~= rest);
    assert((b + rest).take(b.len() as int) =~= b);
}

pub fn encode_u8(v: u8, w: &mut Vec<u8>)
    ensures
        final(w)@ == old(w)@ + spec_u8(v),
{
    w.push(v);
    assert(final(w)@ =~= old(w)@ + spec_u8(v));
}

pub fn encode_u16(v: u16, w: &mut Vec<u8>)
    ensures
        final(w)@ == old(w)@ + spec_u16(v),
{
    w.push((v % 256) as u8);
    w.push((v / 256) as u8);
    assert(final(w)@ =~= old(w)@ + spec_u16(v));
}

pub fn encode_u24(v: u32, w: &mut Vec<u8>)
    requires
        v < 0x100_0000,
    ensures
        final(w)@ == old(w)@ + spec_u24(v),
{
    w.push((v % 256) as u8);
    w.push(((v / 256) % 256) as u8);
    w.push((v / 65536) as u8);
    assert(final(w)@ =~= old(w)@ + spec_u24(v));
}

pub fn encode_u32(v: u32, w: &mut Vec<u8>)
    ensures
        final(w)@ == old(w)@ + spec_u32(v),
{
    w.push((v % 256) as u8);
    w.push(((v / 256) % 256) as u8);
    w.push(((v / 65536) % 256) as u8);
    w.push((v / 16777216) as u8);
    assert(final(w)@ =~= old(w)@ + spec_u32(v));
}

pub fn encode_bytes(b: &[u8], w: &mut Vec<u8>)
    ensures
        final(w)@ == old(w)@ + b@,
{
    let mut i: usize = 0;
    while i < b.len()
        invariant
            i <= b@.len(),
            w@ == old(w)@ + b@.take(i as int),
        decreases b@.len() - i,
    {
        w.push(b[i]);
        i = i + 1;
        assert(w@ =~= old(w)@ + b@.take(i as int));
    }
    assert(b@.take(i as int) =~= b@);
}

/// A cursor over a byte slice.
pub struct Reader<'a> {
    pub buf: &'a [u8],
    pub pos: usize,
}

impl<'a> Reader<'a> {
    pub open spec fn wf(&self) -> bool {
        self.pos <= self.buf@.len()
    }

    /// The bytes not read yet.
    pub open spec fn rest(&self) -> Seq<u8> {
        self.buf@.skip(self.pos as int)
    }

    pub fn init(buf: &'a [u8]) -> (r: Reader<'a>)
        ensures
            r.wf(),
            r.buf@ == buf@,
            r.pos == 0,
            r.rest() == buf@,
    {
        let r = Reader { buf, pos: 0 };
        assert(r.rest() =~= buf@);
        r
    }

    /// Number of bytes read so far.
    pub fn used(&self) -> (r: usize)
        ensures
            r == self.pos,
    {
        self.pos
    }

    pub fn read_u8(&mut self) -> (r: Option<u8>)
        requires
            old(self).wf(),
        ensures
            final(self).wf(),
            final(self).buf@ == old(self).buf@,
            match parse_u8(old(self).rest()) {
                Some((v, rest)) => r == Some(v) && final(self).rest() == rest,
                None => r is None && final(self).pos == old(self).pos,
            },
    {
        if self.pos < self.buf.len() {
            let v = self.buf[self.pos];
            self.pos = self.pos + 1;
            assert(final(self).rest() =~= old(self).rest().skip(1));
            Some(v)
        } else {
            None
        }
    }

    pub fn read_u16(&mut self) -> (r: Option<u16>)
        requires
            old(self).wf(),
        ensures
            final(self).wf(),
            final(self).buf@ == old(self).buf@,
            match parse_u16(old(self).rest()) {
                Some((v, rest)) => r == Some(v) && final(self).rest() == rest,
                None => r is None && final(self).pos == old(self).pos,
            },
    {
        if self.buf.len() - self.pos >= 2 {
            let b0 = self.buf[self.pos] as u16;
            let b1 = self.buf[self.pos + 1] as u16;
            self.pos = self.pos + 2;
            assert(final(self).rest() =~= old(self).rest().skip(2));
            Some(b0 + 256 * b1)
        } else {
            None
        }
    }

    pub fn read_u24(&mut self) -> (r: Option<u32>)
        requires
            old(self).wf(),
        ensures
            final(self).wf(),
            final(self).buf@ == old(self).buf@,
            match parse_u24(old(self).rest()) {
                Some((v, rest)) => r == Some(v) && final(self).rest() == rest,
                None => r is None && final(self).pos == old(self).pos,
            },
    {
        if self.buf.len() - self.pos >= 3 {
            let b0 = self.buf[self.pos] as u32;
            let b1 = self.buf[self.pos + 1] as u32;
            let b2 = self.buf[self.pos + 2] as u32;
            self.pos = self.pos + 3;
            assert(final(self).rest() =~= old(self).rest().skip(3));
            Some(b0 + 256 * b1 + 65536 * b2)
        } else {
            None
        }
    }

    pub fn read_u32(&mut self) -> (r: Option<u32>)
        requires
            old(self).wf(),
        ensures
            final(self).wf(),
            final(self).buf@ == old(self).buf@,
            match parse_u32(old(self).rest()) {
                Some((v, rest)) => r == Some(v) && final(self).rest() == rest,
                None => r is None && final(self).pos == old(self).pos,
            },
    {
        if self.buf.len() - self.pos >= 4 {
            let b0 = self.buf[self.pos] as u32;
            let b1 = self.buf[self.pos + 1] as u32;
            let b2 = self.buf[self.pos + 2] as u32;
            let b3 = self.buf[self.pos + 3] as u32;
            self.pos = self.pos + 4;
            assert(final(self).rest() =~= old(self).rest().skip(4));
            Some(b0 + 256 * b1 + 65536 * b2 + 16777216 * b3)
        } else {
            None
        }
    }

    pub fn read_bytes(&mut self, n: usize) -> (r: Option<Vec<u8>>)
        requires
            old(self).wf(),
        ensures
            final(self).wf(),
            final(self).buf@ == old(self).buf@,
            match parse_bytes(old(self).rest(), n as nat) {
                Some((v, rest)) => r is Some && r->0@ == v && final(self).rest() == rest,
                None => r is None && final(self).pos == old(self).pos,
            },
    {
        if self.buf.len() - self.pos >= n {
            let buf = self.buf;
            let start = self.pos;
            let mut out: Vec<u8> = Vec::new();
            let mut i: usize = 0;
            while i < n
                invariant
                    start + n <= buf.len(),
                    i <= n,
                    out@ == buf@.skip(start as int).take(i as int),
                decreases n - i,
            {
                out.push(buf[start + i]);
                i = i + 1;
                assert(out@ =~= buf@.skip(start as int).take(i as int));
            }
            self.pos = self.pos + n;
            assert(final(self).rest() =~= old(self).rest().skip(n as int));
            Some(out)
        } else {
            None
        }
    }
}

} // verus!
