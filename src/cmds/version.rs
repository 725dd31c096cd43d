//! GET_VERSION and VERSION payloads.
use vstd::prelude::*;
use crate::codec::Reader;
use crate::config::MAX_SPDM_VERSION_COUNT;
use crate::msgs::{SpdmVersion, version_to_u8, version_from_u8, version_valid};

verus! {

/// GET_VERSION carries nothing beyond its two reserved parameter bytes.
#[derive(Debug, Clone, Copy, PartialEq, Eq, Structural)]
pub struct SpdmGetVersionRequestPayload {}

impl SpdmGetVersionRequestPayload {
    pub fn spdm_encode(&self, w: &mut Vec<u8>)
        ensures
            final(w)@ == old(w)@ + seq![0u8, 0u8],
    {
        w.push(0);
        w.push(0);
        assert(final(w)@ =~= old(w)@ + seq![0u8, 0u8]);
    }

    /// Consumes the two parameter bytes, whatever they hold.
    pub fn spdm_read(r: &mut Reader) -> (p: Option<SpdmGetVersionRequestPayload>)
        requires
            old(r).wf(),
        ensures
            final(r).wf(),
            final(r).buf@ == old(r).buf@,
            p is Some <==> old(r).rest().len() >= 2,
            p is Some ==> final(r).rest() == old(r).rest().skip(2),
    {
        let ghost s = r.rest();
        if r.read_u8().is_none() {
            return None;
        }
        if r.read_u8().is_none() {
            return None;
        }
        assert(s.skip(1).skip(1) =~= s.skip(2));
        Some(SpdmGetVersionRequestPayload {})
    }
}

/// One entry of the VERSION list.
#[derive(Debug, Clone, Copy, PartialEq, Eq, Structural)]
pub struct SpdmVersionStruct {
    pub update: u8,
    pub version: SpdmVersion,
}

pub open spec fn spec_version_struct(v: SpdmVersionStruct) -> Seq<u8> {
    seq![v.update, version_to_u8(v.version)]
}

impl SpdmVersionStruct {
    pub fn encode(&self, w: &mut Vec<u8>)
        ensures
            final(w)@ == old(w)@ + spec_version_struct(*self),
    {
        w.push(self.update);
        w.push(self.version.get_u8());
        assert(final(w)@ =~= old(w)@ + spec_version_struct(*self));
    }

    pub fn read(r: &mut Reader) -> (v: Option<SpdmVersionStruct>)
        requires
            old(r).wf(),
        ensures
            final(r).wf(),
            final(r).buf@ == old(r).buf@,
            v is Some <==> old(r).rest().len() >= 2,
            v is Some ==> v->0 == entry_at(old(r).rest(), 0) && final(r).rest() == old(r).rest().skip(2),
    {
        let ghost s = r.rest();
        let update = r.read_u8();
        if update.is_none() {
            return None;
        }
        let version = r.read_u8();
        if version.is_none() {
            return None;
        }
        assert(s.skip(1).skip(1) =~= s.skip(2));
        Some(SpdmVersionStruct { update: update.unwrap(), version: SpdmVersion::from_u8(version.unwrap()) })
    }
}

/// The version entry stored at entry index `k` of `s`.
pub open spec fn entry_at(s: Seq<u8>, k: int) -> SpdmVersionStruct {
    SpdmVersionStruct { update: s[2 * k], version: version_from_u8(s[2 * k + 1]) }
}

/// VERSION: the entry count as sent, and the entries that were kept (at most
/// `MAX_SPDM_VERSION_COUNT`).
#[derive(Debug, Clone, PartialEq, Eq)]
pub struct SpdmVersionResponsePayload {
    pub version_number_entry_count: u8,
    pub versions: Vec<SpdmVersionStruct>,
}

pub ghost struct VersionPayloadModel {
    pub count: u8,
    pub versions: Seq<SpdmVersionStruct>,
}

impl View for SpdmVersionResponsePayload {
    type V = VersionPayloadModel;

    open spec fn view(&self) -> VersionPayloadModel {
        VersionPayloadModel { count: self.version_number_entry_count, versions: self.versions@ }
    }
}

/// Number of entries carried: the count, bounded by the storage.
pub open spec fn kept_count(count: u8) -> int {
    if count as int <= MAX_SPDM_VERSION_COUNT { count as int } else { MAX_SPDM_VERSION_COUNT as int }
}

pub open spec fn spec_version_entries(vs: Seq<SpdmVersionStruct>) -> Seq<u8>
    decreases vs.len(),
{
    if vs.len() == 0 {
        Seq::empty()
    } else {
        spec_version_entries(vs.drop_last()) + spec_version_struct(vs.last())
    }
}

/// Parameter bytes, reserved byte, count, then the entries.
pub open spec fn spec_version_payload(p: VersionPayloadModel) -> Seq<u8> {
    seq![0u8, 0u8, 0u8, p.count] + spec_version_entries(p.versions)
}

pub open spec fn parse_version_payload(s: Seq<u8>) -> Option<(VersionPayloadModel, Seq<u8>)> {
    if s.len() >= 4 && s.len() >= 4 + 2 * kept_count(s[3]) {
        let body = s.skip(4);
        Some((
            VersionPayloadModel {
                count: s[3],
                versions: Seq::new(kept_count(s[3]) as nat, |k: int| entry_at(body, k)),
            },
            s.skip(4 + 2 * kept_count(s[3])),
        ))
    } else {
        None
    }
}

/// A payload is valid when it holds as many entries as its count says, or
/// the full storage when the count exceeds it.
pub open spec fn version_payload_valid(p: VersionPayloadModel) -> bool {
    &&& p.versions.len() == kept_count(p.count)
    &&& forall|k: int| 0 <= k < p.versions.len() ==> version_valid(#[trigger] p.versions[k].version)
}

pub proof fn lemma_version_entries(vs: Seq<SpdmVersionStruct>)
    ensures
        spec_version_entries(vs).len() == 2 * vs.len(),
        forall|k: int| 0 <= k < vs.len() ==> {
            &&& #[trigger] spec_version_entries(vs)[2 * k] == vs[k].update
            &&& spec_version_entries(vs)[2 * k + 1] == version_to_u8(vs[k].version)
        },
    decreases vs.len(),
{
    if vs.len() > 0 {
        lemma_version_entries(vs.drop_last());
        let prev = vs.drop_last();
        assert forall|k: int| 0 <= k < vs.len() implies {
            &&& #[trigger] spec_version_entries(vs)[2 * k] == vs[k].update
            &&& spec_version_entries(vs)[2 * k + 1] == version_to_u8(vs[k].version)
        } by {
            assert(spec_version_entries(vs) == spec_version_entries(prev) + spec_version_struct(vs.last()));
            if k < vs.len() - 1 {
                assert(prev[k] == vs[k]);
            }
        }
    }
}

impl SpdmVersionResponsePayload {
    /// Writes the parameters, the reserved byte, the count and the kept entries.
    pub fn spdm_encode(&self, w: &mut Vec<u8>)
        ensures
            final(w)@ == old(w)@ + seq![0u8, 0u8, 0u8, self.version_number_entry_count]
                + spec_version_entries(self.versions@.take(
                if (self.version_number_entry_count as int) < self.versions@.len() {
                    self.version_number_entry_count as int
                } else {
                    self.versions@.len() as int
                })),
    {
        w.push(0);
        w.push(0);
        w.push(0);
        w.push(self.version_number_entry_count);
        let ghost start = w@;
        let n: usize = if (self.version_number_entry_count as usize) < self.versions.len() {
            self.version_number_entry_count as usize
        } else {
            self.versions.len()
        };
        let mut i: usize = 0;
        while i < n
            invariant
                n <= self.versions@.len(),
                i <= n,
                w@ == start + spec_version_entries(self.versions@.take(i as int)),
            decreases n - i,
        {
            self.versions[i].encode(w);
            i = i + 1;
            assert(self.versions@.take(i as int).drop_last() =~= self.versions@.take(i - 1));
            assert(w@ =~= start + spec_version_entries(self.versions@.take(i as int)));
        }
        assert(w@ =~= old(w)@ + seq![0u8, 0u8, 0u8, self.version_number_entry_count]
            + spec_version_entries(self.versions@.take(n as int)));
    }

    pub fn spdm_read(r: &mut Reader) -> (p: Option<SpdmVersionResponsePayload>)
        requires
            old(r).wf(),
        ensures
            final(r).wf(),
            final(r).buf@ == old(r).buf@,
            match parse_version_payload(old(r).rest()) {
                Some((v, rest)) => p is Some && p->0@ == v && final(r).rest() == rest,
                None => p is None,
            },
    {
        let ghost s = r.rest();
        if r.read_u8().is_none() {
            return None;
        }
        if r.read_u8().is_none() {
            return None;
        }
        if r.read_u8().is_none() {
            return None;
        }
        let count = r.read_u8();
        if count.is_none() {
            return None;
        }
        let count = count.unwrap();
        assert(s.skip(1).skip(1).skip(1).skip(1) =~= s.skip(4));
        let ghost body = s.skip(4);
        let n: usize = if (count as usize) <= MAX_SPDM_VERSION_COUNT {
            count as usize
        } else {
            MAX_SPDM_VERSION_COUNT
        };
        let mut versions: Vec<SpdmVersionStruct> = Vec::new();
        let mut i: usize = 0;
        while i < n
            invariant
                r.wf(),
                r.buf@ == old(r).buf@,
                i <= n,
                n == kept_count(count),
                s == old(r).rest(),
                s.len() >= 4,
                count == s[3],
                body == s.skip(4),
                body.len() >= 2 * i,
                r.rest() == body.skip(2 * i),
                versions@ == Seq::new(i as nat, |k: int| entry_at(body, k)),
            decreases n - i,
        {
            let v = SpdmVersionStruct::read(r);
            match v {
                None => {
                    assert(s.len() < 4 + 2 * kept_count(count));
                    return None;
                },
                Some(v) => {
                    assert(body.skip(2 * i).skip(2) =~= body.skip(2 * i + 2));
                    assert(entry_at(body.skip(2 * i), 0) == entry_at(body, i as int));
                    versions.push(v);
                    i = i + 1;
                    assert(versions@ =~= Seq::new(i as nat, |k: int| entry_at(body, k)));
                },
            }
        }
        assert(body.skip(2 * n) =~= s.skip(4 + 2 * n));
        Some(SpdmVersionResponsePayload { version_number_entry_count: count, versions })
    }
}

/// A valid VERSION payload decodes from its encoding to itself.
#[verifier::rlimit(60)]
#[verifier::spinoff_prover]
pub proof fn lemma_version_payload_round_trip(p: VersionPayloadModel, rest: Seq<u8>)
    requires
        version_payload_valid(p),
    ensures
        parse_version_payload(spec_version_payload(p) + rest) == Some((p, rest)),
{
    let s = spec_version_payload(p) + rest;
    let e = spec_version_entries(p.versions);
    lemma_version_entries(p.versions);
    let n = kept_count(p.count);
    let body = s.skip(4);
    assert(body =~= e + rest);
    assert forall|k: int| 0 <= k < n implies #[trigger] entry_at(body, k) == p.versions[k] by {
        crate::msgs::lemma_version_byte(p.versions[k].version);
        assert(body[2 * k] == e[2 * k]);
        assert(body[2 * k + 1] == e[2 * k + 1]);
    }
    assert(Seq::new(n as nat, |k: int| entry_at(body, k)) =~= p.versions);
    assert(s.skip(4 + 2 * n) =~= rest);
}

} // verus!
