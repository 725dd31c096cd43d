//! Bounded append-only transcript buffers.
use vstd::prelude::*;
use crate::config::MAX_SPDM_MESSAGE_BUFFER_SIZE;

verus! {

/// An append-only byte buffer that never grows past
/// `MAX_SPDM_MESSAGE_BUFFER_SIZE`.
#[derive(Debug, Clone)]
pub struct ManagedBuffer {
    data: Vec<u8>,
}

impl View for ManagedBuffer {
    type V = Seq<u8>;

    closed spec fn view(&self) -> Seq<u8> {
        self.data@
    }
}

impl ManagedBuffer {
    pub open spec fn wf(&self) -> bool {
        self@.len() <= MAX_SPDM_MESSAGE_BUFFER_SIZE
    }

    pub fn new() -> (b: ManagedBuffer)
        ensures
            b.wf(),
            b@ == Seq::<u8>::empty(),
    {
        ManagedBuffer { data: Vec::new() }
    }

    pub fn len(&self) -> (r: usize)
        ensures
            r == self@.len(),
    {
        self.data.len()
    }

    pub fn as_slice(&self) -> (r: &[u8])
        ensures
            r@ == self@,
    {
        self.data.as_slice()
    }

    /// Appends all of `bytes`, or nothing when they do not fit; returns the
    /// new length on success.
    pub fn append_message(&mut self, bytes: &[u8]) -> (r: Option<usize>)
        requires
            old(self).wf(),
        ensures
            final(self).wf(),
            old(self)@.len() + bytes@.len() <= MAX_SPDM_MESSAGE_BUFFER_SIZE ==> {
                &&& r == Some(final(self)@.len() as usize)
                &&& final(self)@ == old(self)@ + bytes@
            },
            old(self)@.len() + bytes@.len() > MAX_SPDM_MESSAGE_BUFFER_SIZE ==> {
                &&& r is None
                &&& final(self)@ == old(self)@
            },
    {
        if bytes.len() > MAX_SPDM_MESSAGE_BUFFER_SIZE - self.data.len() {
            return None;
        }
        crate::codec::encode_bytes(bytes, &mut self.data);
        Some(self.data.len())
    }

    /// Empties the buffer.
    pub fn reset_message(&mut self)
        ensures
            final(self).wf(),
            final(self)@ == Seq::<u8>::empty(),
    {
        self.data = Vec::new();
    }
}

/// Appending a non-empty slice twice gives a longer transcript than
/// appending it once: nothing is deduplicated.
pub proof fn lemma_append_twice_differs(t: Seq<u8>, b: Seq<u8>)
    requires
        b.len() > 0,
    ensures
        (t + b) + b != t + b,
        ((t + b) + b).len() == (t + b).len() + b.len(),
{
    assert(((t + b) + b).len() != (t + b).len());
}

} // verus!
