//! The campaign-wide coverage buffer: `AFL_COVERAGE_MAP_SIZE *
//! history_size` saturating hit-counter bytes, allocated once, filled
//! from the canister's coverage-export reply and cleared between reads.

use vstd::prelude::*;
use crate::instrument::valid_history;

verus! {

/// The campaign's coverage buffer. The fields are private: every method
/// keeps the buffer's length at exactly `AFL_COVERAGE_MAP_SIZE *
/// history_size`, the invariant the observer relies on.
pub struct CoverageMap {
    data: Vec<u8>,
    history: usize,
}

/// How many bytes a nonzero hit counter occupies in `b`'s prefix of
/// length `n`: the number of nonzero bytes among the first `n`.
pub open spec fn nonzero_count(b: Seq<u8>, n: int) -> nat
    decreases n,
{
    if n <= 0 {
        0
    } else {
        nonzero_count(b, n - 1) + if b[n - 1] != 0 {
            1nat
        } else {
            0nat
        }
    }
}

impl CoverageMap {
    /// The buffer's bytes.
    pub closed spec fn view_bytes(self) -> Seq<u8> {
        self.data@
    }

    /// The configured history size.
    pub closed spec fn history_size(self) -> nat {
        self.history as nat
    }

    /// The buffer's invariant: an accepted history size, and exactly
    /// `AFL_COVERAGE_MAP_SIZE * history_size` bytes.
    pub closed spec fn wf(self) -> bool {
        &&& valid_history(self.history as nat)
        &&& self.data@.len() == crate::AFL_COVERAGE_MAP_SIZE * self.history
    }

    /// Coverage-map proportionality: a well-formed buffer holds exactly
    /// `AFL_COVERAGE_MAP_SIZE * history_size` bytes. Every method keeps
    /// `wf`, so this holds at all times between resets.
    pub proof fn lemma_len_proportional(self)
        requires
            self.wf(),
        ensures
            self.view_bytes().len() == crate::AFL_COVERAGE_MAP_SIZE * self.history_size(),
    {
    }

    /// Allocates the buffer for the given history size, zeroed.
    pub fn new(history_size: usize) -> (r: CoverageMap)
        requires
            valid_history(history_size as nat),
        ensures
            r.wf(),
            r.history_size() == history_size,
            r.view_bytes().len() == crate::AFL_COVERAGE_MAP_SIZE * history_size,
            forall|i: int| 0 <= i < r.view_bytes().len() ==> r.view_bytes()[i] == 0,
    {
        let len: usize = (crate::AFL_COVERAGE_MAP_SIZE as usize) * history_size;
        let mut data: Vec<u8> = Vec::new();
        let mut i: usize = 0;
        while i < len
            invariant
                i <= len,
                data@.len() == i,
                forall|t: int| 0 <= t < i ==> data@[t] == 0,
            decreases len - i,
        {
            data.push(0);
            i = i + 1;
        }
        CoverageMap { data, history: history_size }
    }

    /// Copies a coverage-export reply into the buffer. A reply of the
    /// wrong length is refused and the buffer is left unchanged: the
    /// iteration then counts as no coverage.
    pub fn absorb(&mut self, reply: &Vec<u8>) -> (ok: bool)
        requires
            old(self).wf(),
        ensures
            final(self).wf(),
            final(self).history_size() == old(self).history_size(),
            ok <==> reply@.len() == old(self).view_bytes().len(),
            ok ==> final(self).view_bytes() == reply@,
            !ok ==> final(self).view_bytes() == old(self).view_bytes(),
    {
        if reply.len() != self.data.len() {
            return false;
        }
        let len = self.data.len();
        let mut data: Vec<u8> = Vec::new();
        let mut i: usize = 0;
        while i < len
            invariant
                i <= len,
                len == reply@.len(),
                data@ =~= reply@.subrange(0, i as int),
            decreases len - i,
        {
            data.push(reply[i]);
            i = i + 1;
        }
        proof {
            assert(data@ =~= reply@);
        }
        self.data = data;
        true
    }

    /// Zeroes the buffer.
    pub fn clear(&mut self)
        requires
            old(self).wf(),
        ensures
            final(self).wf(),
            final(self).history_size() == old(self).history_size(),
            final(self).view_bytes().len() == old(self).view_bytes().len(),
            forall|i: int|
                0 <= i < final(self).view_bytes().len() ==> final(self).view_bytes()[i] == 0,
    {
        let len = self.data.len();
        let mut data: Vec<u8> = Vec::new();
        let mut i: usize = 0;
        while i < len
            invariant
                i <= len,
                data@.len() == i,
                forall|t: int| 0 <= t < i ==> data@[t] == 0,
            decreases len - i,
        {
            data.push(0);
            i = i + 1;
        }
        self.data = data;
    }

    /// How many edges the buffer currently records: the number of
    /// nonzero hit counters.
    pub fn edge_count(&self) -> (r: usize)
        ensures
            r == nonzero_count(self.view_bytes(), self.view_bytes().len() as int),
    {
        let mut count: usize = 0;
        let mut i: usize = 0;
        while i < self.data.len()
            invariant
                i <= self.data@.len(),
                count == nonzero_count(self.data@, i as int),
                count <= i,
            decreases self.data@.len() - i,
        {
            if self.data[i] != 0 {
                count = count + 1;
            }
            i = i + 1;
        }
        count
    }
}

} // verus!
