//! Campaign-specific feedback state: the decoding-ratio monitor and the
//! out-of-memory objective.

use vstd::prelude::*;
use crate::util::ExitKind;

verus! {

/// The decoding-ratio monitor's state: the best
/// instructions-per-input-byte ratio seen so far, and whether the last
/// observation improved on it.
#[derive(Debug, Clone, Copy, PartialEq, Eq, Structural)]
pub struct DecodeMap {
    pub previous_ratio: u64,
    pub increased: bool,
}

impl DecodeMap {
    /// A fresh monitor: nothing seen, nothing improved.
    pub fn new() -> (r: DecodeMap)
        ensures
            r.previous_ratio == 0,
            !r.increased,
    {
        DecodeMap { previous_ratio: 0, increased: false }
    }

    /// Feeds one iteration's ratio: a strict improvement is recorded and
    /// becomes the new bar; anything else clears the improvement flag
    /// and leaves the bar alone.
    pub fn observe(&mut self, ratio: u64)
        ensures
            final(self).increased == (ratio > old(self).previous_ratio),
            ratio > old(self).previous_ratio ==> final(self).previous_ratio == ratio,
            ratio <= old(self).previous_ratio ==> final(self).previous_ratio == old(
                self,
            ).previous_ratio,
    {
        if ratio > self.previous_ratio {
            self.increased = true;
            self.previous_ratio = ratio;
        } else {
            self.increased = false;
        }
    }

    /// Whether the last observation makes the input interesting.
    pub fn is_interesting(&self) -> (r: bool)
        ensures
            r == self.increased,
    {
        self.increased
    }
}

/// The out-of-memory objective: it finds exactly the `Oom` exits
/// interesting.
#[derive(Debug, Clone, Copy)]
pub struct OomLogic;

impl OomLogic {
    /// True exactly on an out-of-memory exit.
    pub fn check_exit_kind(kind: &ExitKind) -> (r: bool)
        ensures
            r == (kind is Oom),
    {
        match kind {
            ExitKind::Oom => true,
            _ => false,
        }
    }
}

} // verus!
