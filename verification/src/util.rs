//! Exit dispositions and small byte-level helpers shared by the harnesses.

use vstd::prelude::*;
use vstd::string::StrSliceExecFns;

verus! {

/// How one execution of the canister under test ended, as the fuzzing
/// engine understands it.
#[derive(Clone, Copy, Debug, PartialEq, Eq, Structural)]
pub enum ExitKind {
    /// The call replied, or was rejected for a reason the campaign ignores.
    Normal,
    /// The canister trapped.
    Crash,
    /// The canister ran against a memory limit.
    Oom,
    /// The canister exceeded its instruction limit.
    Timeout,
}

/// The error classes of a rejected canister call that the disposition
/// mapping distinguishes. Every other error code maps to `Other`.
#[derive(Clone, Copy, Debug, PartialEq, Eq, Structural)]
pub enum RejectCode {
    CanisterTrapped,
    CanisterCalledTrap,
    CanisterMemoryAccessLimitExceeded,
    InsufficientMemoryAllocation,
    CanisterOutOfMemory,
    CanisterWasmMemoryLimitExceeded,
    CanisterInstructionLimitExceeded,
    Other,
}

/// A rejected canister call: the error class the simulator reported.
#[derive(Clone, Copy, Debug, PartialEq, Eq, Structural)]
pub struct RejectResponse {
    pub error_code: RejectCode,
}

/// The exhaustive disposition mapping: a reply is `Ok`; traps are `Crash`;
/// the memory-limit classes are `Oom`; the instruction limit is `Timeout`;
/// every other rejection is `Ok`.
pub open spec fn exit_kind_of(result: Result<Seq<u8>, RejectResponse>) -> ExitKind {
    match result {
        Result::Ok(_) => ExitKind::Normal,
        Result::Err(e) => match e.error_code {
            RejectCode::CanisterTrapped => ExitKind::Crash,
            RejectCode::CanisterCalledTrap => ExitKind::Crash,
            RejectCode::CanisterMemoryAccessLimitExceeded => ExitKind::Oom,
            RejectCode::InsufficientMemoryAllocation => ExitKind::Oom,
            RejectCode::CanisterOutOfMemory => ExitKind::Oom,
            RejectCode::CanisterWasmMemoryLimitExceeded => ExitKind::Oom,
            RejectCode::CanisterInstructionLimitExceeded => ExitKind::Timeout,
            RejectCode::Other => ExitKind::Normal,
        },
    }
}

/// Translates the result of a canister call into an exit disposition.
pub fn parse_canister_result_for_trap(result: &Result<Vec<u8>, RejectResponse>) -> (k: ExitKind)
    ensures
        k == exit_kind_of(match *result {
            Result::Ok(ref b) => Result::Ok(b@),
            Result::Err(e) => Result::Err(e),
        }),
{
    match result {
        Result::Ok(_) => ExitKind::Normal,
        Result::Err(e) => match e.error_code {
            RejectCode::CanisterTrapped => ExitKind::Crash,
            RejectCode::CanisterCalledTrap => ExitKind::Crash,
            RejectCode::CanisterMemoryAccessLimitExceeded => ExitKind::Oom,
            RejectCode::InsufficientMemoryAllocation => ExitKind::Oom,
            RejectCode::CanisterOutOfMemory => ExitKind::Oom,
            RejectCode::CanisterWasmMemoryLimitExceeded => ExitKind::Oom,
            RejectCode::CanisterInstructionLimitExceeded => ExitKind::Timeout,
            RejectCode::Other => ExitKind::Normal,
        },
    }
}

/// 256 to the power `n`; the place value of the `n`-th byte of a
/// little-endian number.
pub open spec fn pow256(n: nat) -> nat
    decreases n,
{
    if n == 0 {
        1
    } else {
        256 * pow256((n - 1) as nat)
    }
}

/// The value of `b` read as a little-endian number: byte `i` carries place
/// value `256^i`.
pub open spec fn le_bytes_value(b: Seq<u8>) -> nat
    decreases b.len(),
{
    if b.len() == 0 {
        0
    } else {
        (le_bytes_value(b.drop_last()) + b.last() * pow256((b.len() - 1) as nat)) as nat
    }
}

/// A little-endian number of `n` bytes is below `256^n`.
proof fn lemma_le_bytes_value_bound(b: Seq<u8>)
    ensures
        le_bytes_value(b) < pow256(b.len()),
    decreases b.len(),
{
    if b.len() > 0 {
        lemma_le_bytes_value_bound(b.drop_last());
        assert(b.last() * pow256((b.len() - 1) as nat) <= 255 * pow256((b.len() - 1) as nat))
            by (nonlinear_arith)
        requires
            0 <= b.last() <= 255,
            pow256((b.len() - 1) as nat) >= 0,
        ;
    }
}

/// The first `min(n, |b|)` bytes of `b`.
pub open spec fn byte_prefix(b: Seq<u8>, n: int) -> Seq<u8> {
    if b.len() <= n {
        b
    } else {
        b.take(n)
    }
}

/// Reads the first at-most-eight bytes of `b` as a little-endian `u64`.
pub fn bytes_to_u64(bytes: &[u8]) -> (r: u64)
    ensures
        r == le_bytes_value(byte_prefix(bytes@, 8)),
{
    let len = bytes.len();
    let k: usize = if len < 8 {
        len
    } else {
        8
    };
    let mut result: u64 = 0;
    let mut m: u64 = 1;
    let mut i: usize = 0;
    proof {
        assert(bytes@.subrange(0, 0) =~= Seq::<u8>::empty());
    }
    while i < k
        invariant
            i <= k,
            k <= 8,
            k <= bytes@.len(),
            k == byte_prefix(bytes@, 8).len(),
            byte_prefix(bytes@, 8) =~= bytes@.subrange(0, k as int),
            i < 8 ==> m == pow256(i as nat),
            result == le_bytes_value(bytes@.subrange(0, i as int)),
        decreases k - i,
    {
        proof {
            lemma_le_bytes_value_bound(bytes@.subrange(0, i as int));
            lemma_pow256_le8(i as nat);
            assert(bytes@.subrange(0, i + 1).drop_last() =~= bytes@.subrange(0, i as int));
            assert(bytes@[i as int] * pow256(i as nat) <= 255 * pow256(i as nat))
                by (nonlinear_arith)
            requires
                0 <= bytes@[i as int] <= 255,
                pow256(i as nat) >= 0,
            ;
        }
        result = result + (bytes[i] as u64) * m;
        if i + 1 < 8 {
            proof {
                lemma_pow256_le8((i + 1) as nat);
            }
            m = m * 256;
        }
        i = i + 1;
    }
    result
}

/// `pow256` grows with its argument.
proof fn lemma_pow256_increases(a: nat, b: nat)
    requires
        a <= b,
    ensures
        pow256(a) <= pow256(b),
    decreases b,
{
    if a < b {
        lemma_pow256_increases(a, (b - 1) as nat);
    }
}

/// `256^n <= 2^56` for `n <= 7`, and `256^n <= 2^64` for `n <= 8`.
proof fn lemma_pow256_le8(n: nat)
    requires
        n <= 8,
    ensures
        n <= 7 ==> pow256(n) <= 0x100000000000000,
        pow256(n) <= 0x10000000000000000,
{
    reveal_with_fuel(pow256, 9);
    assert(pow256(7) == 0x100000000000000);
    assert(pow256(8) == 0x10000000000000000);
    if n <= 7 {
        lemma_pow256_increases(n, 7);
    }
    lemma_pow256_increases(n, 8);
}

/// Character-wise string equality: true exactly when the two views are
/// the same sequence of characters.
pub fn str_eq(a: &str, b: &str) -> (r: bool)
    ensures
        r == (a@ == b@),
{
    let la = a.unicode_len();
    let lb = b.unicode_len();
    if la != lb {
        return false;
    }
    let mut i: usize = 0;
    while i < la
        invariant
            la == a@.len(),
            la == b@.len(),
            i <= la,
            forall|t: int| 0 <= t < i ==> a@[t] == #[trigger] b@[t],
        decreases la - i,
    {
        if a.get_char(i) != b.get_char(i) {
            return false;
        }
        i = i + 1;
    }
    proof {
        assert(a@ =~= b@);
    }
    true
}

/// True exactly when `pat` occurs as a contiguous run inside `hay`.
pub open spec fn contains_subseq(hay: Seq<u8>, pat: Seq<u8>) -> bool {
    exists|i: int|
        0 <= i <= hay.len() - pat.len() && #[trigger] hay.subrange(i, i + pat.len() as int) =~= pat
}

/// Reports whether `pat` occurs inside `hay`; the harnesses use it to
/// recognise trap markers inside reject messages.
pub fn bytes_contain(hay: &[u8], pat: &[u8]) -> (r: bool)
    ensures
        r == contains_subseq(hay@, pat@),
{
    let n = hay.len();
    let m = pat.len();
    if m > n {
        return false;
    }
    let mut start: usize = 0;
    while start <= n - m
        invariant
            m <= n,
            n == hay@.len(),
            m == pat@.len(),
            start <= n - m + 1,
            forall|i: int|
                0 <= i < start ==> !(#[trigger] hay@.subrange(i, i + pat@.len() as int) =~= pat@),
        decreases n - m + 1 - start,
    {
        let mut j: usize = 0;
        let mut matched = true;
        while j < m
            invariant
                m <= n,
                n == hay@.len(),
                m == pat@.len(),
                start <= n - m,
                j <= m,
                matched <==> (forall|t: int|
                    0 <= t < j ==> hay@[start + t] == #[trigger] pat@[t]),
            decreases m - j,
        {
            if hay[start + j] != pat[j] {
                matched = false;
                proof {
                    assert(!(hay@[start + j] == pat@[j as int]));
                }
                j = m;
            } else {
                j = j + 1;
            }
        }
        if matched {
            proof {
                assert(hay@.subrange(start as int, start + pat@.len() as int) =~= pat@);
            }
            return true;
        }
        proof {
            assert(!(hay@.subrange(start as int, start + pat@.len() as int) =~= pat@));
        }
        start = start + 1;
    }
    false
}

} // verus!
