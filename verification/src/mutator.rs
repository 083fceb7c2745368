//! The schema-aware mutator for the platform's typed argument encoding.
//!
//! Mutation is schema-directed, recursive, and depth-bounded; every rule
//! keeps the mutated value a member of its declared type, and a skipped
//! mutation leaves its input untouched. Decoding corpus bytes into the
//! value model and re-encoding the result is the caller's side of the
//! bargain; randomness comes in through the trusted `rand` wrappers, so
//! every property here holds for every draw.

use vstd::prelude::*;
use crate::bignum::{
    big_int_add, big_int_mul, big_int_sub, big_nat_add, big_nat_checked_sub, big_nat_mul,
    int_from_i128, int_from_i64, nat_from_u128, nat_from_u32, nat_from_u64, nat_zero,
};
use crate::idl::{
    ArgValue, FieldType, FieldValue, IntDigits, NatDigits, SchemaType, deep_eq, int_value,
    label_eq, label_id, label_id_spec, lemma_deep_eq_refl, lemma_deep_eq_val_ok,
    lemma_label_eq_refl, lemma_record_shape_refl, nat_value, record_shape_kept, resolve_type,
    same_kind, val_ok, PRINCIPAL_MAX_LEN,
};
use crate::rng::{
    rand_below_i32, rand_below_usize, rand_between_usize, rand_fill_bytes, rand_i128, rand_i16,
    rand_i32, rand_i64, rand_i8, rand_ratio, rand_u128, rand_u16, rand_u32, rand_u64, rand_u8,
};

verus! {

/// Whether a mutation call produced a new value or left its input alone.
#[derive(Clone, Copy, Debug, PartialEq, Eq, Structural)]
pub enum MutationResult {
    Mutated,
    Skipped,
}

/// What one mutator invocation decides to do.
#[derive(Clone, Copy, Debug, PartialEq, Eq, Structural)]
pub enum MutationAction {
    /// Generate a fresh schema-random argument tuple.
    GenerateFresh,
    /// Decode the corpus bytes and mutate one argument.
    MutateExisting,
    /// Leave the input to the engine's generic mutations.
    Skip,
}

/// The interface-file description of the method under test: the path of
/// the interface file and the method's name.
#[derive(Debug)]
pub struct CandidTypeDefArgs {
    pub def: String,
    pub method: String,
}

/// A method signature in model form: the type table and the declared
/// argument types.
#[derive(Debug)]
pub struct MethodSignature {
    pub env: Vec<SchemaType>,
    pub arg_types: Vec<SchemaType>,
    pub method_name: String,
}

/// Pairwise-distinct wire ids among a field list.
pub open spec fn labels_distinct(fts: Seq<FieldType>) -> bool {
    forall|i: int, j: int|
        0 <= i < j < fts.len() ==> label_id_spec((#[trigger] fts[i]).label) != label_id_spec(
            (#[trigger] fts[j]).label,
        )
}

/// The well-formedness of one declared type, stopping at `Var`
/// references: record and variant fields carry distinct wire ids, all
/// the way down.
pub open spec fn type_shallow_wf(t: SchemaType) -> bool
    decreases t,
{
    match t {
        SchemaType::Opt(inner) => type_shallow_wf(*inner),
        SchemaType::VecOf(inner) => type_shallow_wf(*inner),
        SchemaType::Record(fts) => labels_distinct(fts@) && (forall|i: int|
            0 <= i < fts@.len() ==> type_shallow_wf((#[trigger] fts@[i]).ty)),
        SchemaType::Variant(fts) => labels_distinct(fts@) && (forall|i: int|
            0 <= i < fts@.len() ==> type_shallow_wf((#[trigger] fts@[i]).ty)),
        _ => true,
    }
}

/// A well-formed type table: no definition is a bare reference, and
/// every definition is shallow-well-formed. The conversion from the
/// interface file collapses reference chains, so this is what reaches
/// the mutator.
pub open spec fn env_ok(env: Seq<SchemaType>) -> bool {
    forall|i: int|
        0 <= i < env.len() ==> !((#[trigger] env[i]) is Var) && type_shallow_wf(env[i])
}

/// A resolved type is still shallow-well-formed.
proof fn lemma_resolve_shallow_wf(t: SchemaType, env: Seq<SchemaType>)
    requires
        env_ok(env),
        type_shallow_wf(t),
    ensures
        match resolve_type(t, env, (env.len() + 1) as nat) {
            Option::Some(rt) => type_shallow_wf(rt) && !(rt is Var),
            Option::None => true,
        },
{
    match t {
        SchemaType::Var(i) => {
            if i < env.len() {
                assert(!(env[i as int] is Var));
                assert(resolve_type(t, env, (env.len() + 1) as nat) == resolve_type(
                    env[i as int],
                    env,
                    env.len() as nat,
                ));
                assert(resolve_type(env[i as int], env, env.len() as nat) == Option::Some(
                    env[i as int],
                ));
            } else {
                assert(resolve_type(t, env, (env.len() + 1) as nat) is None);
            }
        },
        _ => {
            assert(resolve_type(t, env, (env.len() + 1) as nat) == Option::Some(t));
        },
    }
}

/// Follows a `Var` reference one step through a well-formed table.
fn resolve_schema<'a>(t: &'a SchemaType, env: &'a Vec<SchemaType>) -> (r: Option<
    &'a SchemaType,
>)
    requires
        env_ok(env@),
    ensures
        match r {
            Option::Some(rt) => resolve_type(*t, env@, (env@.len() + 1) as nat)
                == Option::Some(*rt) && !(*rt is Var),
            Option::None => resolve_type(*t, env@, (env@.len() + 1) as nat) is None,
        },
{
    match t {
        SchemaType::Var(i) => {
            if *i < env.len() {
                let u = &env[*i];
                proof {
                    assert(!(env@[*i as int] is Var));
                    assert(resolve_type(*t, env@, (env@.len() + 1) as nat) == resolve_type(
                        env@[*i as int],
                        env@,
                        env@.len() as nat,
                    ));
                    assert(resolve_type(env@[*i as int], env@, env@.len() as nat)
                        == Option::Some(env@[*i as int]));
                }
                Option::Some(u)
            } else {
                Option::None
            }
        },
        _ => Option::Some(t),
    }
}

/// A structural copy of a value.
pub fn deep_copy(v: &ArgValue) -> (r: ArgValue)
    ensures
        deep_eq(r, *v),
    decreases *v,
{
    match v {
        ArgValue::Bool(b) => ArgValue::Bool(*b),
        ArgValue::Null => ArgValue::Null,
        ArgValue::NoneValue => ArgValue::NoneValue,
        ArgValue::Reserved => ArgValue::Reserved,
        ArgValue::Text(b) => ArgValue::Text(copy_bytes(b)),
        ArgValue::Number(b) => ArgValue::Number(copy_bytes(b)),
        ArgValue::Int(i) => ArgValue::Int(
            IntDigits { negative: i.negative, digits: copy_digits(&i.digits) },
        ),
        ArgValue::Int8(x) => ArgValue::Int8(*x),
        ArgValue::Int16(x) => ArgValue::Int16(*x),
        ArgValue::Int32(x) => ArgValue::Int32(*x),
        ArgValue::Int64(x) => ArgValue::Int64(*x),
        ArgValue::Nat(n) => ArgValue::Nat(NatDigits { digits: copy_digits(&n.digits) }),
        ArgValue::Nat8(x) => ArgValue::Nat8(*x),
        ArgValue::Nat16(x) => ArgValue::Nat16(*x),
        ArgValue::Nat32(x) => ArgValue::Nat32(*x),
        ArgValue::Nat64(x) => ArgValue::Nat64(*x),
        ArgValue::Float32Bits(x) => ArgValue::Float32Bits(*x),
        ArgValue::Float64Bits(x) => ArgValue::Float64Bits(*x),
        ArgValue::Opt(inner) => ArgValue::Opt(Box::new(deep_copy(&*inner))),
        ArgValue::VecValue(items) => {
            let mut out: Vec<ArgValue> = Vec::new();
            let mut i: usize = 0;
            while i < items.len()
                invariant
                    *v == ArgValue::VecValue(*items),
                    i <= items@.len(),
                    out@.len() == i,
                    forall|t: int| 0 <= t < i ==> deep_eq(#[trigger] out@[t], items@[t]),
                decreases items@.len() - i,
            {
                proof {
                    assert(*items == v->VecValue_0);
                    assert(decreases_to!(*v => v->VecValue_0));
                    assert(decreases_to!(v->VecValue_0 => v->VecValue_0@));
                    assert(decreases_to!(v->VecValue_0@ => v->VecValue_0@[i as int]));
                    assert(decreases_to!(*v => items@[i as int]));
                }
                let c = deep_copy(&items[i]);
                out.push(c);
                i = i + 1;
            }
            ArgValue::VecValue(out)
        },
        ArgValue::Record(fields) => {
            let mut out: Vec<FieldValue> = Vec::new();
            let mut i: usize = 0;
            while i < fields.len()
                invariant
                    *v == ArgValue::Record(*fields),
                    i <= fields@.len(),
                    out@.len() == i,
                    forall|t: int|
                        0 <= t < i ==> label_eq((#[trigger] out@[t]).label, fields@[t].label)
                            && deep_eq(out@[t].value, fields@[t].value),
                decreases fields@.len() - i,
            {
                proof {
                    assert(*fields == v->Record_0);
                    assert(decreases_to!(*v => v->Record_0));
                    assert(decreases_to!(v->Record_0 => v->Record_0@));
                    assert(decreases_to!(v->Record_0@ => v->Record_0@[i as int]));
                    assert(decreases_to!(v->Record_0@[i as int] => v->Record_0@[i as int].value));
                    assert(decreases_to!(*v => fields@[i as int].value));
                }
                let f = &fields[i];
                let c = deep_copy(&f.value);
                out.push(FieldValue { label: f.label.clone(), value: c });
                i = i + 1;
            }
            ArgValue::Record(out)
        },
        ArgValue::Variant(fv, tag) => ArgValue::Variant(
            Box::new(FieldValue { label: fv.label.clone(), value: deep_copy(&fv.value) }),
            *tag,
        ),
        ArgValue::Principal(b) => ArgValue::Principal(copy_bytes(b)),
        ArgValue::Blob(b) => ArgValue::Blob(copy_bytes(b)),
        ArgValue::Service(b) => ArgValue::Service(copy_bytes(b)),
        ArgValue::Func(b, m) => ArgValue::Func(copy_bytes(b), copy_bytes(m)),
    }
}

/// A copy of a digit vector.
fn copy_digits(a: &Vec<u32>) -> (r: Vec<u32>)
    ensures
        r@ == a@,
{
    let mut out: Vec<u32> = Vec::new();
    let mut i: usize = 0;
    while i < a.len()
        invariant
            i <= a@.len(),
            out@ =~= a@.subrange(0, i as int),
        decreases a@.len() - i,
    {
        out.push(a[i]);
        i = i + 1;
    }
    proof {
        assert(out@ =~= a@);
    }
    out
}

/// A copy of a byte vector.
fn copy_bytes(a: &Vec<u8>) -> (r: Vec<u8>)
    ensures
        r@ == a@,
{
    let mut out: Vec<u8> = Vec::new();
    let mut i: usize = 0;
    while i < a.len()
        invariant
            i <= a@.len(),
            out@ =~= a@.subrange(0, i as int),
        decreases a@.len() - i,
    {
        out.push(a[i]);
        i = i + 1;
    }
    proof {
        assert(out@ =~= a@);
    }
    out
}

/// The `index`-th entry of the curated list of pathological text
/// samples, as bytes; the list is a fixed constant of its crate.
pub uninterp spec fn blns_at(index: nat) -> Seq<u8>;

/// Relies on `naughty_strings::BLNS`: the list is nonempty.
#[verifier::external_body]
fn naughty_count() -> (r: usize)
    ensures
        r >= 1,
{
    naughty_strings::BLNS.len()
}

/// Relies on `naughty_strings::BLNS` and `slice::get`: in range, the
/// sample at `index`, a fixed constant of the crate.
#[verifier::external_body]
fn naughty_sample(index: usize) -> (r: Option<Vec<u8>>)
    ensures
        r matches Option::Some(b) ==> b@ == blns_at(index as nat),
{
    match naughty_strings::BLNS.get(index) {
        Option::Some(s) => Option::Some(s.as_bytes().to_vec()),
        Option::None => Option::None,
    }
}

/// What text mutation can do, on every draw: splice a pathological
/// sample in at a position, drop the last byte, clear, bump exactly one
/// byte, or leave the bytes alone.
pub open spec fn text_outcome(s0: Seq<u8>, s1: Seq<u8>) -> bool {
    ||| exists|at: int, i: nat|
        #![trigger s0.subrange(0, at), blns_at(i)]
        0 <= at <= s0.len() && s1 =~= s0.subrange(0, at) + blns_at(i) + s0.subrange(
            at,
            s0.len() as int,
        )
    ||| (s0.len() >= 1 && s1 =~= s0.drop_last())
    ||| s1 =~= Seq::<u8>::empty()
    ||| exists|at: int|
        0 <= at < s0.len() && s1 =~= #[trigger] s0.update(at, (((s0[at] + 1) as int % 256) as u8))
    ||| s1 == s0
}

/// Splices `ins` into `s` at byte position `at`.
fn splice_bytes(s: &mut Vec<u8>, at: usize, ins: &Vec<u8>)
    requires
        at <= old(s)@.len(),
    ensures
        final(s)@ =~= old(s)@.subrange(0, at as int) + ins@ + old(s)@.subrange(
            at as int,
            old(s)@.len() as int,
        ),
{
    let mut out: Vec<u8> = Vec::new();
    let mut i: usize = 0;
    while i < at
        invariant
            i <= at,
            at <= s@.len(),
            s@ == old(s)@,
            out@ =~= s@.subrange(0, i as int),
        decreases at - i,
    {
        out.push(s[i]);
        i = i + 1;
    }
    let mut j: usize = 0;
    while j < ins.len()
        invariant
            j <= ins@.len(),
            at <= s@.len(),
            s@ == old(s)@,
            out@ =~= s@.subrange(0, at as int) + ins@.subrange(0, j as int),
        decreases ins@.len() - j,
    {
        out.push(ins[j]);
        j = j + 1;
    }
    let mut k: usize = at;
    while k < s.len()
        invariant
            at <= k <= s@.len(),
            s@ == old(s)@,
            out@ =~= s@.subrange(0, at as int) + ins@ + s@.subrange(at as int, k as int),
        decreases s@.len() - k,
    {
        out.push(s[k]);
        k = k + 1;
    }
    *s = out;
}

/// Mutates raw text bytes: insert a pathological sample at a byte
/// position, drop the last byte, clear, or bump one byte — the encoding
/// may stop being well formed, and the decoder is expected to tolerate
/// that. On every draw the new bytes have one of exactly those shapes.
pub fn mutate_text(s: &mut Vec<u8>, rng: &mut rand::rngs::StdRng)
    ensures
        text_outcome(old(s)@, final(s)@),
{
    let k = rand_below_i32(rng, 10);
    if k < 5 {
        let at = if s.len() >= 1 {
            rand_below_usize(rng, s.len())
        } else {
            0
        };
        let ni = rand_below_usize(rng, naughty_count());
        match naughty_sample(ni) {
            Option::Some(ins) => {
                splice_bytes(s, at, &ins);
                proof {
                    assert(0 <= at <= old(s)@.len());
                    assert(s@ =~= old(s)@.subrange(0, at as int) + blns_at(ni as nat) + old(
                        s,
                    )@.subrange(at as int, old(s)@.len() as int));
                    assert(text_outcome(old(s)@, s@));
                }
            },
            Option::None => {},
        }
    } else if k == 5 {
        if s.len() >= 1 {
            let _ = s.pop();
            proof {
                assert(s@ =~= old(s)@.drop_last());
                assert(text_outcome(old(s)@, s@));
            }
        }
    } else if k == 6 {
        s.clear();
        proof {
            assert(text_outcome(old(s)@, s@));
        }
    } else if k < 9 {
        if s.len() >= 1 {
            let at = rand_below_usize(rng, s.len());
            let b = s[at];
            s.set(at, b.wrapping_add(1));
            proof {
                assert(s@ =~= old(s)@.update(at as int, (((old(s)@[at as int] + 1) as int
                    % 256) as u8)));
                assert(text_outcome(old(s)@, s@));
            }
        }
    }
}

/// A value a signed 128-bit draw can take.
pub open spec fn i128_drawable(r: int) -> bool {
    i128::MIN <= r <= i128::MAX
}

/// A value an unsigned 128-bit draw can take.
pub open spec fn u128_drawable(r: nat) -> bool {
    r <= u128::MAX
}

/// Mutates an arbitrary-precision integer: a step of one, zero, a
/// 64-bit boundary, or arithmetic against a random 128-bit value. On
/// every draw the new value is one of exactly those forms.
pub fn mutate_int(v: &mut IntDigits, rng: &mut rand::rngs::StdRng)
    ensures
        ({
            let v0 = int_value(*old(v));
            let v1 = int_value(*final(v));
            ||| v1 == v0 + 1
            ||| v1 == v0 - 1
            ||| v1 == 0
            ||| v1 == i64::MIN
            ||| v1 == i64::MAX
            ||| exists|r: int|
                #[trigger] i128_drawable(r) && (v1 == r + v0 || v1 == r - v0 || v1 == r * v0)
        }),
{
    let k = rand_below_i32(rng, 20);
    if k == 0 {
        *v = big_int_add(v, &int_from_i64(1));
    } else if k == 1 {
        *v = big_int_sub(v, &int_from_i64(1));
    } else if k == 2 {
        *v = int_from_i64(0);
    } else if k == 3 {
        *v = int_from_i64(i64::MIN);
    } else if k == 4 {
        *v = int_from_i64(i64::MAX);
    } else {
        let drawn = rand_i128(rng);
        let random = int_from_i128(drawn);
        let op = rand_below_i32(rng, 3);
        if op == 0 {
            *v = big_int_add(&random, v);
        } else if op == 1 {
            *v = big_int_sub(&random, v);
        } else {
            *v = big_int_mul(&random, v);
        }
        proof {
            assert(i128_drawable(drawn as int));
        }
    }
}

/// Mutates an arbitrary-precision natural: a step of one clamped at
/// zero, zero, the 64-bit maximum, or arithmetic against a random
/// 128-bit value, clamped at zero. On every draw the new value is one
/// of exactly those forms.
pub fn mutate_nat(v: &mut NatDigits, rng: &mut rand::rngs::StdRng)
    ensures
        ({
            let v0 = nat_value(*old(v));
            let v1 = nat_value(*final(v));
            ||| v1 == v0 + 1
            ||| (v0 >= 1 && v1 == v0 - 1)
            ||| v1 == 0
            ||| v1 == u64::MAX
            ||| exists|r: nat|
                #[trigger] u128_drawable(r) && (v1 == r + v0 || (r >= v0 && v1 == r - v0) || v1
                    == r * v0)
        }),
{
    let k = rand_below_i32(rng, 20);
    if k == 0 {
        *v = big_nat_add(v, &nat_from_u32(1));
    } else if k == 1 {
        match big_nat_checked_sub(v, &nat_from_u32(1)) {
            Option::Some(d) => {
                *v = d;
            },
            Option::None => {
                *v = nat_zero();
            },
        }
    } else if k == 2 {
        *v = nat_from_u64(u64::MAX);
    } else if k == 3 {
        *v = nat_zero();
    } else {
        let drawn = rand_u128(rng);
        let random = nat_from_u128(drawn);
        let op = rand_below_i32(rng, 3);
        if op == 0 {
            *v = big_nat_add(&random, v);
        } else if op == 1 {
            match big_nat_checked_sub(&random, v) {
                Option::Some(d) => {
                    *v = d;
                },
                Option::None => {
                    *v = nat_zero();
                },
            }
        } else {
            *v = big_nat_mul(&random, v);
        }
        proof {
            assert(u128_drawable(drawn as nat));
        }
    }
}

/// Mutates 32-bit float bits: sometimes the canonical quiet not-a-number
/// or the positive infinity; floating-point arithmetic itself stays
/// outside the library, so the remaining draws keep the value.
pub fn mutate_float32_bits(v: u32, rng: &mut rand::rngs::StdRng) -> (r: u32)
    ensures
        r == 0x7FC00000 || r == 0x7F800000 || r == v,
{
    let _random = rand_u32(rng);
    if rand_ratio(rng, 1, 20) {
        return 0x7FC00000;
    }
    if rand_ratio(rng, 1, 20) {
        return 0x7F800000;
    }
    let _ = rand_below_i32(rng, 3);
    v
}

/// Mutates 64-bit float bits, as for 32 bits.
pub fn mutate_float64_bits(v: u64, rng: &mut rand::rngs::StdRng) -> (r: u64)
    ensures
        r == 0x7FF8000000000000 || r == 0x7FF0000000000000 || r == v,
{
    let _random = rand_u64(rng);
    if rand_ratio(rng, 1, 20) {
        return 0x7FF8000000000000;
    }
    if rand_ratio(rng, 1, 20) {
        return 0x7FF0000000000000;
    }
    let _ = rand_below_i32(rng, 3);
    v
}

/// Mutates one fixed-width integer against a random value of the same
/// width: wrapping add, wrapping subtract, wrapping multiply, or xor.
pub fn mutate_u8(val: u8, rng: &mut rand::rngs::StdRng) -> (r: u8) {
    let random = rand_u8(rng);
    let k = rand_below_i32(rng, 4);
    if k == 0 {
        random.wrapping_add(val)
    } else if k == 1 {
        random.wrapping_sub(val)
    } else if k == 2 {
        random.wrapping_mul(val)
    } else {
        random ^ val
    }
}

/// As [`mutate_u8`], for 16 bits.
pub fn mutate_u16(val: u16, rng: &mut rand::rngs::StdRng) -> (r: u16) {
    let random = rand_u16(rng);
    let k = rand_below_i32(rng, 4);
    if k == 0 {
        random.wrapping_add(val)
    } else if k == 1 {
        random.wrapping_sub(val)
    } else if k == 2 {
        random.wrapping_mul(val)
    } else {
        random ^ val
    }
}

/// As [`mutate_u8`], for 32 bits.
pub fn mutate_u32(val: u32, rng: &mut rand::rngs::StdRng) -> (r: u32) {
    let random = rand_u32(rng);
    let k = rand_below_i32(rng, 4);
    if k == 0 {
        random.wrapping_add(val)
    } else if k == 1 {
        random.wrapping_sub(val)
    } else if k == 2 {
        random.wrapping_mul(val)
    } else {
        random ^ val
    }
}

/// As [`mutate_u8`], for 64 bits.
pub fn mutate_u64(val: u64, rng: &mut rand::rngs::StdRng) -> (r: u64) {
    let random = rand_u64(rng);
    let k = rand_below_i32(rng, 4);
    if k == 0 {
        random.wrapping_add(val)
    } else if k == 1 {
        random.wrapping_sub(val)
    } else if k == 2 {
        random.wrapping_mul(val)
    } else {
        random ^ val
    }
}

/// As [`mutate_u8`], signed.
pub fn mutate_i8(val: i8, rng: &mut rand::rngs::StdRng) -> (r: i8) {
    let random = rand_i8(rng);
    let k = rand_below_i32(rng, 4);
    if k == 0 {
        random.wrapping_add(val)
    } else if k == 1 {
        random.wrapping_sub(val)
    } else if k == 2 {
        random.wrapping_mul(val)
    } else {
        random ^ val
    }
}

/// As [`mutate_i8`], for 16 bits.
pub fn mutate_i16(val: i16, rng: &mut rand::rngs::StdRng) -> (r: i16) {
    let random = rand_i16(rng);
    let k = rand_below_i32(rng, 4);
    if k == 0 {
        random.wrapping_add(val)
    } else if k == 1 {
        random.wrapping_sub(val)
    } else if k == 2 {
        random.wrapping_mul(val)
    } else {
        random ^ val
    }
}

/// As [`mutate_i8`], for 32 bits.
pub fn mutate_i32(val: i32, rng: &mut rand::rngs::StdRng) -> (r: i32) {
    let random = rand_i32(rng);
    let k = rand_below_i32(rng, 4);
    if k == 0 {
        random.wrapping_add(val)
    } else if k == 1 {
        random.wrapping_sub(val)
    } else if k == 2 {
        random.wrapping_mul(val)
    } else {
        random ^ val
    }
}

/// As [`mutate_i8`], for 64 bits.
pub fn mutate_i64(val: i64, rng: &mut rand::rngs::StdRng) -> (r: i64) {
    let random = rand_i64(rng);
    let k = rand_below_i32(rng, 4);
    if k == 0 {
        random.wrapping_add(val)
    } else if k == 1 {
        random.wrapping_sub(val)
    } else if k == 2 {
        random.wrapping_mul(val)
    } else {
        random ^ val
    }
}

/// Mutates a principal: very rarely the management identity (the empty
/// principal) or the anonymous identity, else a random principal of 1
/// to 29 bytes whose last byte avoids the anonymous tag.
pub fn mutate_principal(p: &mut Vec<u8>, rng: &mut rand::rngs::StdRng)
    ensures
        final(p)@.len() <= PRINCIPAL_MAX_LEN,
        final(p)@.len() == 0 || final(p)@ =~= seq![4u8] || (1 <= final(p)@.len()
            <= PRINCIPAL_MAX_LEN && final(p)@.last() != 4),
{
    let k = rand_u8(rng);
    if k == 255 {
        *p = Vec::new();
    } else if k == 254 {
        let mut v: Vec<u8> = Vec::new();
        v.push(4);
        proof {
            assert(v@ =~= seq![4u8]);
        }
        *p = v;
    } else {
        let length = rand_between_usize(rng, 1, PRINCIPAL_MAX_LEN);
        let mut v: Vec<u8> = Vec::new();
        let mut i: usize = 0;
        while i < length
            invariant
                i <= length,
                length <= PRINCIPAL_MAX_LEN,
                v@.len() == i,
            decreases length - i,
        {
            v.push(rand_u8(rng));
            i = i + 1;
        }
        let last = v[length - 1];
        if last == 4 {
            v.set(length - 1, 255);
        }
        *p = v;
    }
}

/// Mutates a byte blob: shrink it to a random strictly shorter length,
/// then refill it with random bytes. An empty blob is left alone.
pub fn mutate_blob(b: &mut Vec<u8>, rng: &mut rand::rngs::StdRng)
    ensures
        old(b)@.len() == 0 ==> final(b)@ == old(b)@,
        old(b)@.len() >= 1 ==> final(b)@.len() < old(b)@.len(),
{
    if b.len() == 0 {
        return;
    }
    let new_size = rand_below_usize(rng, b.len());
    b.truncate(new_size);
    rand_fill_bytes(rng, b);
}

/// The first field index carrying the given wire id, if any.
fn find_field_by_id(fts: &Vec<FieldType>, target: u32) -> (r: Option<usize>)
    ensures
        match r {
            Option::Some(j) => {
                &&& j < fts@.len()
                &&& label_id_spec(fts@[j as int].label) == target
                &&& forall|t: int|
                    0 <= t < j ==> label_id_spec((#[trigger] fts@[t]).label) != target
            },
            Option::None => forall|t: int|
                0 <= t < fts@.len() ==> label_id_spec((#[trigger] fts@[t]).label) != target,
        },
{
    let mut j: usize = 0;
    while j < fts.len()
        invariant
            j <= fts@.len(),
            forall|t: int|
                0 <= t < j ==> label_id_spec((#[trigger] fts@[t]).label) != target,
        decreases fts@.len() - j,
    {
        if label_id(&fts[j].label) == target {
            return Option::Some(j);
        }
        j = j + 1;
    }
    Option::None
}

/// Can generation succeed on every draw? It can unless the budget runs
/// out, a reference dangles, or the type is (or reaches, on some
/// alternative the draw may pick) the empty type.
pub open spec fn generable(t: SchemaType, env: Seq<SchemaType>, fuel: nat) -> bool
    decreases fuel,
{
    fuel >= 1 && match resolve_type(t, env, (env.len() + 1) as nat) {
        Option::None => false,
        Option::Some(rt) => match rt {
            SchemaType::Empty => false,
            SchemaType::Var(_) => false,
            SchemaType::Record(fts) => forall|i: int|
                0 <= i < fts@.len() ==> generable(
                    (#[trigger] fts@[i]).ty,
                    env,
                    (fuel - 1) as nat,
                ),
            SchemaType::Variant(fts) => fts@.len() >= 1 && forall|i: int|
                0 <= i < fts@.len() ==> generable(
                    (#[trigger] fts@[i]).ty,
                    env,
                    (fuel - 1) as nat,
                ),
            _ => true,
        },
    }
}

/// Generates a fresh value of the given type, or nothing when the type
/// is uninhabited or the recursion budget runs out. Whatever comes out
/// inhabits the type; on a generable type, something always comes out.
pub fn generate_value(
    ty: &SchemaType,
    env: &Vec<SchemaType>,
    rng: &mut rand::rngs::StdRng,
    fuel: usize,
) -> (r: Option<ArgValue>)
    requires
        env_ok(env@),
    ensures
        r matches Option::Some(v) ==> val_ok(v, *ty, env@),
        generable(*ty, env@, fuel as nat) ==> r is Some,
    decreases fuel,
{
    if fuel == 0 {
        return Option::None;
    }
    let rt = match resolve_schema(ty, env) {
        Option::Some(rt) => rt,
        Option::None => {
            return Option::None;
        },
    };
    match rt {
        SchemaType::Bool => Option::Some(ArgValue::Bool(rand_ratio(rng, 1, 2))),
        SchemaType::Null => Option::Some(ArgValue::Null),
        SchemaType::Reserved => Option::Some(ArgValue::Reserved),
        SchemaType::Empty => Option::None,
        SchemaType::Text => Option::Some(ArgValue::Text(Vec::new())),
        SchemaType::Int => Option::Some(ArgValue::Int(int_from_i64(rand_i64(rng)))),
        SchemaType::Nat => Option::Some(ArgValue::Nat(nat_from_u64(rand_u64(rng)))),
        SchemaType::Int8 => Option::Some(ArgValue::Int8(rand_i8(rng))),
        SchemaType::Int16 => Option::Some(ArgValue::Int16(rand_i16(rng))),
        SchemaType::Int32 => Option::Some(ArgValue::Int32(rand_i32(rng))),
        SchemaType::Int64 => Option::Some(ArgValue::Int64(rand_i64(rng))),
        SchemaType::Nat8 => Option::Some(ArgValue::Nat8(rand_u8(rng))),
        SchemaType::Nat16 => Option::Some(ArgValue::Nat16(rand_u16(rng))),
        SchemaType::Nat32 => Option::Some(ArgValue::Nat32(rand_u32(rng))),
        SchemaType::Nat64 => Option::Some(ArgValue::Nat64(rand_u64(rng))),
        SchemaType::Float32 => Option::Some(ArgValue::Float32Bits(rand_u32(rng))),
        SchemaType::Float64 => Option::Some(ArgValue::Float64Bits(rand_u64(rng))),
        SchemaType::Principal => {
            let mut b: Vec<u8> = Vec::new();
            b.push(4);
            Option::Some(ArgValue::Principal(b))
        },
        SchemaType::Opt(inner) => {
            if rand_ratio(rng, 1, 2) {
                match generate_value(&**inner, env, rng, fuel - 1) {
                    Option::Some(v) => Option::Some(ArgValue::Opt(Box::new(v))),
                    Option::None => Option::Some(ArgValue::NoneValue),
                }
            } else {
                Option::Some(ArgValue::NoneValue)
            }
        },
        SchemaType::VecOf(item_ty) => {
            let k = rand_below_usize(rng, 4);
            let mut items: Vec<ArgValue> = Vec::new();
            let mut i: usize = 0;
            while i < k
                invariant
                    env_ok(env@),
                    fuel >= 1,
                    i <= k,
                    forall|t: int|
                        0 <= t < items@.len() ==> val_ok(#[trigger] items@[t], **item_ty, env@),
                decreases k - i,
            {
                match generate_value(&**item_ty, env, rng, fuel - 1) {
                    Option::Some(v) => {
                        items.push(v);
                        i = i + 1;
                    },
                    Option::None => {
                        i = k;
                    },
                }
            }
            Option::Some(ArgValue::VecValue(items))
        },
        SchemaType::Record(fts) => {
            let mut fields: Vec<FieldValue> = Vec::new();
            let mut i: usize = 0;
            let n = fts.len();
            while i < n
                invariant
                    env_ok(env@),
                    fuel >= 1,
                    i <= n,
                    n == fts@.len(),
                    resolve_type(*ty, env@, (env@.len() + 1) as nat) == Option::Some(
                        SchemaType::Record(*fts),
                    ),
                    fields@.len() == i,
                    forall|t: int|
                        0 <= t < i ==> label_id_spec((#[trigger] fields@[t]).label)
                            == label_id_spec(fts@[t].label) && val_ok(
                            fields@[t].value,
                            fts@[t].ty,
                            env@,
                        ),
                decreases n - i,
            {
                match generate_value(&fts[i].ty, env, rng, fuel - 1) {
                    Option::Some(v) => {
                        let lab = fts[i].label.clone();
                        proof {
                            crate::idl::lemma_label_eq_id(lab, fts@[i as int].label);
                        }
                        fields.push(FieldValue { label: lab, value: v });
                    },
                    Option::None => {
                        proof {
                            assert(!generable(fts@[i as int].ty, env@, (fuel - 1) as nat));
                            assert(!generable(*ty, env@, fuel as nat));
                        }
                        return Option::None;
                    },
                }
                i = i + 1;
            }
            Option::Some(ArgValue::Record(fields))
        },
        SchemaType::Variant(fts) => {
            if fts.len() == 0 {
                proof {
                    assert(!generable(*ty, env@, fuel as nat));
                }
                return Option::None;
            }
            let j = rand_below_usize(rng, fts.len());
            match generate_value(&fts[j].ty, env, rng, fuel - 1) {
                Option::Some(v) => {
                    let lab = fts[j].label.clone();
                    proof {
                        crate::idl::lemma_label_eq_id(lab, fts@[j as int].label);
                    }
                    Option::Some(
                        ArgValue::Variant(Box::new(FieldValue { label: lab, value: v }), j as u64),
                    )
                },
                Option::None => {
                    proof {
                        assert(!generable(fts@[j as int].ty, env@, (fuel - 1) as nat));
                        assert(!generable(*ty, env@, fuel as nat));
                    }
                    Option::None
                },
            }
        },
        SchemaType::Var(_) => {
            proof {
                assert(false);
            }
            Option::None
        },
        SchemaType::Service => Option::Some(ArgValue::Service(Vec::new())),
        SchemaType::Func => Option::Some(ArgValue::Func(Vec::new(), Vec::new())),
        SchemaType::Unsupported => Option::Some(ArgValue::Null),
    }
}

/// The reflexive reading of the mutation-shape clauses: an untouched
/// value keeps its kind, its record shape and its variant label.
proof fn lemma_self_outcome(v: ArgValue)
    ensures
        same_kind(v, v),
        v matches ArgValue::Record(f) ==> record_shape_kept(f@, f@),
        v matches ArgValue::Variant(fv, t) ==> label_eq(fv.label, fv.label),
{
    match v {
        ArgValue::Record(f) => {
            lemma_record_shape_refl(f@);
        },
        ArgValue::Variant(fv, _) => {
            lemma_label_eq_refl(fv.label);
        },
        _ => {},
    }
}

/// Mutates one value under its declared type. Every rule keeps the
/// value a member of the type; the recursion is bounded by depth, and a
/// value deeper than the bound is left alone.
pub fn mutate_value(
    val: &mut ArgValue,
    ty: &SchemaType,
    env: &Vec<SchemaType>,
    rng: &mut rand::rngs::StdRng,
    depth: usize,
)
    requires
        env_ok(env@),
        type_shallow_wf(*ty),
    ensures
        val_ok(*old(val), *ty, env@) ==> val_ok(*final(val), *ty, env@),
        same_kind(*old(val), *final(val)),
        depth > 20 ==> *final(val) == *old(val),
        (*old(val) is Null || *old(val) is NoneValue || *old(val) is Reserved || *old(val)
            is Service || *old(val) is Func) ==> *final(val) == *old(val),
        depth <= 20 ==> (*old(val) matches ArgValue::Bool(b0) ==> *final(val)
            == ArgValue::Bool(!b0)),
        *old(val) matches ArgValue::VecValue(items0) ==> (*final(val)
            matches ArgValue::VecValue(items1) && items0@.len() - 1 <= items1@.len()
            <= items0@.len() + 1),
        *old(val) matches ArgValue::Record(f0) ==> (*final(val) matches ArgValue::Record(f1)
            && record_shape_kept(f0@, f1@)),
        *old(val) matches ArgValue::Variant(fv0, tag0) ==> (*final(val)
            matches ArgValue::Variant(fv1, tag1) && ((tag1 == tag0 && label_eq(
            fv1.label,
            fv0.label,
        )) || (resolve_type(*ty, env@, (env@.len() + 1) as nat) matches Option::Some(
            SchemaType::Variant(fts),
        ) && tag1 < fts@.len() && label_eq(fv1.label, fts@[tag1 as int].label)))),
    decreases 21 - depth, 1int,
{
    proof {
        lemma_self_outcome(*old(val));
    }
    if depth > 20 {
        return;
    }
    proof {
        lemma_resolve_shallow_wf(*ty, env@);
    }
    match val {
        ArgValue::Bool(b) => {
            *b = !*b;
        },
        ArgValue::Null => {},
        ArgValue::NoneValue => {},
        ArgValue::Reserved => {},
        ArgValue::Text(s) => {
            mutate_text(s, rng);
        },
        ArgValue::Number(s) => {
            mutate_text(s, rng);
        },
        ArgValue::Int(i) => {
            mutate_int(i, rng);
        },
        ArgValue::Int8(x) => {
            *x = mutate_i8(*x, rng);
        },
        ArgValue::Int16(x) => {
            *x = mutate_i16(*x, rng);
        },
        ArgValue::Int32(x) => {
            *x = mutate_i32(*x, rng);
        },
        ArgValue::Int64(x) => {
            *x = mutate_i64(*x, rng);
        },
        ArgValue::Nat(n) => {
            mutate_nat(n, rng);
        },
        ArgValue::Nat8(x) => {
            *x = mutate_u8(*x, rng);
        },
        ArgValue::Nat16(x) => {
            *x = mutate_u16(*x, rng);
        },
        ArgValue::Nat32(x) => {
            *x = mutate_u32(*x, rng);
        },
        ArgValue::Nat64(x) => {
            *x = mutate_u64(*x, rng);
        },
        ArgValue::Float32Bits(x) => {
            *x = mutate_float32_bits(*x, rng);
        },
        ArgValue::Float64Bits(x) => {
            *x = mutate_float64_bits(*x, rng);
        },
        ArgValue::VecValue(items) => {
            match resolve_schema(ty, env) {
                Option::Some(rt) => {
                    match rt {
                        SchemaType::VecOf(item_ty) => {
                            mutate_vec(items, &**item_ty, env, rng, depth);
                        },
                        _ => {},
                    }
                },
                Option::None => {},
            }
        },
        ArgValue::Principal(p) => {
            mutate_principal(p, rng);
        },
        ArgValue::Blob(b) => {
            mutate_blob(b, rng);
        },
        ArgValue::Record(fields) => {
            match resolve_schema(ty, env) {
                Option::Some(rt) => {
                    match rt {
                        SchemaType::Record(fts) => {
                            if fields.len() >= 1 {
                                let ghost f0 = fields@;
                                let idx = rand_below_usize(rng, fields.len());
                                let target = label_id(&fields[idx].label);
                                match find_field_by_id(fts, target) {
                                    Option::Some(j) => {
                                        let lab = fields[idx].label.clone();
                                        let mut v2 = deep_copy(&fields[idx].value);
                                        let ghost v2pre = v2;
                                        proof {
                                            assert(type_shallow_wf(fts@[j as int].ty));
                                            if val_ok(*old(val), *ty, env@) {
                                                assert(label_id_spec(f0[idx as int].label)
                                                    == label_id_spec(fts@[idx as int].label));
                                                if (j as int) < (idx as int) {
                                                    assert(false);
                                                }
                                                if (j as int) > (idx as int) {
                                                    assert(label_id_spec(fts@[idx as int].label)
                                                        != target);
                                                    assert(false);
                                                }
                                                assert(j == idx);
                                                lemma_deep_eq_val_ok(
                                                    v2pre,
                                                    f0[idx as int].value,
                                                    fts@[idx as int].ty,
                                                    env@,
                                                );
                                            }
                                        }
                                        mutate_value(&mut v2, &fts[j].ty, env, rng, depth + 1);
                                        fields.set(idx, FieldValue { label: lab, value: v2 });
                                        proof {
                                            if val_ok(*old(val), *ty, env@) {
                                                crate::idl::lemma_label_eq_id(
                                                    fields@[idx as int].label,
                                                    f0[idx as int].label,
                                                );
                                                assert forall|i: int|
                                                    0 <= i < fields@.len() implies {
                                                    &&& label_id_spec(
                                                        (#[trigger] fields@[i]).label,
                                                    ) == label_id_spec(fts@[i].label)
                                                    &&& val_ok(
                                                        fields@[i].value,
                                                        fts@[i].ty,
                                                        env@,
                                                    )
                                                } by {
                                                    if i != idx {
                                                        assert(fields@[i] == f0[i]);
                                                    }
                                                }
                                            }
                                            assert(crate::idl::field_chosen(idx as int));
                                            assert forall|jj: int|
                                                0 <= jj < fields@.len() implies label_eq(
                                                (#[trigger] fields@[jj]).label,
                                                f0[jj].label,
                                            ) by {
                                                if jj != idx {
                                                    assert(fields@[jj] == f0[jj]);
                                                    lemma_label_eq_refl(f0[jj].label);
                                                }
                                            }
                                            assert forall|jj: int|
                                                0 <= jj < fields@.len() && jj != idx
                                                implies deep_eq(
                                                (#[trigger] fields@[jj]).value,
                                                f0[jj].value,
                                            ) by {
                                                assert(fields@[jj] == f0[jj]);
                                                lemma_deep_eq_refl(f0[jj].value);
                                            }
                                            assert(record_shape_kept(f0, fields@));
                                        }
                                    },
                                    Option::None => {},
                                }
                            }
                        },
                        _ => {},
                    }
                },
                Option::None => {},
            }
        },
        ArgValue::Variant(fv, tag) => {
            match resolve_schema(ty, env) {
                Option::Some(rt) => {
                    match rt {
                        SchemaType::Variant(fts) => {
                            if fts.len() >= 1 && rand_ratio(rng, 1, 5) {
                                let j = rand_below_usize(rng, fts.len());
                                match generate_value(&fts[j].ty, env, rng, 20) {
                                    Option::Some(g) => {
                                        let lab = fts[j].label.clone();
                                        proof {
                                            crate::idl::lemma_label_eq_id(
                                                lab,
                                                fts@[j as int].label,
                                            );
                                        }
                                        *fv = Box::new(FieldValue { label: lab, value: g });
                                        *tag = j as u64;
                                    },
                                    Option::None => {},
                                }
                            } else {
                                let ghost fv0 = *fv;
                                let ghost tag0 = *tag;
                                let target = label_id(&fv.label);
                                match find_field_by_id(fts, target) {
                                    Option::Some(j) => {
                                        let lab = fv.label.clone();
                                        let mut v2 = deep_copy(&fv.value);
                                        let ghost v2pre = v2;
                                        proof {
                                            assert(type_shallow_wf(fts@[j as int].ty));
                                            if val_ok(*old(val), *ty, env@) {
                                                assert(label_id_spec(fv0.label)
                                                    == label_id_spec(fts@[tag0 as int].label));
                                                if (j as int) < (tag0 as int) {
                                                    assert(false);
                                                }
                                                if (j as int) > (tag0 as int) {
                                                    assert(label_id_spec(fts@[tag0 as int].label)
                                                        != target);
                                                    assert(false);
                                                }
                                                assert(j as int == tag0 as int);
                                                lemma_deep_eq_val_ok(
                                                    v2pre,
                                                    fv0.value,
                                                    fts@[tag0 as int].ty,
                                                    env@,
                                                );
                                            }
                                        }
                                        mutate_value(&mut v2, &fts[j].ty, env, rng, depth + 1);
                                        proof {
                                            if val_ok(*old(val), *ty, env@) {
                                                crate::idl::lemma_label_eq_id(lab, fv0.label);
                                            }
                                        }
                                        *fv = Box::new(FieldValue { label: lab, value: v2 });
                                    },
                                    Option::None => {},
                                }
                            }
                        },
                        _ => {},
                    }
                },
                Option::None => {},
            }
        },
        ArgValue::Opt(inner) => {
            mutate_opt(inner, ty, env, rng, depth);
        },
        ArgValue::Service(_) => {},
        ArgValue::Func(_, _) => {},
    }
}

/// Mutates the payload of a present optional under the optional's
/// declared type; an absent optional is left alone.
pub fn mutate_opt(
    o: &mut Box<ArgValue>,
    ty: &SchemaType,
    env: &Vec<SchemaType>,
    rng: &mut rand::rngs::StdRng,
    depth: usize,
)
    requires
        env_ok(env@),
        type_shallow_wf(*ty),
        depth <= 20,
    ensures
        val_ok(ArgValue::Opt(*old(o)), *ty, env@) ==> val_ok(ArgValue::Opt(*final(o)), *ty, env@),
        same_kind(**old(o), **final(o)),
        depth == 20 ==> **final(o) == **old(o),
        !(resolve_type(*ty, env@, (env@.len() + 1) as nat) matches Option::Some(
            SchemaType::Opt(_),
        )) ==> **final(o) == **old(o),
    decreases 21 - depth, 0int,
{
    proof {
        lemma_resolve_shallow_wf(*ty, env@);
        lemma_self_outcome(**old(o));
    }
    match resolve_schema(ty, env) {
        Option::Some(rt) => {
            match rt {
                SchemaType::Opt(inner_ty) => {
                    mutate_value(&mut *o, &**inner_ty, env, rng, depth + 1);
                },
                _ => {},
            }
        },
        Option::None => {},
    }
}

/// Mutates a vector of values under their item type: drop a random
/// element, duplicate a random element and mutate the copy, or mutate a
/// random element. An empty vector is left alone.
pub fn mutate_vec(
    v: &mut Vec<ArgValue>,
    item_ty: &SchemaType,
    env: &Vec<SchemaType>,
    rng: &mut rand::rngs::StdRng,
    depth: usize,
)
    requires
        env_ok(env@),
        type_shallow_wf(*item_ty),
        depth <= 20,
    ensures
        (forall|i: int| 0 <= i < old(v)@.len() ==> val_ok(#[trigger] old(v)@[i], *item_ty, env@))
            ==> (forall|i: int|
            0 <= i < final(v)@.len() ==> val_ok(#[trigger] final(v)@[i], *item_ty, env@)),
        old(v)@.len() == 0 ==> final(v)@ == old(v)@,
        old(v)@.len() - 1 <= final(v)@.len() <= old(v)@.len() + 1,
    decreases 21 - depth, 0int,
{
    if v.len() == 0 {
        return;
    }
    let k = rand_below_i32(rng, 3);
    if k == 0 {
        let idx = rand_below_usize(rng, v.len());
        let _ = v.remove(idx);
    } else if k == 1 {
        let idx = rand_below_usize(rng, v.len());
        let mut c = deep_copy(&v[idx]);
        proof {
            if forall|i: int|
                0 <= i < old(v)@.len() ==> val_ok(#[trigger] old(v)@[i], *item_ty, env@) {
                lemma_deep_eq_val_ok(c, old(v)@[idx as int], *item_ty, env@);
            }
        }
        mutate_value(&mut c, item_ty, env, rng, depth + 1);
        v.push(c);
    } else {
        let idx = rand_below_usize(rng, v.len());
        let mut c = deep_copy(&v[idx]);
        proof {
            if forall|i: int|
                0 <= i < old(v)@.len() ==> val_ok(#[trigger] old(v)@[i], *item_ty, env@) {
                lemma_deep_eq_val_ok(c, old(v)@[idx as int], *item_ty, env@);
            }
        }
        mutate_value(&mut c, item_ty, env, rng, depth + 1);
        v.set(idx, c);
    }
}

/// Checks one declared type for shallow well-formedness.
fn check_type_wf(t: &SchemaType) -> (r: bool)
    ensures
        r == type_shallow_wf(*t),
    decreases *t,
{
    match t {
        SchemaType::Opt(inner) => check_type_wf(&**inner),
        SchemaType::VecOf(inner) => check_type_wf(&**inner),
        SchemaType::Record(fts) => check_fields_wf(fts),
        SchemaType::Variant(fts) => check_fields_wf(fts),
        _ => true,
    }
}

/// Checks a field list: distinct wire ids, well-formed field types.
fn check_fields_wf(fts: &Vec<FieldType>) -> (r: bool)
    ensures
        r == (labels_distinct(fts@) && (forall|i: int|
            0 <= i < fts@.len() ==> type_shallow_wf((#[trigger] fts@[i]).ty))),
    decreases fts@,
{
    let n = fts.len();
    let mut i: usize = 0;
    while i < n
        invariant
            i <= n,
            n == fts@.len(),
            forall|a: int, b: int|
                0 <= a < b < i ==> label_id_spec((#[trigger] fts@[a]).label) != label_id_spec(
                    (#[trigger] fts@[b]).label,
                ),
            forall|a: int| 0 <= a < i ==> type_shallow_wf((#[trigger] fts@[a]).ty),
        decreases n - i,
    {
        proof {
            assert(decreases_to!(*fts => fts@));
            assert(decreases_to!(fts@ => fts@[i as int]));
            assert(decreases_to!(fts@[i as int] => fts@[i as int].ty));
        }
        if !check_type_wf(&fts[i].ty) {
            return false;
        }
        let target = label_id(&fts[i].label);
        let mut j: usize = 0;
        while j < i
            invariant
                j <= i,
                i < n,
                n == fts@.len(),
                target == label_id_spec(fts@[i as int].label),
                forall|a: int|
                    0 <= a < j ==> label_id_spec((#[trigger] fts@[a]).label) != target,
            decreases i - j,
        {
            if label_id(&fts[j].label) == target {
                return false;
            }
            j = j + 1;
        }
        i = i + 1;
    }
    proof {
        assert(labels_distinct(fts@));
    }
    true
}

/// Checks a list of declared types for shallow well-formedness.
pub fn check_types_wf(types: &Vec<SchemaType>) -> (r: bool)
    ensures
        r == (forall|i: int| 0 <= i < types@.len() ==> type_shallow_wf(#[trigger] types@[i])),
{
    let n = types.len();
    let mut i: usize = 0;
    while i < n
        invariant
            i <= n,
            n == types@.len(),
            forall|a: int| 0 <= a < i ==> type_shallow_wf(#[trigger] types@[a]),
        decreases n - i,
    {
        if !check_type_wf(&types[i]) {
            return false;
        }
        i = i + 1;
    }
    true
}

/// Checks a whole type table: no bare references, everything shallow
/// well formed.
pub fn check_env_wf(env: &Vec<SchemaType>) -> (r: bool)
    ensures
        r == env_ok(env@),
{
    let n = env.len();
    let mut i: usize = 0;
    while i < n
        invariant
            i <= n,
            n == env@.len(),
            forall|a: int|
                0 <= a < i ==> !((#[trigger] env@[a]) is Var) && type_shallow_wf(env@[a]),
        decreases n - i,
    {
        match &env[i] {
            SchemaType::Var(_) => {
                return false;
            },
            _ => {},
        }
        if !check_type_wf(&env[i]) {
            return false;
        }
        i = i + 1;
    }
    true
}

/// The schema-aware mutator's context, built once per campaign: whether
/// a method signature was supplied, the type table, the declared
/// argument types and the method's name. The fields are private: the
/// constructor admits only well-formed signatures, so mutation can rely
/// on them.
pub struct CandidParserMutator {
    is_enabled: bool,
    env: Vec<SchemaType>,
    arg_types: Vec<SchemaType>,
    method_name: Option<String>,
}

impl CandidParserMutator {
    /// Whether a signature was supplied.
    pub closed spec fn enabled(self) -> bool {
        self.is_enabled
    }

    /// The type table.
    pub closed spec fn spec_env(self) -> Seq<SchemaType> {
        self.env@
    }

    /// The declared argument types.
    pub closed spec fn spec_arg_types(self) -> Seq<SchemaType> {
        self.arg_types@
    }

    /// The context's invariant, established at construction.
    pub open spec fn wf(self) -> bool {
        &&& env_ok(self.spec_env())
        &&& forall|i: int|
            0 <= i < self.spec_arg_types().len() ==> type_shallow_wf(
                #[trigger] self.spec_arg_types()[i],
            )
    }

    /// Builds the context. A missing signature, or one whose types do
    /// not pass the well-formedness check, leaves the mutator disabled:
    /// it then never mutates in place, only occasionally generates.
    pub fn new(candid_def: Option<MethodSignature>) -> (r: CandidParserMutator)
        ensures
            r.wf(),
            candid_def is None ==> !r.enabled(),
            candid_def matches Option::Some(sig) ==> (r.enabled() <==> env_ok(sig.env@) && (
            forall|i: int|
                0 <= i < sig.arg_types@.len() ==> type_shallow_wf(
                    #[trigger] sig.arg_types@[i],
                ))),
            candid_def matches Option::Some(sig) ==> (r.enabled() ==> r.spec_env() == sig.env@
                && r.spec_arg_types() == sig.arg_types@),
    {
        match candid_def {
            Option::None => CandidParserMutator {
                is_enabled: false,
                env: Vec::new(),
                arg_types: Vec::new(),
                method_name: Option::None,
            },
            Option::Some(sig) => {
                let env_good = check_env_wf(&sig.env);
                let types_good = check_types_wf(&sig.arg_types);
                if env_good && types_good {
                    CandidParserMutator {
                        is_enabled: true,
                        env: sig.env,
                        arg_types: sig.arg_types,
                        method_name: Option::Some(sig.method_name),
                    }
                } else {
                    CandidParserMutator {
                        is_enabled: false,
                        env: Vec::new(),
                        arg_types: Vec::new(),
                        method_name: Option::None,
                    }
                }
            },
        }
    }

    /// The mutator's display name.
    pub fn name(&self) -> (r: &'static str)
        ensures
            r@ == "CandidParserMutator"@,
    {
        "CandidParserMutator"
    }

    /// How many arguments the method signature declares.
    pub fn arg_count(&self) -> (r: usize)
        ensures
            r == self.spec_arg_types().len(),
    {
        self.arg_types.len()
    }

    /// Decides what this invocation does. Without a signature the
    /// mutator generates a fresh tuple one time in twenty and otherwise
    /// leaves the input alone; with a signature it generates one time in
    /// five and otherwise mutates the decoded input.
    pub fn choose_action(&self, rng: &mut rand::rngs::StdRng) -> (r: MutationAction)
        ensures
            !self.enabled() ==> !(r is MutateExisting),
            self.enabled() ==> !(r is Skip),
    {
        if !self.is_enabled {
            if rand_ratio(rng, 1, 20) {
                MutationAction::GenerateFresh
            } else {
                MutationAction::Skip
            }
        } else {
            if rand_ratio(rng, 1, 5) {
                MutationAction::GenerateFresh
            } else {
                MutationAction::MutateExisting
            }
        }
    }

    /// Generates a fresh schema-random argument tuple, or nothing when
    /// some declared type is uninhabited. Whatever comes out inhabits
    /// the signature, argument by argument.
    pub fn generate_args(&self, rng: &mut rand::rngs::StdRng) -> (r: Option<Vec<ArgValue>>)
        requires
            self.wf(),
        ensures
            match r {
                Option::Some(args) => args@.len() == self.spec_arg_types().len() && (forall|i: int|
                    0 <= i < args@.len() ==> val_ok(
                        #[trigger] args@[i],
                        self.spec_arg_types()[i],
                        self.spec_env(),
                    )),
                Option::None => true,
            },
            (forall|i: int|
                0 <= i < self.spec_arg_types().len() ==> generable(
                    #[trigger] self.spec_arg_types()[i],
                    self.spec_env(),
                    20,
                )) ==> r is Some,
    {
        let n = self.arg_types.len();
        let mut out: Vec<ArgValue> = Vec::new();
        let mut i: usize = 0;
        while i < n
            invariant
                self.wf(),
                i <= n,
                n == self.spec_arg_types().len(),
                out@.len() == i,
                forall|t: int|
                    0 <= t < i ==> val_ok(
                        #[trigger] out@[t],
                        self.spec_arg_types()[t],
                        self.spec_env(),
                    ),
            decreases n - i,
        {
            match generate_value(&self.arg_types[i], &self.env, rng, 20) {
                Option::Some(v) => {
                    out.push(v);
                },
                Option::None => {
                    proof {
                        assert(!generable(self.spec_arg_types()[i as int], self.spec_env(), 20));
                    }
                    return Option::None;
                },
            }
            i = i + 1;
        }
        Option::Some(out)
    }

    /// Mutates one uniformly chosen argument of a decoded tuple in
    /// place. A tuple that does not fit the signature's arity is
    /// refused and left untouched; a well-typed tuple stays well typed,
    /// argument by argument.
    pub fn mutate_args(&self, args: &mut Vec<ArgValue>, rng: &mut rand::rngs::StdRng) -> (r:
        MutationResult)
        requires
            self.wf(),
        ensures
            r is Skipped ==> *final(args) == *old(args),
            r is Skipped <==> old(args)@.len() != self.spec_arg_types().len(),
            (forall|i: int|
                0 <= i < old(args)@.len() ==> val_ok(
                    #[trigger] old(args)@[i],
                    self.spec_arg_types()[i],
                    self.spec_env(),
                )) ==> (final(args)@.len() == old(args)@.len() && (forall|i: int|
                0 <= i < final(args)@.len() ==> val_ok(
                    #[trigger] final(args)@[i],
                    self.spec_arg_types()[i],
                    self.spec_env(),
                ))),
            r is Mutated ==> final(args)@.len() == old(args)@.len(),
            r is Mutated && old(args)@.len() == 0 ==> *final(args) == *old(args),
            r is Mutated && old(args)@.len() >= 1 ==> exists|idx: int|
                #[trigger] crate::idl::field_chosen(idx) && 0 <= idx < old(args)@.len() && (
                forall|j: int|
                    0 <= j < old(args)@.len() && j != idx ==> final(args)@[j] == old(
                        args,
                    )@[j]),
    {
        if args.len() != self.arg_types.len() {
            return MutationResult::Skipped;
        }
        if args.len() == 0 {
            return MutationResult::Mutated;
        }
        let ghost a0 = args@;
        let idx = rand_below_usize(rng, args.len());
        let mut v2 = deep_copy(&args[idx]);
        let ghost v2pre = v2;
        proof {
            if forall|i: int|
                0 <= i < a0.len() ==> val_ok(
                    #[trigger] a0[i],
                    self.spec_arg_types()[i],
                    self.spec_env(),
                ) {
                lemma_deep_eq_val_ok(
                    v2pre,
                    a0[idx as int],
                    self.spec_arg_types()[idx as int],
                    self.spec_env(),
                );
            }
        }
        mutate_value(&mut v2, &self.arg_types[idx], &self.env, rng, 0);
        args.set(idx, v2);
        proof {
            assert(crate::idl::field_chosen(idx as int));
        }
        MutationResult::Mutated
    }
}

} // verus!
