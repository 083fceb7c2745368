//! Arbitrary-precision arithmetic for the argument values. The numbers
//! themselves are plain little-endian digit vectors of the model
//! ([`NatDigits`], [`IntDigits`]), with a spec-level valuation; only the
//! arithmetic runs through `num-bigint`, behind wrappers whose contracts
//! speak of the valuation alone.

use vstd::prelude::*;
use num_bigint::Sign;
use num_traits::CheckedSub;
use crate::idl::{digit_weight, int_value, nat_value, nat_value_of, IntDigits, NatDigits};

verus! {

/// Relies on `BigUint::from_slice` (little-endian base-`2^32` digits),
/// `BigUint + BigUint` and `BigUint::to_u32_digits`: the sum, as
/// digits.
#[verifier::external_body]
pub fn big_nat_add(a: &NatDigits, b: &NatDigits) -> (r: NatDigits)
    ensures
        nat_value(r) == nat_value(*a) + nat_value(*b),
{
    let x = num_bigint::BigUint::from_slice(&a.digits) + num_bigint::BigUint::from_slice(
        &b.digits,
    );
    NatDigits { digits: x.to_u32_digits() }
}

/// Relies on `num_traits::CheckedSub` for `BigUint`: the difference
/// when it stays at or above zero, and nothing exactly when it would go
/// below.
#[verifier::external_body]
pub fn big_nat_checked_sub(a: &NatDigits, b: &NatDigits) -> (r: Option<NatDigits>)
    ensures
        r matches Option::Some(d) ==> nat_value(*a) >= nat_value(*b) && nat_value(d)
            == nat_value(*a) - nat_value(*b),
        r is None <==> nat_value(*a) < nat_value(*b),
{
    let x = num_bigint::BigUint::from_slice(&a.digits).checked_sub(
        &num_bigint::BigUint::from_slice(&b.digits),
    );
    match x {
        Option::Some(d) => Option::Some(NatDigits { digits: d.to_u32_digits() }),
        Option::None => Option::None,
    }
}

/// Relies on `BigUint * BigUint`: the product, as digits.
#[verifier::external_body]
pub fn big_nat_mul(a: &NatDigits, b: &NatDigits) -> (r: NatDigits)
    ensures
        nat_value(r) == nat_value(*a) * nat_value(*b),
{
    let x = num_bigint::BigUint::from_slice(&a.digits) * num_bigint::BigUint::from_slice(
        &b.digits,
    );
    NatDigits { digits: x.to_u32_digits() }
}

/// Relies on `BigInt::from_biguint`, `BigInt + BigInt` and
/// `BigInt::to_u32_digits`: the sum, as a sign and digits.
#[verifier::external_body]
pub fn big_int_add(a: &IntDigits, b: &IntDigits) -> (r: IntDigits)
    ensures
        int_value(r) == int_value(*a) + int_value(*b),
{
    let sa = if a.negative { Sign::Minus } else { Sign::Plus };
    let sb = if b.negative { Sign::Minus } else { Sign::Plus };
    let x = num_bigint::BigInt::new(sa, a.digits.clone()) + num_bigint::BigInt::new(
        sb,
        b.digits.clone(),
    );
    let (s, d) = x.to_u32_digits();
    IntDigits { negative: matches!(s, Sign::Minus), digits: d }
}

/// Relies on `BigInt - BigInt`: the difference, as a sign and digits.
#[verifier::external_body]
pub fn big_int_sub(a: &IntDigits, b: &IntDigits) -> (r: IntDigits)
    ensures
        int_value(r) == int_value(*a) - int_value(*b),
{
    let sa = if a.negative { Sign::Minus } else { Sign::Plus };
    let sb = if b.negative { Sign::Minus } else { Sign::Plus };
    let x = num_bigint::BigInt::new(sa, a.digits.clone()) - num_bigint::BigInt::new(
        sb,
        b.digits.clone(),
    );
    let (s, d) = x.to_u32_digits();
    IntDigits { negative: matches!(s, Sign::Minus), digits: d }
}

/// Relies on `BigInt * BigInt`: the product, as a sign and digits.
#[verifier::external_body]
pub fn big_int_mul(a: &IntDigits, b: &IntDigits) -> (r: IntDigits)
    ensures
        int_value(r) == int_value(*a) * int_value(*b),
{
    let sa = if a.negative { Sign::Minus } else { Sign::Plus };
    let sb = if b.negative { Sign::Minus } else { Sign::Plus };
    let x = num_bigint::BigInt::new(sa, a.digits.clone()) * num_bigint::BigInt::new(
        sb,
        b.digits.clone(),
    );
    let (s, d) = x.to_u32_digits();
    IntDigits { negative: matches!(s, Sign::Minus), digits: d }
}

/// The value of a single digit.
proof fn lemma_nat_value_one(d: u32)
    ensures
        nat_value_of(seq![d]) == d,
{
    reveal_with_fuel(nat_value_of, 3);
    reveal_with_fuel(digit_weight, 2);
    assert(seq![d].drop_last() =~= Seq::<u32>::empty());
    assert(seq![d].drop_last() == Seq::<u32>::empty());
}

/// The value of two digits.
proof fn lemma_nat_value_two(d0: u32, d1: u32)
    ensures
        nat_value_of(seq![d0, d1]) == d0 + d1 * 0x100000000,
{
    lemma_nat_value_one(d0);
    reveal_with_fuel(nat_value_of, 2);
    reveal_with_fuel(digit_weight, 3);
    assert(seq![d0, d1].drop_last() =~= seq![d0]);
    assert(seq![d0, d1].drop_last() == seq![d0]);
}

/// The value of three digits.
proof fn lemma_nat_value_three(d0: u32, d1: u32, d2: u32)
    ensures
        nat_value_of(seq![d0, d1, d2]) == d0 + d1 * 0x100000000 + d2 * 0x10000000000000000,
{
    lemma_nat_value_two(d0, d1);
    reveal_with_fuel(nat_value_of, 2);
    reveal_with_fuel(digit_weight, 4);
    assert(seq![d0, d1, d2].drop_last() =~= seq![d0, d1]);
    assert(seq![d0, d1, d2].drop_last() == seq![d0, d1]);
    assert(digit_weight(2) == 0x10000000000000000);
}

/// The natural with no digits denotes zero.
pub fn nat_zero() -> (r: NatDigits)
    ensures
        nat_value(r) == 0,
{
    NatDigits { digits: Vec::new() }
}

/// Builds the digits of a 32-bit value.
pub fn nat_from_u32(v: u32) -> (r: NatDigits)
    ensures
        nat_value(r) == v,
{
    let mut digits: Vec<u32> = Vec::new();
    if v != 0 {
        digits.push(v);
    }
    proof {
        if v != 0 {
            assert(digits@ =~= seq![v]);
            assert(digits@ == seq![v]);
            lemma_nat_value_one(v);
        }
    }
    NatDigits { digits }
}

/// Builds the digits of a 64-bit value.
pub fn nat_from_u64(v: u64) -> (r: NatDigits)
    ensures
        nat_value(r) == v,
{
    let lo = (v & 0xFFFFFFFF) as u32;
    let hi = (v >> 32) as u32;
    proof {
        assert(v == (v & 0xFFFFFFFF) + 0x100000000 * (v >> 32)) by (bit_vector);
        assert((v & 0xFFFFFFFF) <= 0xFFFFFFFF) by (bit_vector);
        assert((v >> 32) <= 0xFFFFFFFF) by (bit_vector);
    }
    let mut digits: Vec<u32> = Vec::new();
    if hi != 0 {
        digits.push(lo);
        digits.push(hi);
        proof {
            assert(digits@ =~= seq![lo, hi]);
            assert(digits@ == seq![lo, hi]);
            lemma_nat_value_two(lo, hi);
        }
    } else if lo != 0 {
        digits.push(lo);
        proof {
            assert(digits@ =~= seq![lo]);
            assert(digits@ == seq![lo]);
            lemma_nat_value_one(lo);
        }
    } else {
        proof {
            assert(v == 0);
        }
    }
    NatDigits { digits }
}

/// Builds the digits of a 128-bit value.
pub fn nat_from_u128(v: u128) -> (r: NatDigits)
    ensures
        nat_value(r) == v,
{
    let lo = (v & 0xFFFFFFFFFFFFFFFF) as u64;
    let hi = (v >> 64) as u64;
    proof {
        assert(v == (v & 0xFFFFFFFFFFFFFFFF) + 0x10000000000000000 * (v >> 64)) by (bit_vector);
        assert((v & 0xFFFFFFFFFFFFFFFF) <= 0xFFFFFFFFFFFFFFFF) by (bit_vector);
        assert((v >> 64) <= 0xFFFFFFFFFFFFFFFF) by (bit_vector);
    }
    let low = nat_from_u64(lo);
    if hi == 0 {
        return low;
    }
    let high = nat_from_u64(hi);
    let scaled = big_nat_mul(&high, &nat_two_pow_64());
    big_nat_add(&scaled, &low)
}

/// The digits of `2^64`.
fn nat_two_pow_64() -> (r: NatDigits)
    ensures
        nat_value(r) == 0x10000000000000000,
{
    let mut digits: Vec<u32> = Vec::new();
    digits.push(0);
    digits.push(0);
    digits.push(1);
    proof {
        assert(digits@ =~= seq![0u32, 0u32, 1u32]);
        assert(digits@ == seq![0u32, 0u32, 1u32]);
        lemma_nat_value_three(0, 0, 1);
    }
    NatDigits { digits }
}

/// Builds the sign and digits of a 64-bit signed value.
pub fn int_from_i64(v: i64) -> (r: IntDigits)
    ensures
        int_value(r) == v,
{
    if v >= 0 {
        let m = nat_from_u64(v as u64);
        IntDigits { negative: false, digits: m.digits }
    } else {
        let magnitude = ((-(v as i128)) as u128) as u64;
        let m = nat_from_u64(magnitude);
        IntDigits { negative: true, digits: m.digits }
    }
}

/// Builds the sign and digits of a 128-bit signed value.
pub fn int_from_i128(v: i128) -> (r: IntDigits)
    ensures
        int_value(r) == v,
{
    if v >= 0 {
        let m = nat_from_u128(v as u128);
        IntDigits { negative: false, digits: m.digits }
    } else if v == i128::MIN {
        let m = nat_from_u128(0x80000000000000000000000000000000);
        IntDigits { negative: true, digits: m.digits }
    } else {
        let m = nat_from_u128((-v) as u128);
        IntDigits { negative: true, digits: m.digits }
    }
}

} // verus!
