//! The schema-aware mutator, rule by rule, under a fixed seed.

use canfuzz::idl::{ArgValue, FieldLabel, FieldType, FieldValue, IntDigits, NatDigits, SchemaType};
use canfuzz::mutator::{
    mutate_blob, mutate_float64_bits, mutate_int, mutate_i16, mutate_i32, mutate_i64, mutate_i8,
    mutate_nat, mutate_opt, mutate_principal, mutate_text, mutate_u16, mutate_u32, mutate_u64,
    mutate_u8, mutate_value, mutate_vec,
};
use rand::SeedableRng;

const STATIC_SEED: u64 = 7355608;

fn rng() -> rand::rngs::StdRng {
    rand::rngs::StdRng::seed_from_u64(STATIC_SEED)
}

#[test]
fn test_mutate_text() {
    let mut rng = rng();
    let mut s = b"hello".to_vec();
    mutate_text(&mut s, &mut rng);
    assert_eq!(
        s,
        b"h\"`'><script>\\xE3\\x80\\x80javascript:alert(1)</script>ello".to_vec()
    );
}

#[test]
fn test_mutate_int() {
    let mut rng = rng();
    let mut i = IntDigits { negative: false, digits: vec![100] };
    mutate_int(&mut i, &mut rng);
    assert_eq!(i, IntDigits { negative: false, digits: vec![] });
}

#[test]
fn test_mutate_nat() {
    let mut rng = rng();
    let mut n = NatDigits { digits: vec![100] };
    mutate_nat(&mut n, &mut rng);
    assert_eq!(n, NatDigits { digits: vec![u32::MAX, u32::MAX] });
}

#[test]
fn test_mutate_float() {
    let mut rng = rng();
    let f: f64 = 123.456;
    let mutated_bits = mutate_float64_bits(f.to_bits(), &mut rng);
    assert_eq!(f64::from_bits(mutated_bits), f64::INFINITY);
}

#[test]
fn test_mutate_primitive() {
    let val_i8: i8 = 10;
    assert_eq!(mutate_i8(val_i8, &mut rng()), 36, "failed for type i8");
    let val_i16: i16 = 10;
    assert_eq!(mutate_i16(val_i16, &mut rng()), -26844, "failed for type i16");
    let val_i32: i32 = 10;
    assert_eq!(mutate_i32(val_i32, &mut rng()), 541693732, "failed for type i32");
    let val_i64: i64 = 10;
    assert_eq!(
        mutate_i64(val_i64, &mut rng()),
        -1227287045443950644_i64,
        "failed for type i64"
    );
    let val_u8: u8 = 10;
    assert_eq!(mutate_u8(val_u8, &mut rng()), 36, "failed for type u8");
    let val_u16: u16 = 10;
    assert_eq!(mutate_u16(val_u16, &mut rng()), 38692, "failed for type u16");
    let val_u32: u32 = 10;
    assert_eq!(mutate_u32(val_u32, &mut rng()), 541693732_u32, "failed for type u32");
    let val_u64: u64 = 10;
    assert_eq!(
        mutate_u64(val_u64, &mut rng()),
        17219457028265600972u64,
        "failed for type u64"
    );
}

#[test]
fn test_mutate_principal() {
    let mut rng = rng();
    let mut p = vec![4u8];
    mutate_principal(&mut p, &mut rng);
    let expected = vec![197u8, 8, 228, 253, 44, 55, 230, 45, 210, 76, 14, 52];
    assert_eq!(p, expected);
}

#[test]
fn test_mutate_blob() {
    let mut rng = rng();
    let mut b = vec![1u8, 2, 3, 4, 5];
    mutate_blob(&mut b, &mut rng);
    assert_eq!(b, Vec::<u8>::new());
}

#[test]
fn test_mutate_vec() {
    let mut rng = rng();
    let mut v = vec![ArgValue::Nat8(10), ArgValue::Nat8(20)];
    let item_ty = SchemaType::Nat8;
    let env: Vec<SchemaType> = Vec::new();
    mutate_vec(&mut v, &item_ty, &env, &mut rng, 0);
    assert_eq!(v, vec![ArgValue::Nat8(20)]);
}

#[test]
fn test_mutate_opt() {
    let mut rng = rng();
    let mut opt_val = Box::new(ArgValue::Nat8(10));
    let ty = SchemaType::Opt(Box::new(SchemaType::Nat8));
    let env: Vec<SchemaType> = Vec::new();
    mutate_opt(&mut opt_val, &ty, &env, &mut rng, 0);
    assert_eq!(*opt_val, ArgValue::Nat8(36));
}

#[test]
fn test_mutate_record() {
    let mut rng = rng();
    let mut val = ArgValue::Record(vec![
        FieldValue { label: FieldLabel::Named(b"a".to_vec()), value: ArgValue::Nat8(10) },
        FieldValue { label: FieldLabel::Named(b"b".to_vec()), value: ArgValue::Bool(true) },
    ]);
    let ty = SchemaType::Record(vec![
        FieldType { label: FieldLabel::Named(b"a".to_vec()), ty: SchemaType::Nat8 },
        FieldType { label: FieldLabel::Named(b"b".to_vec()), ty: SchemaType::Bool },
    ]);
    let env: Vec<SchemaType> = Vec::new();

    mutate_value(&mut val, &ty, &env, &mut rng, 0);

    let expected = ArgValue::Record(vec![
        FieldValue { label: FieldLabel::Named(b"a".to_vec()), value: ArgValue::Nat8(238) },
        FieldValue { label: FieldLabel::Named(b"b".to_vec()), value: ArgValue::Bool(true) },
    ]);
    assert_eq!(val, expected);
}

#[test]
fn test_mutate_variant_value() {
    let mut rng = rng();
    let mut val = ArgValue::Variant(
        Box::new(FieldValue { label: FieldLabel::Named(b"A".to_vec()), value: ArgValue::Nat8(10) }),
        0,
    );
    let ty = SchemaType::Variant(vec![
        FieldType { label: FieldLabel::Named(b"A".to_vec()), ty: SchemaType::Nat8 },
        FieldType { label: FieldLabel::Named(b"B".to_vec()), ty: SchemaType::Bool },
    ]);
    let env: Vec<SchemaType> = Vec::new();

    mutate_value(&mut val, &ty, &env, &mut rng, 0);

    let expected = ArgValue::Variant(
        Box::new(FieldValue {
            label: FieldLabel::Named(b"A".to_vec()),
            value: ArgValue::Nat8(207),
        }),
        0,
    );
    assert_eq!(val, expected);
}
