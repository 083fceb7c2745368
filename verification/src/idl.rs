//! The model of the platform's typed argument encoding: a tree of typed
//! values, the declared types with their environment, the field-label
//! hash, and the relation that says when a value inhabits a type. Text
//! is held as raw bytes: mutation may leave the well-formed encodings,
//! and the decoder is expected to tolerate that.

use vstd::prelude::*;

verus! {

/// A record or variant field's label: a numeric id, a name (hashed into
/// an id on the wire), or a tuple position.
#[derive(Debug, PartialEq, Eq)]
pub enum FieldLabel {
    Id(u32),
    Named(Vec<u8>),
    Unnamed(u32),
}

/// The label hash: a name folds bytewise as `h * 223 + byte` modulo
/// `2^32`; numeric and positional labels are their own id.
pub open spec fn hash_bytes(b: Seq<u8>) -> u32
    decreases b.len(),
{
    if b.len() == 0 {
        0
    } else {
        (((hash_bytes(b.drop_last()) * 223) + b.last()) % 0x100000000) as u32
    }
}

/// The id a label carries on the wire.
pub open spec fn label_id_spec(l: FieldLabel) -> u32 {
    match l {
        FieldLabel::Id(n) => n,
        FieldLabel::Named(ref b) => hash_bytes(b@),
        FieldLabel::Unnamed(n) => n,
    }
}

/// Computes the label hash of a name.
pub fn hash_name(b: &Vec<u8>) -> (r: u32)
    ensures
        r == hash_bytes(b@),
{
    let mut s: u32 = 0;
    let mut i: usize = 0;
    while i < b.len()
        invariant
            i <= b@.len(),
            s == hash_bytes(b@.subrange(0, i as int)),
        decreases b@.len() - i,
    {
        proof {
            assert(b@.subrange(0, i + 1).drop_last() =~= b@.subrange(0, i as int));
            assert(b@.subrange(0, i + 1).drop_last() == b@.subrange(0, i as int));
            assert(b@.subrange(0, i + 1).last() == b@[i as int]);
        }
        s = (((s as u64) * 223 + (b[i] as u64)) % 0x100000000) as u32;
        i = i + 1;
    }
    proof {
        assert(b@.subrange(0, b@.len() as int) =~= b@);
        assert(b@.subrange(0, b@.len() as int) == b@);
    }
    s
}

/// The id a label carries on the wire.
pub fn label_id(l: &FieldLabel) -> (r: u32)
    ensures
        r == label_id_spec(*l),
{
    match l {
        FieldLabel::Id(n) => *n,
        FieldLabel::Named(b) => hash_name(b),
        FieldLabel::Unnamed(n) => *n,
    }
}

impl Clone for FieldLabel {
    /// A clone is equal to the original up to its wire id and bytes.
    fn clone(&self) -> (r: Self)
        ensures
            label_eq(r, *self),
    {
        match self {
            FieldLabel::Id(n) => FieldLabel::Id(*n),
            FieldLabel::Named(b) => {
                let mut out: Vec<u8> = Vec::new();
                let mut i: usize = 0;
                while i < b.len()
                    invariant
                        i <= b@.len(),
                        out@ =~= b@.subrange(0, i as int),
                    decreases b@.len() - i,
                {
                    out.push(b[i]);
                    i = i + 1;
                }
                proof {
                    assert(out@ =~= b@);
                }
                FieldLabel::Named(out)
            },
            FieldLabel::Unnamed(n) => FieldLabel::Unnamed(*n),
        }
    }
}

/// Label equality up to content: same shape and same bytes or id.
pub open spec fn label_eq(a: FieldLabel, b: FieldLabel) -> bool {
    match (a, b) {
        (FieldLabel::Id(x), FieldLabel::Id(y)) => x == y,
        (FieldLabel::Named(ref x), FieldLabel::Named(ref y)) => x@ == y@,
        (FieldLabel::Unnamed(x), FieldLabel::Unnamed(y)) => x == y,
        _ => false,
    }
}

/// A record field or variant alternative of a declared type.
#[derive(Debug)]
pub struct FieldType {
    pub label: FieldLabel,
    pub ty: SchemaType,
}

/// A declared argument type. `Var` points into the type table;
/// `Unsupported` stands for the type forms the mutator does not inspect,
/// which it leaves alone.
#[derive(Debug)]
pub enum SchemaType {
    Bool,
    Null,
    Reserved,
    Empty,
    Text,
    Int,
    Nat,
    Int8,
    Int16,
    Int32,
    Int64,
    Nat8,
    Nat16,
    Nat32,
    Nat64,
    Float32,
    Float64,
    Principal,
    Opt(Box<SchemaType>),
    VecOf(Box<SchemaType>),
    Record(Vec<FieldType>),
    Variant(Vec<FieldType>),
    Var(usize),
    Service,
    Func,
    Unsupported,
}

/// An arbitrary-precision natural: little-endian digits in base `2^32`.
#[derive(Debug, PartialEq, Eq)]
pub struct NatDigits {
    pub digits: Vec<u32>,
}

/// An arbitrary-precision integer: a sign and the magnitude's
/// little-endian digits in base `2^32`. Zero carries a clear sign.
#[derive(Debug, PartialEq, Eq)]
pub struct IntDigits {
    pub negative: bool,
    pub digits: Vec<u32>,
}

/// The place value of the `n`-th base-`2^32` digit.
pub open spec fn digit_weight(n: nat) -> nat
    decreases n,
{
    if n == 0 {
        1
    } else {
        0x100000000 * digit_weight((n - 1) as nat)
    }
}

/// The number a little-endian digit sequence denotes.
pub open spec fn nat_value_of(d: Seq<u32>) -> nat
    decreases d.len(),
{
    if d.len() == 0 {
        0
    } else {
        (nat_value_of(d.drop_last()) + d.last() * digit_weight((d.len() - 1) as nat)) as nat
    }
}

/// The number an arbitrary-precision natural denotes.
pub open spec fn nat_value(n: NatDigits) -> nat {
    nat_value_of(n.digits@)
}

/// The number an arbitrary-precision integer denotes.
pub open spec fn int_value(i: IntDigits) -> int {
    if i.negative {
        -(nat_value_of(i.digits@) as int)
    } else {
        nat_value_of(i.digits@) as int
    }
}

/// A record field or variant payload of a value.
#[derive(Debug, PartialEq, Eq)]
pub struct FieldValue {
    pub label: FieldLabel,
    pub value: ArgValue,
}

/// A decoded argument value.
#[derive(Debug, PartialEq, Eq)]
pub enum ArgValue {
    Bool(bool),
    Null,
    NoneValue,
    Reserved,
    Text(Vec<u8>),
    Number(Vec<u8>),
    Int(IntDigits),
    Int8(i8),
    Int16(i16),
    Int32(i32),
    Int64(i64),
    Nat(NatDigits),
    Nat8(u8),
    Nat16(u16),
    Nat32(u32),
    Nat64(u64),
    Float32Bits(u32),
    Float64Bits(u64),
    Opt(Box<ArgValue>),
    VecValue(Vec<ArgValue>),
    Record(Vec<FieldValue>),
    Variant(Box<FieldValue>, u64),
    Principal(Vec<u8>),
    Blob(Vec<u8>),
    Service(Vec<u8>),
    Func(Vec<u8>, Vec<u8>),
}

/// The longest principal, in bytes.
pub const PRINCIPAL_MAX_LEN: usize = 29;

/// Follows `Var` references through the type table, giving up after
/// `fuel` steps; a cycle of bare references resolves to nothing.
pub open spec fn resolve_type(t: SchemaType, env: Seq<SchemaType>, fuel: nat) -> Option<SchemaType>
    decreases fuel,
{
    if fuel == 0 {
        Option::None
    } else {
        match t {
            SchemaType::Var(i) => if i < env.len() {
                resolve_type(env[i as int], env, (fuel - 1) as nat)
            } else {
                Option::None
            },
            _ => Option::Some(t),
        }
    }
}

/// Does the value inhabit the declared type, under the type table? The
/// reserved type accepts anything; `Unsupported` stands for type forms
/// the model does not inspect and also accepts anything.
pub open spec fn val_ok(v: ArgValue, t: SchemaType, env: Seq<SchemaType>) -> bool
    decreases v,
{
    match resolve_type(t, env, (env.len() + 1) as nat) {
        Option::None => false,
        Option::Some(rt) => {
            ||| rt is Reserved
            ||| rt is Unsupported
            ||| match v {
                ArgValue::Bool(_) => rt is Bool,
                ArgValue::Null => rt is Null || rt is Opt,
                ArgValue::NoneValue => rt is Opt,
                ArgValue::Reserved => false,
                ArgValue::Text(_) => rt is Text,
                ArgValue::Number(_) => rt is Int || rt is Nat,
                ArgValue::Int(_) => rt is Int,
                ArgValue::Int8(_) => rt is Int8,
                ArgValue::Int16(_) => rt is Int16,
                ArgValue::Int32(_) => rt is Int32,
                ArgValue::Int64(_) => rt is Int64,
                ArgValue::Nat(_) => rt is Nat || rt is Int,
                ArgValue::Nat8(_) => rt is Nat8,
                ArgValue::Nat16(_) => rt is Nat16,
                ArgValue::Nat32(_) => rt is Nat32,
                ArgValue::Nat64(_) => rt is Nat64,
                ArgValue::Float32Bits(_) => rt is Float32,
                ArgValue::Float64Bits(_) => rt is Float64,
                ArgValue::Opt(inner) => rt matches SchemaType::Opt(it) && val_ok(*inner, *it, env),
                ArgValue::VecValue(items) => rt matches SchemaType::VecOf(it) && (forall|i: int|
                    0 <= i < items@.len() ==> val_ok(#[trigger] items@[i], *it, env)),
                ArgValue::Record(fields) => rt matches SchemaType::Record(fts) && {
                    &&& fields@.len() == fts@.len()
                    &&& forall|i: int|
                        0 <= i < fields@.len() ==> {
                            &&& label_id_spec((#[trigger] fields@[i]).label) == label_id_spec(
                                fts@[i].label,
                            )
                            &&& val_ok(fields@[i].value, fts@[i].ty, env)
                        }
                },
                ArgValue::Variant(fv, tag) => rt matches SchemaType::Variant(fts) && {
                    &&& tag < fts@.len()
                    &&& label_id_spec(fv.label) == label_id_spec(fts@[tag as int].label)
                    &&& val_ok(fv.value, fts@[tag as int].ty, env)
                },
                ArgValue::Principal(b) => rt is Principal && b@.len() <= PRINCIPAL_MAX_LEN,
                ArgValue::Blob(_) => rt matches SchemaType::VecOf(it) && resolve_type(
                    *it,
                    env,
                    (env.len() + 1) as nat,
                ) matches Option::Some(SchemaType::Nat8),
                ArgValue::Service(_) => rt is Service,
                ArgValue::Func(_, _) => rt is Func,
            }
        },
    }
}

/// Structural equality of values: the same shape with the same content,
/// byte for byte and number for number.
pub open spec fn deep_eq(a: ArgValue, b: ArgValue) -> bool
    decreases a,
{
    match (a, b) {
        (ArgValue::Bool(x), ArgValue::Bool(y)) => x == y,
        (ArgValue::Null, ArgValue::Null) => true,
        (ArgValue::NoneValue, ArgValue::NoneValue) => true,
        (ArgValue::Reserved, ArgValue::Reserved) => true,
        (ArgValue::Text(ref x), ArgValue::Text(ref y)) => x@ == y@,
        (ArgValue::Number(ref x), ArgValue::Number(ref y)) => x@ == y@,
        (ArgValue::Int(x), ArgValue::Int(y)) => int_value(x) == int_value(y),
        (ArgValue::Int8(x), ArgValue::Int8(y)) => x == y,
        (ArgValue::Int16(x), ArgValue::Int16(y)) => x == y,
        (ArgValue::Int32(x), ArgValue::Int32(y)) => x == y,
        (ArgValue::Int64(x), ArgValue::Int64(y)) => x == y,
        (ArgValue::Nat(x), ArgValue::Nat(y)) => nat_value(x) == nat_value(y),
        (ArgValue::Nat8(x), ArgValue::Nat8(y)) => x == y,
        (ArgValue::Nat16(x), ArgValue::Nat16(y)) => x == y,
        (ArgValue::Nat32(x), ArgValue::Nat32(y)) => x == y,
        (ArgValue::Nat64(x), ArgValue::Nat64(y)) => x == y,
        (ArgValue::Float32Bits(x), ArgValue::Float32Bits(y)) => x == y,
        (ArgValue::Float64Bits(x), ArgValue::Float64Bits(y)) => x == y,
        (ArgValue::Opt(x), ArgValue::Opt(y)) => deep_eq(*x, *y),
        (ArgValue::VecValue(ref x), ArgValue::VecValue(ref y)) => x@.len() == y@.len()
            && (forall|i: int|
            0 <= i < x@.len() ==> deep_eq(#[trigger] x@[i], y@[i])),
        (ArgValue::Record(ref x), ArgValue::Record(ref y)) => x@.len() == y@.len() && (forall|
            i: int,
        |
            0 <= i < x@.len() ==> label_eq((#[trigger] x@[i]).label, y@[i].label) && deep_eq(
                x@[i].value,
                y@[i].value,
            )),
        (ArgValue::Variant(x, xt), ArgValue::Variant(y, yt)) => xt == yt && label_eq(
            x.label,
            y.label,
        ) && deep_eq(x.value, y.value),
        (ArgValue::Principal(ref x), ArgValue::Principal(ref y)) => x@ == y@,
        (ArgValue::Blob(ref x), ArgValue::Blob(ref y)) => x@ == y@,
        (ArgValue::Service(ref x), ArgValue::Service(ref y)) => x@ == y@,
        (ArgValue::Func(ref x, ref xm), ArgValue::Func(ref y, ref ym)) => x@ == y@ && xm@ == ym@,
        _ => false,
    }
}

/// Structurally equal values inhabit the same types.
pub proof fn lemma_deep_eq_val_ok(a: ArgValue, b: ArgValue, t: SchemaType, env: Seq<SchemaType>)
    requires
        deep_eq(a, b),
        val_ok(b, t, env),
    ensures
        val_ok(a, t, env),
    decreases a,
{
    let rt = resolve_type(t, env, (env.len() + 1) as nat);
    match rt {
        Option::None => {},
        Option::Some(rt) => {
            if rt is Reserved || rt is Unsupported {
            } else {
                match a {
                    ArgValue::Opt(inner) => {
                        if let ArgValue::Opt(binner) = b {
                            if let SchemaType::Opt(it) = rt {
                                lemma_deep_eq_val_ok(*inner, *binner, *it, env);
                            }
                        }
                    },
                    ArgValue::VecValue(items) => {
                        if let ArgValue::VecValue(bitems) = b {
                            if let SchemaType::VecOf(it) = rt {
                                assert forall|i: int| 0 <= i < items@.len() implies val_ok(
                                    #[trigger] items@[i],
                                    *it,
                                    env,
                                ) by {
                                    lemma_deep_eq_val_ok(items@[i], bitems@[i], *it, env);
                                }
                            }
                        }
                    },
                    ArgValue::Record(fields) => {
                        if let ArgValue::Record(bfields) = b {
                            if let SchemaType::Record(fts) = rt {
                                assert forall|i: int| 0 <= i < fields@.len() implies {
                                    &&& label_id_spec((#[trigger] fields@[i]).label)
                                        == label_id_spec(fts@[i].label)
                                    &&& val_ok(fields@[i].value, fts@[i].ty, env)
                                } by {
                                    lemma_label_eq_id(fields@[i].label, bfields@[i].label);
                                    lemma_deep_eq_val_ok(
                                        fields@[i].value,
                                        bfields@[i].value,
                                        fts@[i].ty,
                                        env,
                                    );
                                }
                            }
                        }
                    },
                    ArgValue::Variant(fv, tag) => {
                        if let ArgValue::Variant(bfv, btag) = b {
                            if let SchemaType::Variant(fts) = rt {
                                lemma_label_eq_id(fv.label, bfv.label);
                                lemma_deep_eq_val_ok(
                                    fv.value,
                                    bfv.value,
                                    fts@[tag as int].ty,
                                    env,
                                );
                            }
                        }
                    },
                    _ => {},
                }
            }
        },
    }
}

/// Labels with equal content carry the same wire id.
pub proof fn lemma_label_eq_id(a: FieldLabel, b: FieldLabel)
    requires
        label_eq(a, b),
    ensures
        label_id_spec(a) == label_id_spec(b),
{
}

/// Do the two values carry the same value constructor? Every mutation
/// rule keeps the constructor.
pub open spec fn same_kind(a: ArgValue, b: ArgValue) -> bool {
    match a {
        ArgValue::Bool(_) => b is Bool,
        ArgValue::Null => b is Null,
        ArgValue::NoneValue => b is NoneValue,
        ArgValue::Reserved => b is Reserved,
        ArgValue::Text(_) => b is Text,
        ArgValue::Number(_) => b is Number,
        ArgValue::Int(_) => b is Int,
        ArgValue::Int8(_) => b is Int8,
        ArgValue::Int16(_) => b is Int16,
        ArgValue::Int32(_) => b is Int32,
        ArgValue::Int64(_) => b is Int64,
        ArgValue::Nat(_) => b is Nat,
        ArgValue::Nat8(_) => b is Nat8,
        ArgValue::Nat16(_) => b is Nat16,
        ArgValue::Nat32(_) => b is Nat32,
        ArgValue::Nat64(_) => b is Nat64,
        ArgValue::Float32Bits(_) => b is Float32Bits,
        ArgValue::Float64Bits(_) => b is Float64Bits,
        ArgValue::Opt(_) => b is Opt,
        ArgValue::VecValue(_) => b is VecValue,
        ArgValue::Record(_) => b is Record,
        ArgValue::Variant(_, _) => b is Variant,
        ArgValue::Principal(_) => b is Principal,
        ArgValue::Blob(_) => b is Blob,
        ArgValue::Service(_) => b is Service,
        ArgValue::Func(_, _) => b is Func,
    }
}

/// Marks the field position a mutation chose; a trigger anchor for the
/// shape statement below.
pub open spec fn field_chosen(idx: int) -> bool {
    true
}

/// What record mutation keeps, on every draw: the length, every label,
/// and every field value but at most one.
pub open spec fn record_shape_kept(f0: Seq<FieldValue>, f1: Seq<FieldValue>) -> bool {
    &&& f1.len() == f0.len()
    &&& forall|j: int| 0 <= j < f0.len() ==> label_eq((#[trigger] f1[j]).label, f0[j].label)
    &&& (f0.len() == 0 || exists|idx: int|
        #[trigger] field_chosen(idx) && 0 <= idx < f0.len() && (forall|j: int|
            0 <= j < f0.len() && j != idx ==> deep_eq((#[trigger] f1[j]).value, f0[j].value)))
}

/// Label content equality is reflexive.
pub proof fn lemma_label_eq_refl(l: FieldLabel)
    ensures
        label_eq(l, l),
{
}

/// Structural equality is reflexive.
pub proof fn lemma_deep_eq_refl(v: ArgValue)
    ensures
        deep_eq(v, v),
    decreases v,
{
    match v {
        ArgValue::Opt(inner) => {
            lemma_deep_eq_refl(*inner);
        },
        ArgValue::VecValue(items) => {
            assert forall|i: int| 0 <= i < items@.len() implies deep_eq(
                #[trigger] items@[i],
                items@[i],
            ) by {
                lemma_deep_eq_refl(items@[i]);
            }
        },
        ArgValue::Record(fields) => {
            assert forall|i: int| 0 <= i < fields@.len() implies label_eq(
                (#[trigger] fields@[i]).label,
                fields@[i].label,
            ) && deep_eq(fields@[i].value, fields@[i].value) by {
                lemma_label_eq_refl(fields@[i].label);
                lemma_deep_eq_refl(fields@[i].value);
            }
        },
        ArgValue::Variant(fv, _) => {
            lemma_label_eq_refl(fv.label);
            lemma_deep_eq_refl(fv.value);
        },
        _ => {},
    }
}

/// An unchanged record keeps its shape.
pub proof fn lemma_record_shape_refl(f: Seq<FieldValue>)
    ensures
        record_shape_kept(f, f),
{
    assert forall|j: int| 0 <= j < f.len() implies label_eq(
        (#[trigger] f[j]).label,
        f[j].label,
    ) by {
        lemma_label_eq_refl(f[j].label);
    }
    if f.len() > 0 {
        assert forall|j: int| 0 <= j < f.len() && j != 0 implies deep_eq(
            (#[trigger] f[j]).value,
            f[j].value,
        ) by {
            lemma_deep_eq_refl(f[j].value);
        }
        assert(field_chosen(0) && 0 <= 0 < f.len() && (forall|j: int|
            0 <= j < f.len() && j != 0 ==> deep_eq((#[trigger] f[j]).value, f[j].value)));
    }
}

} // verus!
