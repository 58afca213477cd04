//! The floating-point numeric kind.  A floating-point value is carried as
//! the bit pattern of a 64-bit IEEE-754 number; the arithmetic on such bit
//! patterns is software floating point from an outside crate, reached
//! through trusted wrappers whose results are named, uninterpreted functions
//! of the operand bits.

use vstd::prelude::*;
use crate::object::{BoundOp, ObjView, Object, OpKind, Payload};

verus! {

/// The bit pattern of the IEEE-754 double -1.0, used to negate a
/// floating-point literal under a pending sign.
pub const NEG_ONE_BITS: u64 = 0xBFF0_0000_0000_0000;

/// The bits of the IEEE-754 double sum of the doubles with bits `a` and `b`,
/// rounded to nearest, ties to even.
pub uninterp spec fn f64_add_bits(a: u64, b: u64) -> u64;

/// The bits of the IEEE-754 double difference of the doubles with bits `a`
/// and `b`, rounded to nearest, ties to even.
pub uninterp spec fn f64_sub_bits(a: u64, b: u64) -> u64;

/// The bits of the IEEE-754 double product of the doubles with bits `a` and
/// `b`, rounded to nearest, ties to even.
pub uninterp spec fn f64_mul_bits(a: u64, b: u64) -> u64;

/// The bits of the IEEE-754 double nearest to the integer `v`.
pub uninterp spec fn f64_of_int_bits(v: i64) -> u64;

/// The bits of the IEEE-754 double denoted by a decimal literal, rounded to
/// nearest, or zero when the text is no such literal.
pub uninterp spec fn f64_of_dec_bits(t: Seq<char>) -> u64;

/// Relies on `rustc_apfloat::ieee::Double::add_r`: IEEE-754 double addition
/// on bit patterns, rounding to nearest even; the result depends on the
/// operand bits alone.
#[verifier::external_body]
pub fn f64_add(a: u64, b: u64) -> (r: u64)
    ensures
        r == f64_add_bits(a, b),
{
    let x = <rustc_apfloat::ieee::Double as rustc_apfloat::Float>::from_bits(a as u128);
    let y = <rustc_apfloat::ieee::Double as rustc_apfloat::Float>::from_bits(b as u128);
    let s = <rustc_apfloat::ieee::Double as rustc_apfloat::Float>::add_r(x, y, rustc_apfloat::Round::NearestTiesToEven);
    <rustc_apfloat::ieee::Double as rustc_apfloat::Float>::to_bits(s.value) as u64
}

/// Relies on `rustc_apfloat::ieee::Double::sub_r`: IEEE-754 double
/// subtraction on bit patterns, rounding to nearest even; the result depends
/// on the operand bits alone.
#[verifier::external_body]
pub fn f64_sub(a: u64, b: u64) -> (r: u64)
    ensures
        r == f64_sub_bits(a, b),
{
    let x = <rustc_apfloat::ieee::Double as rustc_apfloat::Float>::from_bits(a as u128);
    let y = <rustc_apfloat::ieee::Double as rustc_apfloat::Float>::from_bits(b as u128);
    let s = <rustc_apfloat::ieee::Double as rustc_apfloat::Float>::sub_r(x, y, rustc_apfloat::Round::NearestTiesToEven);
    <rustc_apfloat::ieee::Double as rustc_apfloat::Float>::to_bits(s.value) as u64
}

/// Relies on `rustc_apfloat::ieee::Double::mul_r`: IEEE-754 double
/// multiplication on bit patterns, rounding to nearest even; the result
/// depends on the operand bits alone.
#[verifier::external_body]
pub fn f64_mul(a: u64, b: u64) -> (r: u64)
    ensures
        r == f64_mul_bits(a, b),
{
    let x = <rustc_apfloat::ieee::Double as rustc_apfloat::Float>::from_bits(a as u128);
    let y = <rustc_apfloat::ieee::Double as rustc_apfloat::Float>::from_bits(b as u128);
    let s = <rustc_apfloat::ieee::Double as rustc_apfloat::Float>::mul_r(x, y, rustc_apfloat::Round::NearestTiesToEven);
    <rustc_apfloat::ieee::Double as rustc_apfloat::Float>::to_bits(s.value) as u64
}

/// Relies on `rustc_apfloat::ieee::Double::from_i128`: conversion of an
/// integer to the nearest IEEE-754 double; the result depends on the integer
/// alone.
#[verifier::external_body]
pub fn f64_of_int(v: i64) -> (r: u64)
    ensures
        r == f64_of_int_bits(v),
{
    let s = <rustc_apfloat::ieee::Double as rustc_apfloat::Float>::from_i128(v as i128);
    <rustc_apfloat::ieee::Double as rustc_apfloat::Float>::to_bits(s.value) as u64
}

/// Relies on `rustc_apfloat::ieee::Double`'s `FromStr`: correctly rounded
/// decimal-to-double conversion; the result depends on the text alone, and
/// text that is no decimal literal yields the zero pattern.
#[verifier::external_body]
pub fn f64_of_dec(t: &str) -> (r: u64)
    ensures
        r == f64_of_dec_bits(t@),
{
    match t.parse::<rustc_apfloat::ieee::Double>() {
        Ok(d) => <rustc_apfloat::ieee::Double as rustc_apfloat::Float>::to_bits(d) as u64,
        Err(_) => 0,
    }
}

/// The model of the `Object` a floating-point kind constructs: a "float"
/// class tag, the payload bits, and the three arithmetic operations each
/// bound to this value as their left operand.
pub open spec fn float_obj(bits: u64) -> ObjView {
    ObjView {
        class: "float"@,
        self_value: Some(Payload::FloatBits(bits)),
        props: seq![
            ("add"@, BoundOp { op: OpKind::Add, left: Payload::FloatBits(bits) }),
            ("sub"@, BoundOp { op: OpKind::Sub, left: Payload::FloatBits(bits) }),
            ("mul"@, BoundOp { op: OpKind::Mul, left: Payload::FloatBits(bits) }),
        ],
    }
}

pub struct Float {
    pub obj: Object,
}

impl Float {
    /// Construct the floating-point kind over the double with bit pattern
    /// `bits` and register its `add`, `sub` and `mul` operations.
    pub fn new(bits: u64) -> (f: Float)
        ensures
            f.obj@ == float_obj(bits),
    {
        let mut obj = Object::new(Some(Payload::FloatBits(bits)), "float".to_owned());
        obj.set("add".to_owned(), BoundOp { op: OpKind::Add, left: Payload::FloatBits(bits) });
        obj.set("sub".to_owned(), BoundOp { op: OpKind::Sub, left: Payload::FloatBits(bits) });
        obj.set("mul".to_owned(), BoundOp { op: OpKind::Mul, left: Payload::FloatBits(bits) });
        proof {
            reveal_strlit("add");
            reveal_strlit("sub");
            reveal_strlit("mul");
            assert("add"@ != "sub"@) by {
                assert("add"@[0] == 'a' && "sub"@[0] == 's');
            }
            assert("add"@ != "mul"@) by {
                assert("add"@[0] == 'a' && "mul"@[0] == 'm');
            }
            assert("sub"@ != "mul"@) by {
                assert("sub"@[0] == 's' && "mul"@[0] == 'm');
            }
            let bo = |k: OpKind| BoundOp { op: k, left: Payload::FloatBits(bits) };
            let p1 = seq![("add"@, bo(OpKind::Add))];
            let p2 = p1.push(("sub"@, bo(OpKind::Sub)));
            crate::object::lemma_insert_appends(
                Seq::<(Seq<char>, BoundOp)>::empty(),
                "add"@,
                bo(OpKind::Add),
            );
            assert(Seq::<(Seq<char>, BoundOp)>::empty().push(("add"@, bo(OpKind::Add))) =~= p1);
            crate::object::lemma_insert_appends(p1, "sub"@, bo(OpKind::Sub));
            crate::object::lemma_insert_appends(p2, "mul"@, bo(OpKind::Mul));
            assert(obj@.props =~= float_obj(bits).props);
        }
        Float { obj }
    }

    /// The payload bits, when the wrapped object indeed holds a
    /// floating-point payload.
    pub fn get_self_value(&self) -> (r: Option<u64>)
        ensures
            r == (match self.obj@.self_value {
                Some(Payload::FloatBits(b)) => Some(b),
                _ => None::<u64>,
            }),
    {
        match self.obj.get_self_value() {
            Some(Payload::FloatBits(b)) => Some(b),
            _ => None,
        }
    }
}

} // verus!
