//! The boundary to the property store of `bevy_mod_props`: its [`Props`] map
//! from names to [`Value`]s, and what its operations do to them.
//!
//! The store is a `BTreeMap` keyed by interned `estr` strings, which the map
//! orders, and so tells apart, by their precomputed digests: two names with
//! the same digest are one key. Its contents are therefore given by digest.
//!
//! Everything in this module that is marked `external_body` is trusted: its
//! contract restates what the source of `bevy_mod_props` (and of `estr`)
//! shows, and is not proved here.

use bevy_mod_props::props::{Props, Value};
use core::cmp::Ordering;
use vstd::prelude::*;

verus! {

/// The property store of `bevy_mod_props`: a map from names to values.
#[verifier::external_type_specification]
#[verifier::external_body]
pub struct ExProps(Props);

/// A property value of `bevy_mod_props`: a boolean, a number or a string.
#[verifier::external_type_specification]
#[verifier::external_body]
pub struct ExValue(Value);

/// What a property value holds. A number is given by the bits of its
/// single-precision representation.
pub enum PropVal {
    Bool(bool),
    Num(u32),
    Str(Seq<char>),
}

/// The outcome of ordering two property values.
#[derive(Clone, Copy, Debug, PartialEq, Eq, Structural)]
pub enum ValueOrder {
    Less,
    Equal,
    Greater,
}

/// What the property value `v` holds.
pub uninterp spec fn value_contents(v: Value) -> PropVal;

/// The properties held by the store `p`, by the digest of their names.
pub uninterp spec fn props_contents(p: Props) -> Map<u64, PropVal>;

/// The precomputed digest by which `estr` orders its interned strings.
pub uninterp spec fn string_digest(s: Seq<char>) -> u64;

/// The bits of the single-precision sum of the floats with bits `a` and `b`,
/// up to the sign and payload of a NaN.
pub uninterp spec fn float_sum(a: u32, b: u32) -> u32;

/// The bits of the single-precision difference of the floats with bits `a`
/// and `b`, up to the sign and payload of a NaN.
pub uninterp spec fn float_difference(a: u32, b: u32) -> u32;

/// The bits of the single-precision product of the floats with bits `a` and
/// `b`, up to the sign and payload of a NaN.
pub uninterp spec fn float_product(a: u32, b: u32) -> u32;

/// The bits of the single-precision quotient of the floats with bits `a` and
/// `b`, up to the sign and payload of a NaN.
pub uninterp spec fn float_quotient(a: u32, b: u32) -> u32;

/// The key under which the store holds the property `name`.
pub open spec fn key(name: Seq<char>) -> u64 {
    string_digest(name)
}

/// Whether the float with bits `b` is a NaN: all exponent bits set and a
/// non-zero fraction.
pub open spec fn is_nan(b: u32) -> bool {
    b & 0x7f80_0000u32 == 0x7f80_0000u32 && b & 0x007f_ffffu32 != 0
}

/// The place of a non-NaN float with bits `b` in the order of floats: its
/// magnitude, negated when the sign bit is set (both zeros are at 0).
pub open spec fn float_rank(b: u32) -> int {
    let magnitude = (b & 0x7fff_ffffu32) as int;
    if b & 0x8000_0000u32 != 0 {
        -magnitude
    } else {
        magnitude
    }
}

/// What `==` answers between the floats with bits `a` and `b`: a NaN equals
/// nothing, and both zeros are equal.
pub open spec fn float_eq(a: u32, b: u32) -> bool {
    !is_nan(a) && !is_nan(b) && float_rank(a) == float_rank(b)
}

/// What `partial_cmp` answers between the floats with bits `a` and `b`: a NaN
/// is unordered.
pub open spec fn float_order(a: u32, b: u32) -> Option<ValueOrder> {
    if is_nan(a) || is_nan(b) {
        None
    } else if float_rank(a) < float_rank(b) {
        Some(ValueOrder::Less)
    } else if float_rank(a) == float_rank(b) {
        Some(ValueOrder::Equal)
    } else {
        Some(ValueOrder::Greater)
    }
}

/// The bits of the negation of the float with bits `a`: its sign bit flipped.
pub open spec fn float_negation(a: u32) -> u32 {
    a ^ 0x8000_0000u32
}

/// Whether `actual` are the bits of an operation whose result has the bits
/// `named` up to the sign and payload of a NaN.
pub open spec fn float_result(named: u32, actual: u32) -> bool {
    &&& is_nan(actual) == is_nan(named)
    &&& !is_nan(actual) ==> actual == named
}

/// The value that a property has when it is not set: `false`.
pub open spec fn default_prop() -> PropVal {
    PropVal::Bool(false)
}

/// The bits of the number zero.
pub open spec fn zero_bits() -> u32 {
    0
}

/// The properties after the property `name` has been given the default value
/// if it was not set.
pub open spec fn with_default(props: Map<u64, PropVal>, name: Seq<char>) -> Map<u64, PropVal> {
    if props.contains_key(key(name)) {
        props
    } else {
        props.insert(key(name), default_prop())
    }
}

/// The value that the property `name` is read as: the stored one, or the
/// default when it is not set.
pub open spec fn read_prop(props: Map<u64, PropVal>, name: Seq<char>) -> PropVal {
    if props.contains_key(key(name)) {
        props[key(name)]
    } else {
        default_prop()
    }
}

/// The boolean that the property `name` is read as: a stored boolean, or
/// `false` for anything else.
pub open spec fn read_bool(props: Map<u64, PropVal>, name: Seq<char>) -> bool {
    match read_prop(props, name) {
        PropVal::Bool(b) => b,
        _ => false,
    }
}

/// The order of two booleans: `false` before `true`.
pub open spec fn bool_order(a: bool, b: bool) -> ValueOrder {
    if a == b {
        ValueOrder::Equal
    } else if !a {
        ValueOrder::Less
    } else {
        ValueOrder::Greater
    }
}

/// `Props::clone`: a store holding the same properties.
#[verifier::external_body]
pub(crate) fn props_clone(props: &Props) -> (r: Props)
    ensures
        props_contents(r) == props_contents(*props),
{
    props.clone()
}

/// `Props::set`: gives the property `name` the value `value`. A stored key
/// with the same digest keeps its name and takes the value.
#[verifier::external_body]
pub(crate) fn props_set(props: &mut Props, name: &str, value: Value)
    ensures
        props_contents(*final(props)) == props_contents(*old(props)).insert(
            string_digest(name@),
            value_contents(value),
        ),
{
    props.set(name, value);
}

/// `Props::get_mut::<Value>`: the value of the property `name`, which is first
/// set to the default (`false`) when it is not set.
#[verifier::external_body]
pub(crate) fn props_value_entry(props: &mut Props, name: &str) -> (v: Value)
    ensures
        props_contents(*final(props)) == with_default(props_contents(*old(props)), name@),
        value_contents(v) == read_prop(props_contents(*old(props)), name@),
{
    *props.get_mut::<Value>(name)
}

/// `Props::get_mut::<bool>`: the boolean held by the property `name`; a
/// property that is not set, or holds something else, is first set to `false`.
#[verifier::external_body]
pub(crate) fn props_bool_entry(props: &mut Props, name: &str) -> (b: bool)
    ensures
        props_contents(*final(props)) == props_contents(*old(props)).insert(
            string_digest(name@),
            PropVal::Bool(read_bool(props_contents(*old(props)), name@)),
        ),
        b == read_bool(props_contents(*old(props)), name@),
{
    *props.get_mut::<bool>(name)
}

/// `Value::from(bool)`: a value holding the boolean `b`.
#[verifier::external_body]
pub(crate) fn value_from_bool(b: bool) -> (v: Value)
    ensures
        value_contents(v) == PropVal::Bool(b),
{
    Value::from(b)
}

/// What `Value == Value` answers: values of different kinds are never equal;
/// booleans and strings are equal when they hold the same boolean or string
/// (strings are interned); numbers compare as floats.
pub open spec fn value_equality(a: PropVal, b: PropVal) -> bool {
    match (a, b) {
        (PropVal::Bool(x), PropVal::Bool(y)) => x == y,
        (PropVal::Num(x), PropVal::Num(y)) => float_eq(x, y),
        (PropVal::Str(x), PropVal::Str(y)) => x == y,
        _ => false,
    }
}

/// The order of two strings under `estr`: by their precomputed digests.
pub open spec fn string_order(a: Seq<char>, b: Seq<char>) -> ValueOrder {
    if string_digest(a) < string_digest(b) {
        ValueOrder::Less
    } else if string_digest(a) == string_digest(b) {
        ValueOrder::Equal
    } else {
        ValueOrder::Greater
    }
}

/// What `Value::partial_cmp` answers: values of different kinds are
/// unordered; booleans order `false` before `true`; numbers compare as floats;
/// strings by their precomputed digests.
pub open spec fn value_order(a: PropVal, b: PropVal) -> Option<ValueOrder> {
    match (a, b) {
        (PropVal::Bool(x), PropVal::Bool(y)) => Some(bool_order(x, y)),
        (PropVal::Num(x), PropVal::Num(y)) => float_order(x, y),
        (PropVal::Str(x), PropVal::Str(y)) => Some(string_order(x, y)),
        _ => None,
    }
}

/// Whether `r` may be what `Value + Value` holds for values holding `a` and
/// `b`: a number, where a non-number counts as zero.
pub open spec fn sum_outcome(a: PropVal, b: PropVal, r: PropVal) -> bool {
    match (a, b) {
        (PropVal::Num(x), PropVal::Num(y)) => r matches PropVal::Num(z) && float_result(
            float_sum(x, y),
            z,
        ),
        (PropVal::Num(x), _) => r == PropVal::Num(x),
        (_, PropVal::Num(y)) => r == PropVal::Num(y),
        _ => r == PropVal::Num(zero_bits()),
    }
}

/// Whether `r` may be what `Value - Value` holds for values holding `a` and
/// `b`: a number, where a non-number counts as zero.
pub open spec fn difference_outcome(a: PropVal, b: PropVal, r: PropVal) -> bool {
    match (a, b) {
        (PropVal::Num(x), PropVal::Num(y)) => r matches PropVal::Num(z) && float_result(
            float_difference(x, y),
            z,
        ),
        (PropVal::Num(x), _) => r == PropVal::Num(x),
        (_, PropVal::Num(y)) => r == PropVal::Num(float_negation(y)),
        _ => r == PropVal::Num(zero_bits()),
    }
}

/// Whether `r` may be what `Value * Value` holds for values holding `a` and
/// `b`: a number, zero unless both are numbers.
pub open spec fn product_outcome(a: PropVal, b: PropVal, r: PropVal) -> bool {
    match (a, b) {
        (PropVal::Num(x), PropVal::Num(y)) => r matches PropVal::Num(z) && float_result(
            float_product(x, y),
            z,
        ),
        _ => r == PropVal::Num(zero_bits()),
    }
}

/// Whether `r` may be what `Value / Value` holds for values holding `a` and
/// `b`: a number; dividing by a non-number leaves a number unchanged, and a
/// non-number divided by anything is zero.
pub open spec fn quotient_outcome(a: PropVal, b: PropVal, r: PropVal) -> bool {
    match (a, b) {
        (PropVal::Num(x), PropVal::Num(y)) => r matches PropVal::Num(z) && float_result(
            float_quotient(x, y),
            z,
        ),
        (PropVal::Num(x), _) => r == PropVal::Num(x),
        _ => r == PropVal::Num(zero_bits()),
    }
}

/// `Value == Value`.
#[verifier::external_body]
pub(crate) fn value_eq(a: Value, b: Value) -> (r: bool)
    ensures
        r == value_equality(value_contents(a), value_contents(b)),
{
    a == b
}

/// `Value::partial_cmp`.
#[verifier::external_body]
pub(crate) fn value_partial_cmp(a: Value, b: Value) -> (r: Option<ValueOrder>)
    ensures
        r == value_order(value_contents(a), value_contents(b)),
{
    match a.partial_cmp(&b) {
        Some(Ordering::Less) => Some(ValueOrder::Less),
        Some(Ordering::Equal) => Some(ValueOrder::Equal),
        Some(Ordering::Greater) => Some(ValueOrder::Greater),
        None => None,
    }
}

/// `Value + Value`; of two numbers the float sum, whose NaN sign and payload
/// are not stated.
#[verifier::external_body]
pub(crate) fn value_add(a: Value, b: Value) -> (r: Value)
    ensures
        sum_outcome(value_contents(a), value_contents(b), value_contents(r)),
        value_contents(a) is Num && value_contents(b) is Num ==> float_result(
            float_sum(value_contents(a)->Num_0, value_contents(b)->Num_0),
            value_contents(r)->Num_0,
        ),
{
    a + b
}

/// `Value - Value`; of two numbers the float difference, whose NaN sign and
/// payload are not stated.
#[verifier::external_body]
pub(crate) fn value_sub(a: Value, b: Value) -> (r: Value)
    ensures
        difference_outcome(value_contents(a), value_contents(b), value_contents(r)),
        value_contents(a) is Num && value_contents(b) is Num ==> float_result(
            float_difference(value_contents(a)->Num_0, value_contents(b)->Num_0),
            value_contents(r)->Num_0,
        ),
{
    a - b
}

/// `Value * Value`; of two numbers the float product, whose NaN sign and
/// payload are not stated.
#[verifier::external_body]
pub(crate) fn value_mul(a: Value, b: Value) -> (r: Value)
    ensures
        product_outcome(value_contents(a), value_contents(b), value_contents(r)),
        value_contents(a) is Num && value_contents(b) is Num ==> float_result(
            float_product(value_contents(a)->Num_0, value_contents(b)->Num_0),
            value_contents(r)->Num_0,
        ),
{
    a * b
}

/// `Value / Value`; of two numbers the float quotient, whose NaN sign and
/// payload are not stated.
#[verifier::external_body]
pub(crate) fn value_div(a: Value, b: Value) -> (r: Value)
    ensures
        quotient_outcome(value_contents(a), value_contents(b), value_contents(r)),
        value_contents(a) is Num && value_contents(b) is Num ==> float_result(
            float_quotient(value_contents(a)->Num_0, value_contents(b)->Num_0),
            value_contents(r)->Num_0,
        ),
{
    a / b
}

} // verus!
