//! Contains the [`Condition`] type.

use crate::props::{
    float_rank, is_nan, key, string_digest, props_contents, props_value_entry, read_prop, value_contents, value_eq,
    value_partial_cmp,
    value_equality, value_order, with_default, PropVal, ValueOrder,
};
use crate::shared::same_allocation;
use bevy_mod_props::props::{Props, Value};
use std::sync::Arc;
use vstd::prelude::*;

verus! {

/// A test over all properties, written by the user of the library.
pub trait PropsPredicate: Send + Sync {
    /// Whether testing the properties `before` may answer `result` and leave
    /// the properties `after`. An impl that does not say allows anything.
    open spec fn answers(&self, before: Map<u64, PropVal>, result: bool, after: Map<u64, PropVal>) -> bool {
        true
    }

    /// Whether the properties pass the test. The test may change them.
    fn test(&self, props: &mut Props) -> (r: bool)
        ensures
            self.answers(props_contents(*old(props)), r, props_contents(*final(props))),
    ;
}

/// A test that compares the value of a property with a given value, written by
/// the user of the library.
pub trait ValuePredicate: Send + Sync {
    /// Whether testing a property holding `prop` against `value` may answer
    /// `result`. An impl that does not say allows anything.
    open spec fn answers(&self, prop: PropVal, value: PropVal, result: bool) -> bool {
        true
    }

    /// Whether the value `prop` of the property passes the test against `value`.
    fn test(&self, prop: Value, value: Value) -> (r: bool)
        ensures
            self.answers(value_contents(prop), value_contents(value), r),
    ;
}

/// How a property is compared with a value.
#[derive(Clone, Copy, Debug, PartialEq, Eq, Structural)]
pub enum Comparison {
    /// `props[name] == value`
    Eq,
    /// `props[name] != value`
    Ne,
    /// `props[name] > value`
    Gt,
    /// `props[name] >= value`
    Ge,
    /// `props[name] < value`
    Lt,
    /// `props[name] <= value`
    Le,
}

enum Test {
    Compare { name: String, value: Value, comparison: Comparison },
    Constant(bool),
    Props(Arc<Box<dyn PropsPredicate>>),
    Value { name: String, value: Value, predicate: Arc<Box<dyn ValuePredicate>> },
}

/// A condition for an associated operator. If the condition is unfulfilled,
/// the compound task containing the operator may be pruned.
pub struct Condition {
    test: Arc<Test>,
}

/// What a condition tests.
pub enum ConditionView {
    /// Compares the property `name` with `value`.
    Compare { name: Seq<char>, value: PropVal, comparison: Comparison },
    /// Always answers the given constant.
    Constant(bool),
    /// Runs a test of the user over all properties, which may answer as
    /// `answers` allows (see [`PropsPredicate::answers`]).
    CustomProps { answers: spec_fn(Map<u64, PropVal>, bool, Map<u64, PropVal>) -> bool },
    /// Runs a test of the user on the property `name` and `value`, which may
    /// answer as `answers` allows (see [`ValuePredicate::answers`]).
    CustomValue { name: Seq<char>, value: PropVal, answers: spec_fn(PropVal, PropVal, bool) -> bool },
}

impl View for Condition {
    type V = ConditionView;

    open spec fn view(&self) -> ConditionView {
        self.view_test()
    }
}

impl Condition {
    /// What this condition tests.
    pub closed spec fn view_test(&self) -> ConditionView {
        match *self.test {
            Test::Compare { name, value, comparison } => ConditionView::Compare {
                name: name@,
                value: value_contents(value),
                comparison,
            },
            Test::Constant(b) => ConditionView::Constant(b),
            Test::Props(predicate) => ConditionView::CustomProps {
                answers: |before: Map<u64, PropVal>, r: bool, after: Map<u64, PropVal>|
                    (*predicate).answers(before, r, after),
            },
            Test::Value { name, value, predicate } => ConditionView::CustomValue {
                name: name@,
                value: value_contents(value),
                answers: |prop: PropVal, value: PropVal, r: bool| (*predicate).answers(prop, value, r),
            },
        }
    }
}

/// Whether a property holding `prop` passes `comparison` against `value`,
/// in the terms of `Value`'s own `==` and `partial_cmp`.
pub open spec fn compares(comparison: Comparison, prop: PropVal, value: PropVal) -> bool {
    match comparison {
        Comparison::Eq => value_equality(prop, value),
        Comparison::Ne => !value_equality(prop, value),
        Comparison::Gt => value_order(prop, value) == Some(ValueOrder::Greater),
        Comparison::Ge => value_order(prop, value) == Some(ValueOrder::Greater) || value_order(
            prop,
            value,
        ) == Some(ValueOrder::Equal),
        Comparison::Lt => value_order(prop, value) == Some(ValueOrder::Less),
        Comparison::Le => value_order(prop, value) == Some(ValueOrder::Less) || value_order(
            prop,
            value,
        ) == Some(ValueOrder::Equal),
    }
}

/// What evaluating a condition on the properties `before` may give: the
/// answer `fulfilled` and the properties `after`. A built-in comparison reads
/// the property (setting it to the default when it is not set); a constant
/// changes nothing; a test of the user over all properties answers and
/// changes them as that test does; one on a property reads it (setting it to
/// the default when it is not set) and answers as that test does on the value
/// read and the given value.
pub open spec fn evaluation(
    condition: ConditionView,
    before: Map<u64, PropVal>,
    fulfilled: bool,
    after: Map<u64, PropVal>,
) -> bool {
    match condition {
        ConditionView::Compare { name, value, comparison } => {
            &&& after == with_default(before, name)
            &&& fulfilled == compares(comparison, read_prop(before, name), value)
        },
        ConditionView::Constant(b) => after == before && fulfilled == b,
        ConditionView::CustomProps { answers } => answers(before, fulfilled, after),
        ConditionView::CustomValue { name, value, answers } => {
            &&& after == with_default(before, name)
            &&& answers(read_prop(before, name), value, fulfilled)
        },
    }
}

impl Clone for Condition {
    fn clone(&self) -> (r: Self)
        ensures
            r@ == self@,
    {
        Condition { test: self.test.clone() }
    }
}

impl Condition {
    /// Whether the two conditions are one: clones of the same condition are,
    /// and conditions created apart are not. Two that are one test the same.
    pub fn ptr_eq(&self, other: &Self) -> (r: bool)
        ensures
            r ==> self@ == other@,
    {
        same_allocation(&self.test, &other.test)
    }

    /// Creates a new condition with the given predicate.
    pub fn new(predicate: Box<dyn PropsPredicate>) -> (r: Self)
        ensures
            r@ == (ConditionView::CustomProps {
                answers: |before: Map<u64, PropVal>, r: bool, after: Map<u64, PropVal>|
                    predicate.answers(before, r, after),
            }),
    {
        let shared = Arc::new(predicate);
        assert(*shared == predicate);
        Condition { test: Arc::new(Test::Props(shared)) }
    }

    /// Evaluates the condition with the given properties, returning whether it is fulfilled.
    /// It will insert props holding default values if they are queried, but are not yet present in [`Props`].
    pub fn is_fullfilled(&self, props: &mut Props) -> (r: bool)
        ensures
            evaluation(self@, props_contents(*old(props)), r, props_contents(*final(props))),
    {
        match &*self.test {
            Test::Compare { name, value, comparison } => {
                let prop = props_value_entry(props, name.as_str());
                match comparison {
                    Comparison::Eq => value_eq(prop, *value),
                    Comparison::Ne => !value_eq(prop, *value),
                    Comparison::Gt => value_partial_cmp(prop, *value) == Some(ValueOrder::Greater),
                    Comparison::Ge => {
                        let o = value_partial_cmp(prop, *value);
                        o == Some(ValueOrder::Greater) || o == Some(ValueOrder::Equal)
                    },
                    Comparison::Lt => value_partial_cmp(prop, *value) == Some(ValueOrder::Less),
                    Comparison::Le => {
                        let o = value_partial_cmp(prop, *value);
                        o == Some(ValueOrder::Less) || o == Some(ValueOrder::Equal)
                    },
                }
            },
            Test::Constant(b) => *b,
            Test::Props(predicate) => {
                predicate.test(props)
            },
            Test::Value { name, value, predicate } => {
                let prop = props_value_entry(props, name.as_str());
                predicate.test(prop, *value)
            },
        }
    }

    /// Shorthand for creating a condition for the concept of `props[name] == value`
    pub fn eq(name: &str, value: Value) -> (r: Self)
        ensures
            r@ == (ConditionView::Compare { name: name@, value: value_contents(value), comparison: Comparison::Eq }),
    {
        Self::compare(name, value, Comparison::Eq)
    }

    /// Shorthand for creating a condition for the concept of `props[name] != value`
    pub fn ne(name: &str, value: Value) -> (r: Self)
        ensures
            r@ == (ConditionView::Compare { name: name@, value: value_contents(value), comparison: Comparison::Ne }),
    {
        Self::compare(name, value, Comparison::Ne)
    }

    /// Shorthand for creating a condition for the concept of `props[name] > value`
    pub fn gt(name: &str, value: Value) -> (r: Self)
        ensures
            r@ == (ConditionView::Compare { name: name@, value: value_contents(value), comparison: Comparison::Gt }),
    {
        Self::compare(name, value, Comparison::Gt)
    }

    /// Shorthand for creating a condition for the concept of `props[name] >= value`
    pub fn ge(name: &str, value: Value) -> (r: Self)
        ensures
            r@ == (ConditionView::Compare { name: name@, value: value_contents(value), comparison: Comparison::Ge }),
    {
        Self::compare(name, value, Comparison::Ge)
    }

    /// Shorthand for creating a condition for the concept of `props[name] < value`
    pub fn lt(name: &str, value: Value) -> (r: Self)
        ensures
            r@ == (ConditionView::Compare { name: name@, value: value_contents(value), comparison: Comparison::Lt }),
    {
        Self::compare(name, value, Comparison::Lt)
    }

    /// Shorthand for creating a condition for the concept of `props[name] <= value`
    pub fn le(name: &str, value: Value) -> (r: Self)
        ensures
            r@ == (ConditionView::Compare { name: name@, value: value_contents(value), comparison: Comparison::Le }),
    {
        Self::compare(name, value, Comparison::Le)
    }

    fn compare(name: &str, value: Value, comparison: Comparison) -> (r: Self)
        ensures
            r@ == (ConditionView::Compare { name: name@, value: value_contents(value), comparison }),
    {
        Condition { test: Arc::new(Test::Compare { name: name.to_string(), value, comparison }) }
    }

    /// Shorthand for creating a condition that always evaluates to true
    pub fn always_true() -> (r: Self)
        ensures
            r@ == ConditionView::Constant(true),
    {
        Condition { test: Arc::new(Test::Constant(true)) }
    }

    /// Shorthand for creating a condition that always evaluates to false
    pub fn always_false() -> (r: Self)
        ensures
            r@ == ConditionView::Constant(false),
    {
        Condition { test: Arc::new(Test::Constant(false)) }
    }

    /// Shortcut for creating a condition that compares a property with a value.
    pub fn cmp(name: &str, value: Value, predicate: Box<dyn ValuePredicate>) -> (r: Self)
        ensures
            r@ == (ConditionView::CustomValue {
                name: name@,
                value: value_contents(value),
                answers: |prop: PropVal, value: PropVal, r: bool| predicate.answers(prop, value, r),
            }),
    {
        let shared = Arc::new(predicate);
        assert(*shared == predicate);
        Condition { test: Arc::new(Test::Value { name: name.to_string(), value, predicate: shared }) }
    }
}

/// A property that is not set compares as the default `false`: a condition
/// `props[name] == b` on it holds exactly when `b` is `false`, and the
/// property is then set to `false`.
pub proof fn law_unset_property_is_false(
    condition: Condition,
    before: Map<u64, PropVal>,
    fulfilled: bool,
    after: Map<u64, PropVal>,
    b: bool,
)
    requires
        condition@ matches ConditionView::Compare { name, value, comparison } && comparison
            == Comparison::Eq && value == PropVal::Bool(b) && !before.contains_key(key(name)),
        evaluation(condition@, before, fulfilled, after),
    ensures
        fulfilled == !b,
        after == before.insert(key(condition@->Compare_name), PropVal::Bool(false)),
{
}

/// After an effect sets a property to a boolean or a string, the condition
/// that the property equals that value holds, and evaluating it changes
/// nothing more.
pub proof fn law_set_then_equal_holds(
    effect: crate::effect::Effect,
    condition: Condition,
    before: Map<u64, PropVal>,
    mid: Map<u64, PropVal>,
    fulfilled: bool,
    after: Map<u64, PropVal>,
)
    requires
        effect@.change matches crate::effect::ChangeView::Assign { name, value } && condition@
            == (ConditionView::Compare { name, value, comparison: Comparison::Eq }) && !(
        value is Num),
        crate::effect::application(effect@.change, before, mid),
        evaluation(condition@, mid, fulfilled, after),
    ensures
        fulfilled,
        after == mid,
{
}

/// A constant condition answers its constant and changes nothing.
pub proof fn law_constant_condition(
    condition: Condition,
    before: Map<u64, PropVal>,
    fulfilled: bool,
    after: Map<u64, PropVal>,
)
    requires
        condition@ is Constant,
        evaluation(condition@, before, fulfilled, after),
    ensures
        fulfilled == condition@->Constant_0,
        after == before,
{
}

/// `!=` answers the opposite of `==` on the same property and value.
pub proof fn law_ne_is_not_eq(
    eq: Condition,
    ne: Condition,
    before: Map<u64, PropVal>,
    eq_fulfilled: bool,
    eq_after: Map<u64, PropVal>,
    ne_fulfilled: bool,
    ne_after: Map<u64, PropVal>,
)
    requires
        eq@ matches ConditionView::Compare { name, value, comparison } && comparison
            == Comparison::Eq && ne@ == (ConditionView::Compare {
            name,
            value,
            comparison: Comparison::Ne,
        }),
        evaluation(eq@, before, eq_fulfilled, eq_after),
        evaluation(ne@, before, ne_fulfilled, ne_after),
    ensures
        ne_fulfilled == !eq_fulfilled,
        ne_after == eq_after,
{
}

/// Numbers compare as the floats they hold: a condition `props[name] <op>
/// value` on a property holding the number `x` and a number `y`, neither a
/// NaN, answers `x <op> y` in the order of floats, and changes nothing.
pub proof fn law_numbers_compare_by_value(
    condition: Condition,
    name: Seq<char>,
    x: u32,
    y: u32,
    comparison: Comparison,
    before: Map<u64, PropVal>,
    fulfilled: bool,
    after: Map<u64, PropVal>,
)
    requires
        condition@ == (ConditionView::Compare { name, value: PropVal::Num(y), comparison }),
        before.contains_key(key(name)),
        before[key(name)] == PropVal::Num(x),
        !is_nan(x),
        !is_nan(y),
        evaluation(condition@, before, fulfilled, after),
    ensures
        fulfilled == match comparison {
            Comparison::Eq => float_rank(x) == float_rank(y),
            Comparison::Ne => float_rank(x) != float_rank(y),
            Comparison::Gt => float_rank(x) > float_rank(y),
            Comparison::Ge => float_rank(x) >= float_rank(y),
            Comparison::Lt => float_rank(x) < float_rank(y),
            Comparison::Le => float_rank(x) <= float_rank(y),
        },
        after == before,
{
}

/// A NaN on either side fails every comparison but `!=`.
pub proof fn law_nan_compares_unequal_only(
    condition: Condition,
    name: Seq<char>,
    x: u32,
    y: u32,
    comparison: Comparison,
    before: Map<u64, PropVal>,
    fulfilled: bool,
    after: Map<u64, PropVal>,
)
    requires
        condition@ == (ConditionView::Compare { name, value: PropVal::Num(y), comparison }),
        before.contains_key(key(name)),
        before[key(name)] == PropVal::Num(x),
        is_nan(x) || is_nan(y),
        evaluation(condition@, before, fulfilled, after),
    ensures
        fulfilled == (comparison == Comparison::Ne),
{
}

/// Booleans compare with `false` below `true`.
pub proof fn law_booleans_compare_false_first(
    condition: Condition,
    name: Seq<char>,
    a: bool,
    b: bool,
    comparison: Comparison,
    before: Map<u64, PropVal>,
    fulfilled: bool,
    after: Map<u64, PropVal>,
)
    requires
        condition@ == (ConditionView::Compare { name, value: PropVal::Bool(b), comparison }),
        before.contains_key(key(name)),
        before[key(name)] == PropVal::Bool(a),
        evaluation(condition@, before, fulfilled, after),
    ensures
        fulfilled == match comparison {
            Comparison::Eq => a == b,
            Comparison::Ne => a != b,
            Comparison::Gt => a && !b,
            Comparison::Ge => a || !b,
            Comparison::Lt => !a && b,
            Comparison::Le => !a || b,
        },
        after == before,
{
}

/// The comparisons mirror one another: `p >= v` exactly when `v <= p`, `p > v`
/// exactly when `v < p`, `==` is symmetric, a strict comparison implies the
/// one that allows equality, and equal values pass both `>=` and `<=`.
pub proof fn law_comparisons_mirror(p: PropVal, v: PropVal)
    ensures
        compares(Comparison::Ge, p, v) == compares(Comparison::Le, v, p),
        compares(Comparison::Gt, p, v) == compares(Comparison::Lt, v, p),
        compares(Comparison::Eq, p, v) == compares(Comparison::Eq, v, p),
        compares(Comparison::Ne, p, v) == !compares(Comparison::Eq, p, v),
        compares(Comparison::Gt, p, v) ==> compares(Comparison::Ge, p, v),
        compares(Comparison::Lt, p, v) ==> compares(Comparison::Le, p, v),
        compares(Comparison::Eq, p, v) ==> compares(Comparison::Ge, p, v) && compares(
            Comparison::Le,
            p,
            v,
        ),
{
}

/// A test of the user over all properties is run once: evaluating the
/// condition answers and changes the properties exactly as one run of the test
/// may.
pub proof fn law_custom_test_runs_once(
    condition: Condition,
    answers: spec_fn(Map<u64, PropVal>, bool, Map<u64, PropVal>) -> bool,
    before: Map<u64, PropVal>,
    fulfilled: bool,
    after: Map<u64, PropVal>,
)
    requires
        condition@ == (ConditionView::CustomProps { answers }),
    ensures
        evaluation(condition@, before, fulfilled, after) <==> answers(before, fulfilled, after),
{
}

/// A test of the user on a property is given the property's value first (the
/// stored one, or `false` when it is not set) and the condition's value
/// second, and its answer is the condition's; the property is set to `false`
/// when it was not set, and nothing else changes.
pub proof fn law_value_test_sees_property_then_value(
    condition: Condition,
    name: Seq<char>,
    value: PropVal,
    answers: spec_fn(PropVal, PropVal, bool) -> bool,
    before: Map<u64, PropVal>,
    fulfilled: bool,
    after: Map<u64, PropVal>,
)
    requires
        condition@ == (ConditionView::CustomValue { name, value, answers }),
    ensures
        evaluation(condition@, before, fulfilled, after) <==> if before.contains_key(key(name)) {
            answers(before[key(name)], value, fulfilled) && after == before
        } else {
            answers(PropVal::Bool(false), value, fulfilled) && after == before.insert(
                key(name),
                PropVal::Bool(false),
            )
        },
{
}

/// Strings are equal only when they are the same string, and are ordered by
/// their digests: a condition on a property holding the string `a` against the
/// string `b` answers so, and changes nothing.
pub proof fn law_strings_compare_by_digest(
    condition: Condition,
    name: Seq<char>,
    a: Seq<char>,
    b: Seq<char>,
    comparison: Comparison,
    before: Map<u64, PropVal>,
    fulfilled: bool,
    after: Map<u64, PropVal>,
)
    requires
        condition@ == (ConditionView::Compare { name, value: PropVal::Str(b), comparison }),
        before.contains_key(key(name)),
        before[key(name)] == PropVal::Str(a),
        evaluation(condition@, before, fulfilled, after),
    ensures
        fulfilled == match comparison {
            Comparison::Eq => a == b,
            Comparison::Ne => a != b,
            Comparison::Gt => string_digest(a) > string_digest(b),
            Comparison::Ge => string_digest(a) >= string_digest(b),
            Comparison::Lt => string_digest(a) < string_digest(b),
            Comparison::Le => string_digest(a) <= string_digest(b),
        },
        after == before,
{
}

/// Values of different kinds never compare equal and are unordered: only `!=`
/// holds between them.
pub proof fn law_different_kinds_only_differ(p: PropVal, v: PropVal, comparison: Comparison)
    requires
        (p is Bool) != (v is Bool) || (p is Num) != (v is Num),
    ensures
        compares(comparison, p, v) == (comparison == Comparison::Ne),
{
}

} // verus!
