//! Types for dealing with operator effects. See [`Effect`] for more information.

use crate::props::{
    difference_outcome, float_difference, float_negation, float_product, float_quotient,
    float_result, float_sum, key, product_outcome, zero_bits, props_bool_entry, props_contents, props_set,
    props_value_entry, quotient_outcome, read_bool, read_prop, sum_outcome, value_add,
    value_contents, value_div, value_from_bool, value_mul, value_sub, PropVal,
};
use crate::shared::same_allocation;
use bevy_mod_props::props::{Props, Value};
use std::sync::Arc;
use vstd::prelude::*;

verus! {

/// A change to all properties, written by the user of the library.
pub trait PropsEffect: Send + Sync {
    /// Whether the change may turn the properties `before` into `after`. An
    /// impl that does not say allows anything.
    open spec fn changes(&self, before: Map<u64, PropVal>, after: Map<u64, PropVal>) -> bool {
        true
    }

    /// Changes the properties.
    fn apply(&self, props: &mut Props)
        ensures
            self.changes(props_contents(*old(props)), props_contents(*final(props))),
    ;
}

/// A change to the value of one property based on a given value, written by
/// the user of the library.
pub trait ValueMutation: Send + Sync {
    /// Whether the change may turn a property holding `before`, with the given
    /// value `value`, into one holding `after`. An impl that does not say
    /// allows anything.
    open spec fn mutates(&self, before: PropVal, value: PropVal, after: PropVal) -> bool {
        true
    }

    /// Changes the value `prop` of the property based on `value`.
    fn mutate(&self, prop: &mut Value, value: Value)
        ensures
            self.mutates(value_contents(*old(prop)), value_contents(value), value_contents(*final(prop))),
    ;
}

/// The arithmetic that an effect applies to a numeric property.
#[derive(Clone, Copy, Debug, PartialEq, Eq, Structural)]
pub enum Arithmetic {
    /// `props[name] += value`
    Add,
    /// `props[name] -= value`
    Sub,
    /// `props[name] *= value`
    Mul,
    /// `props[name] /= value`
    Div,
}

enum Change {
    Assign { name: String, value: Value },
    Toggle { name: String },
    Arithmetic { name: String, value: Value, arithmetic: Arithmetic },
    Props(Arc<Box<dyn PropsEffect>>),
    Value { name: String, value: Value, mutation: Arc<Box<dyn ValueMutation>> },
    Nothing,
}

/// An effect on the properties of the entity holding the plan. These effects are taken into account during planning,
/// and applied automatically when the associated step of the plan succeeds.
pub struct Effect {
    change: Arc<Change>,
    /// Whether the effect should be taken into account only during planning, but not applied for you.
    /// Default is `false`, i.e. all effects are applied when the associated step of the plan succeeds.
    pub plan_only: bool,
}

/// What an effect changes.
pub enum ChangeView {
    /// Sets the property `name` to `value`.
    Assign { name: Seq<char>, value: PropVal },
    /// Toggles the boolean property `name`.
    Toggle { name: Seq<char> },
    /// Applies `arithmetic` with `value` to the property `name`.
    Arithmetic { name: Seq<char>, value: PropVal, arithmetic: Arithmetic },
    /// Runs a change of the user over all properties, which may change them
    /// as `changes` allows (see [`PropsEffect::changes`]).
    CustomProps { changes: spec_fn(Map<u64, PropVal>, Map<u64, PropVal>) -> bool },
    /// Runs a change of the user on the property `name` with `value`, which
    /// may change it as `mutates` allows (see [`ValueMutation::mutates`]).
    CustomValue { name: Seq<char>, value: PropVal, mutates: spec_fn(PropVal, PropVal, PropVal) -> bool },
    /// Changes nothing.
    Nothing,
}

/// An effect, as what it changes and whether it is only for planning.
pub struct EffectView {
    pub change: ChangeView,
    pub plan_only: bool,
}

impl View for Effect {
    type V = EffectView;

    open spec fn view(&self) -> EffectView {
        self.view_effect()
    }
}

impl Effect {
    /// What this effect changes, and whether it is only for planning.
    pub closed spec fn view_effect(&self) -> EffectView {
        EffectView { change: self.view_change(), plan_only: self.plan_only }
    }

    /// What this effect changes.
    closed spec fn view_change(&self) -> ChangeView {
        match *self.change {
            Change::Assign { name, value } => ChangeView::Assign { name: name@, value: value_contents(value) },
            Change::Toggle { name } => ChangeView::Toggle { name: name@ },
            Change::Arithmetic { name, value, arithmetic } => ChangeView::Arithmetic {
                name: name@,
                value: value_contents(value),
                arithmetic,
            },
            Change::Props(effect) => ChangeView::CustomProps {
                changes: |before: Map<u64, PropVal>, after: Map<u64, PropVal>|
                    (*effect).changes(before, after),
            },
            Change::Value { name, value, mutation } => ChangeView::CustomValue {
                name: name@,
                value: value_contents(value),
                mutates: |before: PropVal, value: PropVal, after: PropVal|
                    (*mutation).mutates(before, value, after),
            },
            Change::Nothing => ChangeView::Nothing,
        }
    }
}

/// Whether applying `arithmetic` with `value` to a property holding `prop`
/// may give `result`.
pub open spec fn arithmetic_outcome(
    arithmetic: Arithmetic,
    prop: PropVal,
    value: PropVal,
    result: PropVal,
) -> bool {
    match arithmetic {
        Arithmetic::Add => sum_outcome(prop, value, result),
        Arithmetic::Sub => difference_outcome(prop, value, result),
        Arithmetic::Mul => product_outcome(prop, value, result),
        Arithmetic::Div => quotient_outcome(prop, value, result),
    }
}

/// Whether applying `change` to the properties `before` may leave the
/// properties `after`. A change of the user over all properties changes them
/// as that change does; one on a single property reads it (the default when
/// it is not set), and stores what that change makes of the value read and
/// the given value.
pub open spec fn application(
    change: ChangeView,
    before: Map<u64, PropVal>,
    after: Map<u64, PropVal>,
) -> bool {
    match change {
        ChangeView::Assign { name, value } => after == before.insert(key(name), value),
        ChangeView::Toggle { name } => after == before.insert(
            key(name),
            PropVal::Bool(!read_bool(before, name)),
        ),
        ChangeView::Arithmetic { name, value, arithmetic } => exists|result: PropVal|
            #![trigger before.insert(key(name), result)]
            arithmetic_outcome(arithmetic, read_prop(before, name), value, result) && after
                == before.insert(key(name), result),
        ChangeView::CustomProps { changes } => changes(before, after),
        ChangeView::CustomValue { name, value, mutates } => exists|result: PropVal|
            #![trigger before.insert(key(name), result)]
            mutates(read_prop(before, name), value, result) && after == before.insert(
                key(name),
                result,
            ),
        ChangeView::Nothing => after == before,
    }
}

impl Clone for Effect {
    fn clone(&self) -> (r: Self)
        ensures
            r@ == self@,
    {
        Effect { change: self.change.clone(), plan_only: self.plan_only }
    }
}

impl Effect {
    /// Whether the two effects are one: clones of the same effect are, as
    /// long as both are only for planning or neither is, and effects created
    /// apart are not. Two that are one change the same.
    pub fn ptr_eq(&self, other: &Self) -> (r: bool)
        ensures
            r ==> self@ == other@,
    {
        same_allocation(&self.change, &other.change) && self.plan_only == other.plan_only
    }

    fn with_change(change: Change) -> (r: Self)
        ensures
            *r.change == change,
            !r.plan_only,
    {
        Effect { change: Arc::new(change), plan_only: false }
    }

    /// Creates a new effect from the given change.
    pub fn new(fun: Box<dyn PropsEffect>) -> (r: Self)
        ensures
            r@ == (EffectView {
                change: ChangeView::CustomProps {
                    changes: |before: Map<u64, PropVal>, after: Map<u64, PropVal>|
                        fun.changes(before, after),
                },
                plan_only: false,
            }),
    {
        let f = Arc::new(fun);
        assert(*f == fun);
        Self::with_change(Change::Props(f))
    }

    /// Ensures that the effect is taken into account for planning, but not applied for you.
    /// This is useful for effects that come from the outside world, such as "did the monster find the player?".
    /// This is off by default, i.e. all effects are applied when the associated step of the plan succeeds.
    pub fn plan_only(self) -> (r: Self)
        ensures
            r@ == (EffectView { change: self@.change, plan_only: true }),
    {
        let mut s = self;
        s.plan_only = true;
        s
    }

    /// Applies the effect to the given properties.
    pub fn apply(&self, props: &mut Props)
        ensures
            application(self@.change, props_contents(*old(props)), props_contents(*final(props))),
    {
        match &*self.change {
            Change::Assign { name, value } => {
                props_set(props, name.as_str(), *value);
            },
            Change::Toggle { name } => {
                let b = props_bool_entry(props, name.as_str());
                props_set(props, name.as_str(), value_from_bool(!b));
                assert(props_contents(*props) =~= props_contents(*old(props)).insert(
                    key(name@),
                    PropVal::Bool(!read_bool(props_contents(*old(props)), name@)),
                ));
            },
            Change::Arithmetic { name, value, arithmetic } => {
                let prop = props_value_entry(props, name.as_str());
                let changed = match arithmetic {
                    Arithmetic::Add => value_add(prop, *value),
                    Arithmetic::Sub => value_sub(prop, *value),
                    Arithmetic::Mul => value_mul(prop, *value),
                    Arithmetic::Div => value_div(prop, *value),
                };
                props_set(props, name.as_str(), changed);
                assert(props_contents(*props) =~= props_contents(*old(props)).insert(
                    key(name@),
                    value_contents(changed),
                ));
            },
            Change::Props(f) => {
                f.apply(props);
            },
            Change::Value { name, value, mutation } => {
                let mut prop = props_value_entry(props, name.as_str());
                mutation.mutate(&mut prop, *value);
                props_set(props, name.as_str(), prop);
                assert(props_contents(*props) =~= props_contents(*old(props)).insert(
                    key(name@),
                    value_contents(prop),
                ));
            },
            Change::Nothing => {},
        }
    }

    /// Shortcut for creating an effect that sets a property.
    pub fn set(name: &str, value: Value) -> (r: Self)
        ensures
            r@ == (EffectView {
                change: ChangeView::Assign { name: name@, value: value_contents(value) },
                plan_only: false,
            }),
    {
        Self::with_change(Change::Assign { name: name.to_string(), value })
    }

    /// Shortcut for creating an effect that toggles a boolean property.
    /// If the property didn't exist before, it will be initialized to `true`.
    pub fn toggle(name: &str) -> (r: Self)
        ensures
            r@ == (EffectView { change: ChangeView::Toggle { name: name@ }, plan_only: false }),
    {
        Self::with_change(Change::Toggle { name: name.to_string() })
    }

    /// Shortcut for creating an effect that increments a numeric property.
    /// If the property didn't exist before, it will be initialized to `value`.
    pub fn inc<T>(name: &str, value: Value) -> (r: Self)
        ensures
            r@ == (EffectView {
                change: ChangeView::Arithmetic {
                    name: name@,
                    value: value_contents(value),
                    arithmetic: Arithmetic::Add,
                },
                plan_only: false,
            }),
    {
        Self::arithmetic(name, value, Arithmetic::Add)
    }

    /// Shortcut for creating an effect that increments a numeric property.
    /// If the property didn't exist before, it will be initialized to `-value`.
    pub fn dec<T>(name: &str, value: Value) -> (r: Self)
        ensures
            r@ == (EffectView {
                change: ChangeView::Arithmetic {
                    name: name@,
                    value: value_contents(value),
                    arithmetic: Arithmetic::Sub,
                },
                plan_only: false,
            }),
    {
        Self::arithmetic(name, value, Arithmetic::Sub)
    }

    /// Shortcut for creating an effect that multiplies a numeric property.
    /// If the property didn't exist before, it will be initialized to `0`.
    pub fn mul(name: &str, value: Value) -> (r: Self)
        ensures
            r@ == (EffectView {
                change: ChangeView::Arithmetic {
                    name: name@,
                    value: value_contents(value),
                    arithmetic: Arithmetic::Mul,
                },
                plan_only: false,
            }),
    {
        Self::arithmetic(name, value, Arithmetic::Mul)
    }

    /// Shortcut for creating an effect that divides a numeric property.
    /// If the property didn't exist before, it will be initialized to `0`.
    pub fn div(name: &str, value: Value) -> (r: Self)
        ensures
            r@ == (EffectView {
                change: ChangeView::Arithmetic {
                    name: name@,
                    value: value_contents(value),
                    arithmetic: Arithmetic::Div,
                },
                plan_only: false,
            }),
    {
        Self::arithmetic(name, value, Arithmetic::Div)
    }

    fn arithmetic(name: &str, value: Value, arithmetic: Arithmetic) -> (r: Self)
        ensures
            r@ == (EffectView {
                change: ChangeView::Arithmetic { name: name@, value: value_contents(value), arithmetic },
                plan_only: false,
            }),
    {
        Self::with_change(Change::Arithmetic { name: name.to_string(), value, arithmetic })
    }

    /// Shortcut for creating an effect that modifies a property based on a value.
    pub fn mutate(name: &str, value: Value, mutate: Box<dyn ValueMutation>) -> (r: Self)
        ensures
            r@ == (EffectView {
                change: ChangeView::CustomValue {
                    name: name@,
                    value: value_contents(value),
                    mutates: |before: PropVal, value: PropVal, after: PropVal|
                        mutate.mutates(before, value, after),
                },
                plan_only: false,
            }),
    {
        let m = Arc::new(mutate);
        assert(*m == mutate);
        Self::with_change(Change::Value { name: name.to_string(), value, mutation: m })
    }

    /// Shortcut for creating an effect that does nothing. This is equivalent to just not spawning an effect at all.
    pub fn noop() -> (r: Self)
        ensures
            r@ == (EffectView { change: ChangeView::Nothing, plan_only: false }),
    {
        Self::with_change(Change::Nothing)
    }
}

/// Toggling a property that is not set leaves it `true`.
pub proof fn law_toggle_unset_is_true(
    effect: Effect,
    before: Map<u64, PropVal>,
    after: Map<u64, PropVal>,
)
    requires
        effect@.change is Toggle,
        !before.contains_key(key(effect@.change->Toggle_name)),
        application(effect@.change, before, after),
    ensures
        after[key(effect@.change->Toggle_name)] == PropVal::Bool(true),
{
}

/// Toggling a boolean property twice gives back the properties it started from.
pub proof fn law_toggle_twice_restores(
    effect: Effect,
    before: Map<u64, PropVal>,
    mid: Map<u64, PropVal>,
    after: Map<u64, PropVal>,
)
    requires
        effect@.change is Toggle,
        before.contains_key(key(effect@.change->Toggle_name)),
        before[key(effect@.change->Toggle_name)] is Bool,
        application(effect@.change, before, mid),
        application(effect@.change, mid, after),
    ensures
        after == before,
{
    let name = effect@.change->Toggle_name;
    assert(after =~= before);
}

/// Setting a property twice to the same value is the same as setting it once.
pub proof fn law_set_idempotent(
    effect: Effect,
    before: Map<u64, PropVal>,
    mid: Map<u64, PropVal>,
    after: Map<u64, PropVal>,
)
    requires
        effect@.change is Assign,
        application(effect@.change, before, mid),
        application(effect@.change, mid, after),
    ensures
        after == mid,
{
    assert(after =~= mid);
}

/// Incrementing a property that is not set by a number sets it to that number;
/// decrementing sets it to its negation; multiplying or dividing sets it to zero.
pub proof fn law_arithmetic_on_unset(
    effect: Effect,
    before: Map<u64, PropVal>,
    after: Map<u64, PropVal>,
)
    requires
        effect@.change is Arithmetic,
        effect@.change->Arithmetic_value is Num,
        !before.contains_key(key(effect@.change->Arithmetic_name)),
        application(effect@.change, before, after),
    ensures
        after[key(effect@.change->Arithmetic_name)] == match effect@.change->arithmetic {
            Arithmetic::Add => effect@.change->Arithmetic_value,
            Arithmetic::Sub => PropVal::Num(
                crate::props::float_negation(effect@.change->Arithmetic_value->Num_0),
            ),
            Arithmetic::Mul => PropVal::Num(crate::props::zero_bits()),
            Arithmetic::Div => PropVal::Num(crate::props::zero_bits()),
        },
{
    let name = effect@.change->Arithmetic_name;
    let result = choose|result: PropVal|
        arithmetic_outcome(
            effect@.change->arithmetic,
            read_prop(before, name),
            effect@.change->Arithmetic_value,
            result,
        ) && after == before.insert(key(name), result);
    assert(after[key(name)] == result);
}

/// A change of the user over all properties is run once: applying the effect
/// leaves exactly what one run of the change may leave.
pub proof fn law_custom_change_runs_once(
    effect: Effect,
    changes: spec_fn(Map<u64, PropVal>, Map<u64, PropVal>) -> bool,
    before: Map<u64, PropVal>,
    after: Map<u64, PropVal>,
)
    requires
        effect@.change == (ChangeView::CustomProps { changes }),
    ensures
        application(effect@.change, before, after) <==> changes(before, after),
{
}

/// A change of the user on a property is given the property's value first
/// (the stored one, or `false` when it is not set) and the effect's value
/// second, and the property then holds what the change made of it; nothing
/// else changes. Every result the change allows can come out.
pub proof fn law_mutation_sees_property_then_value(
    effect: Effect,
    name: Seq<char>,
    value: PropVal,
    mutates: spec_fn(PropVal, PropVal, PropVal) -> bool,
    before: Map<u64, PropVal>,
    after: Map<u64, PropVal>,
    result: PropVal,
)
    requires
        effect@.change == (ChangeView::CustomValue { name, value, mutates }),
    ensures
        application(effect@.change, before, after) ==> {
            let prop = if before.contains_key(key(name)) {
                before[key(name)]
            } else {
                PropVal::Bool(false)
            };
            &&& after.contains_key(key(name))
            &&& mutates(prop, value, after[key(name)])
            &&& after.dom() == before.dom().insert(key(name))
            &&& forall|k: u64| k != key(name) && before.contains_key(k) ==> after[k] == before[k]
        },
        mutates(
            if before.contains_key(key(name)) {
                before[key(name)]
            } else {
                PropVal::Bool(false)
            },
            value,
            result,
        ) ==> application(effect@.change, before, before.insert(key(name), result)),
{
}

/// Arithmetic on a property holding the number `x` with the number `y` stores
/// the float `x + y`, `x - y`, `x * y` or `x / y` (up to the sign and payload
/// of a NaN) under the property, in that order of operands, and changes
/// nothing else.
pub proof fn law_arithmetic_on_numbers(
    effect: Effect,
    name: Seq<char>,
    x: u32,
    y: u32,
    arithmetic: Arithmetic,
    before: Map<u64, PropVal>,
    after: Map<u64, PropVal>,
)
    requires
        effect@.change == (ChangeView::Arithmetic { name, value: PropVal::Num(y), arithmetic }),
        before.contains_key(key(name)),
        before[key(name)] == PropVal::Num(x),
        application(effect@.change, before, after),
    ensures
        after.contains_key(key(name)),
        after == before.insert(key(name), after[key(name)]),
        after[key(name)] is Num,
        float_result(
            match arithmetic {
                Arithmetic::Add => float_sum(x, y),
                Arithmetic::Sub => float_difference(x, y),
                Arithmetic::Mul => float_product(x, y),
                Arithmetic::Div => float_quotient(x, y),
            },
            after[key(name)]->Num_0,
        ),
{
}

/// Arithmetic where one side is not a number counts it as zero: on a property
/// that holds no number, adding `y` stores `y`, subtracting stores `-y`, and
/// multiplying or dividing stores zero; with a value that is no number, the
/// number `x` of the property is kept, except that multiplying stores zero.
pub proof fn law_arithmetic_with_non_numbers(
    effect: Effect,
    name: Seq<char>,
    value: PropVal,
    arithmetic: Arithmetic,
    before: Map<u64, PropVal>,
    after: Map<u64, PropVal>,
)
    requires
        effect@.change == (ChangeView::Arithmetic { name, value, arithmetic }),
        application(effect@.change, before, after),
    ensures
        !(read_prop(before, name) is Num) && value is Num ==> after == before.insert(
            key(name),
            match arithmetic {
                Arithmetic::Add => value,
                Arithmetic::Sub => PropVal::Num(float_negation(value->Num_0)),
                Arithmetic::Mul => PropVal::Num(zero_bits()),
                Arithmetic::Div => PropVal::Num(zero_bits()),
            },
        ),
        read_prop(before, name) is Num && !(value is Num) ==> after == before.insert(
            key(name),
            match arithmetic {
                Arithmetic::Mul => PropVal::Num(zero_bits()),
                _ => read_prop(before, name),
            },
        ),
        !(read_prop(before, name) is Num) && !(value is Num) ==> after == before.insert(
            key(name),
            PropVal::Num(zero_bits()),
        ),
{
}

/// Toggling flips a boolean property, and sets any other property, or one
/// that is not set, to `true`; nothing else changes.
pub proof fn law_toggle_flips(
    effect: Effect,
    name: Seq<char>,
    before: Map<u64, PropVal>,
    after: Map<u64, PropVal>,
)
    requires
        effect@.change == (ChangeView::Toggle { name }),
        application(effect@.change, before, after),
    ensures
        after == before.insert(
            key(name),
            PropVal::Bool(
                if before.contains_key(key(name)) && before[key(name)] is Bool {
                    !before[key(name)]->Bool_0
                } else {
                    true
                },
            ),
        ),
{
}

} // verus!
