use bevy_bae::condition::Condition;
use bevy_bae::effect::{Effect, PropsEffect, ValueMutation};
use bevy_bae::plan::mtr::Mtr;
use bevy_bae::plan::update::{check_root_conditions, decide_update, RootTask, UpdateOutcome};
use bevy_bae::plan::Plan;
use bevy_mod_props::props::{Props, Value};

struct Clear;

impl PropsEffect for Clear {
    fn apply(&self, props: &mut Props) {
        props.clear();
    }
}

struct Double;

impl ValueMutation for Double {
    fn mutate(&self, prop: &mut Value, _value: Value) {
        *prop = *prop * Value::from(2.0f32);
    }
}

#[test]
fn set_sets_property() {
    let mut props = Props::new();
    Effect::set("foo", Value::from(true)).apply(&mut props);
    assert_eq!(props["foo"], true);
    Effect::set("foo", Value::from("1")).apply(&mut props);
    assert_eq!(props["foo"], "1");
    Effect::set("foo", Value::from(2.0f32)).apply(&mut props);
    assert_eq!(props["foo"], 2.0f32);
    assert_eq!(props.iter().count(), 1);
}

#[test]
fn toggle_unset_is_true() {
    let mut props = Props::new();
    let toggle = Effect::toggle("t");
    toggle.apply(&mut props);
    assert_eq!(props["t"], true);
    toggle.apply(&mut props);
    assert_eq!(props["t"], false);
}

#[test]
fn toggle_replaces_non_boolean() {
    let mut props = Props::new();
    props.set("t", 3.0f32);
    Effect::toggle("t").apply(&mut props);
    assert_eq!(props["t"], true);
}

#[test]
fn arithmetic_on_unset_properties() {
    let mut props = Props::new();
    Effect::inc::<f32>("a", Value::from(2.0f32)).apply(&mut props);
    Effect::dec::<f32>("b", Value::from(2.0f32)).apply(&mut props);
    Effect::mul("c", Value::from(2.0f32)).apply(&mut props);
    Effect::div("d", Value::from(2.0f32)).apply(&mut props);
    assert_eq!(props["a"], 2.0f32);
    assert_eq!(props["b"], -2.0f32);
    assert_eq!(props["c"], 0.0f32);
    assert_eq!(props["d"], 0.0f32);
}

#[test]
fn arithmetic_on_numbers() {
    let mut props = Props::new();
    props.set("n", 6.0f32);
    Effect::inc::<f32>("n", Value::from(4.0f32)).apply(&mut props);
    assert_eq!(props["n"], 10.0f32);
    Effect::dec::<f32>("n", Value::from(1.0f32)).apply(&mut props);
    assert_eq!(props["n"], 9.0f32);
    Effect::mul("n", Value::from(2.0f32)).apply(&mut props);
    assert_eq!(props["n"], 18.0f32);
    Effect::div("n", Value::from(3.0f32)).apply(&mut props);
    assert_eq!(props["n"], 6.0f32);
    Effect::div("n", Value::from(true)).apply(&mut props);
    assert_eq!(props["n"], 6.0f32);
}

#[test]
fn plan_only_marks_effect() {
    let e = Effect::set("x", Value::from(true));
    assert!(!e.plan_only);
    let e = e.plan_only();
    assert!(e.plan_only);
    let mut props = Props::new();
    e.apply(&mut props);
    assert_eq!(props["x"], true);
}

#[test]
fn noop_changes_nothing() {
    let mut props = Props::new();
    props.set("x", 1.0f32);
    Effect::noop().apply(&mut props);
    assert_eq!(props.iter().count(), 1);
    assert_eq!(props["x"], 1.0f32);
}

#[test]
fn custom_effects() {
    let mut props = Props::new();
    props.set("x", 1.0f32);
    Effect::mutate("x", Value::from(0.0f32), Box::new(Double)).apply(&mut props);
    assert_eq!(props["x"], 2.0f32);
    Effect::mutate("y", Value::from(0.0f32), Box::new(Double)).apply(&mut props);
    assert_eq!(props["y"], 0.0f32);
    Effect::new(Box::new(Clear)).clone().apply(&mut props);
    assert_eq!(props.iter().count(), 0);
}

#[test]
fn toggle_twice_restores() {
    let mut props = Props::new();
    props.set("t", true);
    let toggle = Effect::toggle("t");
    toggle.apply(&mut props);
    toggle.apply(&mut props);
    assert_eq!(props["t"], true);
    assert_eq!(props.iter().count(), 1);
}

#[test]
fn set_twice_is_set_once() {
    let mut once = Props::new();
    let mut twice = Props::new();
    let set = Effect::set("s", Value::from("x"));
    set.apply(&mut once);
    set.apply(&mut twice);
    set.apply(&mut twice);
    assert_eq!(once["s"], twice["s"]);
    assert_eq!(twice.iter().count(), 1);
}

#[test]
fn set_then_equal_condition_holds() {
    let mut props = Props::new();
    Effect::set("can_greet", Value::from(true)).apply(&mut props);
    assert!(bevy_bae::condition::Condition::eq("can_greet", Value::from(true)).is_fullfilled(&mut props));
    Effect::set("mode", Value::from("on")).apply(&mut props);
    assert!(bevy_bae::condition::Condition::eq("mode", Value::from("on")).is_fullfilled(&mut props));
}

const ROOT: u64 = 1;

/// Plans for a root that holds an operator, with the given conditions and
/// effects (each under its entity), and checks what each planned effect does
/// to empty properties, operator by operator.
fn assert_effects(
    conditions: Vec<(u64, Condition)>,
    effects: Vec<(u64, Effect)>,
    expected: Vec<Vec<(&'static str, Value)>>,
) {
    let props = Props::new();
    let (_, checked) = check_root_conditions(&props, &conditions);
    let root_effects: Vec<(u64, bool)> = effects.iter().map(|(e, effect)| (*e, effect.plan_only)).collect();
    let plan = match decide_update(ROOT, checked, RootTask::Operator, &Mtr::none(), None, &root_effects) {
        UpdateOutcome::Cleared => Plan::default(),
        UpdateOutcome::Replaced { plan, .. } => plan,
        _ => panic!("an operator root is either cleared or planned"),
    };
    assert_eq!(plan.operators_left.len(), expected.len());
    for (op, expected) in plan.operators_left.iter().zip(expected) {
        assert_eq!(op.effects.len(), expected.len());
        for (entity, (name, value)) in op.effects.iter().zip(expected) {
            let effect = &effects.iter().find(|(e, _)| e == entity).unwrap().1;
            let mut actual = Props::new();
            effect.apply(&mut actual);
            assert_eq!(actual.iter().count(), 1);
            assert_eq!(actual[name], value);
        }
    }
}

#[test]
fn behavior_operator_has_no_effects() {
    assert_effects(vec![], vec![], vec![vec![]]);
}

#[test]
fn behavior_operator_applies_effects() {
    assert_effects(vec![], vec![(2, Effect::set("foo", Value::from(true)))], vec![vec![("foo", Value::from(true))]]);
}

#[test]
fn empty_plan_has_no_effects() {
    assert_effects(
        vec![(3, Condition::always_false())],
        vec![(2, Effect::set("foo", Value::from(true)))],
        vec![],
    );
}

#[test]
fn plan_only_effects_are_not_planned() {
    assert_effects(
        vec![],
        vec![
            (2, Effect::set("foo", Value::from(true)).plan_only()),
            (3, Effect::set("bar", Value::from(true))),
        ],
        vec![vec![("bar", Value::from(true))]],
    );
}

#[test]
fn plan_only_effect_still_applies() {
    let mut props = Props::new();
    let effect = Effect::set("foo", Value::from(true)).plan_only();
    assert!(effect.plan_only);
    effect.apply(&mut props);
    assert_eq!(props["foo"], true);
}

#[test]
fn clones_are_one_effect() {
    let e = Effect::set("foo", Value::from(true));
    assert!(e.ptr_eq(&e.clone()));
    assert!(!e.ptr_eq(&Effect::set("foo", Value::from(true))));
    // marking only one of them for planning makes them differ
    assert!(!e.ptr_eq(&e.clone().plan_only()));
    assert!(e.clone().plan_only().ptr_eq(&e.clone().plan_only()));
}
