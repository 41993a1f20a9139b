use bevy_bae::condition::{Condition, PropsPredicate, ValuePredicate};
use bevy_mod_props::props::{Props, Value};

struct HasFlag;

impl PropsPredicate for HasFlag {
    fn test(&self, props: &mut Props) -> bool {
        props.get::<bool>("flag")
    }
}

struct BothTrue;

impl ValuePredicate for BothTrue {
    fn test(&self, prop: Value, value: Value) -> bool {
        prop == true && value == true
    }
}

#[test]
fn unset_property_is_false() {
    let mut props = Props::new();
    assert!(!Condition::eq("can_greet", Value::from(true)).is_fullfilled(&mut props));
    // the queried property now holds the default
    assert_eq!(props.iter().count(), 1);
    assert_eq!(props["can_greet"], false);
    assert!(Condition::eq("other", Value::from(false)).is_fullfilled(&mut props));
}

#[test]
fn set_property_fulfills_eq() {
    let mut props = Props::new();
    props.set("can_greet", true);
    assert!(Condition::eq("can_greet", Value::from(true)).is_fullfilled(&mut props));
    assert!(!Condition::ne("can_greet", Value::from(true)).is_fullfilled(&mut props));
}

#[test]
fn string_properties_compare_by_content() {
    let mut props = Props::new();
    props.set("greet_mode", "on");
    assert!(Condition::eq("greet_mode", Value::from("on")).is_fullfilled(&mut props));
    assert!(!Condition::eq("greet_mode", Value::from("ending")).is_fullfilled(&mut props));
    assert!(Condition::ge("greet_mode", Value::from("on")).is_fullfilled(&mut props));
    assert!(Condition::le("greet_mode", Value::from("on")).is_fullfilled(&mut props));
}

#[test]
fn numeric_comparisons() {
    let mut props = Props::new();
    props.set("health", 50.0f32);
    assert!(Condition::gt("health", Value::from(10.0f32)).is_fullfilled(&mut props));
    assert!(Condition::ge("health", Value::from(50.0f32)).is_fullfilled(&mut props));
    assert!(!Condition::lt("health", Value::from(50.0f32)).is_fullfilled(&mut props));
    assert!(Condition::le("health", Value::from(50.0f32)).is_fullfilled(&mut props));
    assert!(Condition::lt("health", Value::from(51.0f32)).is_fullfilled(&mut props));
}

#[test]
fn different_kinds_are_unordered() {
    let mut props = Props::new();
    props.set("x", true);
    assert!(!Condition::gt("x", Value::from(1.0f32)).is_fullfilled(&mut props));
    assert!(!Condition::le("x", Value::from(1.0f32)).is_fullfilled(&mut props));
    assert!(!Condition::eq("x", Value::from(1.0f32)).is_fullfilled(&mut props));
    assert!(Condition::ne("x", Value::from(1.0f32)).is_fullfilled(&mut props));
}

#[test]
fn booleans_order_false_first() {
    let mut props = Props::new();
    props.set("b", false);
    assert!(Condition::lt("b", Value::from(true)).is_fullfilled(&mut props));
    assert!(!Condition::gt("b", Value::from(true)).is_fullfilled(&mut props));
}

#[test]
fn constant_conditions() {
    let mut props = Props::new();
    assert!(Condition::always_true().is_fullfilled(&mut props));
    assert!(!Condition::always_false().is_fullfilled(&mut props));
    assert_eq!(props.iter().count(), 0);
}

#[test]
fn custom_conditions() {
    let mut props = Props::new();
    let c = Condition::new(Box::new(HasFlag));
    assert!(!c.is_fullfilled(&mut props));
    props.set("flag", true);
    assert!(c.clone().is_fullfilled(&mut props));

    let d = Condition::cmp("b", Value::from(true), Box::new(BothTrue));
    assert!(!d.is_fullfilled(&mut props));
    assert_eq!(props["b"], false);
    props.set("b", true);
    assert!(d.is_fullfilled(&mut props));
}

#[test]
fn clones_are_one_condition() {
    let c = Condition::eq("a", Value::from(true));
    let d = c.clone();
    assert!(c.ptr_eq(&d));
    assert!(!c.ptr_eq(&Condition::eq("a", Value::from(true))));
    let custom = Condition::new(Box::new(HasFlag));
    assert!(custom.ptr_eq(&custom.clone()));
    assert!(!custom.ptr_eq(&c));
}
