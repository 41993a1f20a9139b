use bevy_bae::condition::Condition;
use bevy_bae::plan::mtr::Mtr;
use bevy_bae::plan::update::{
    check_root_conditions, decide_update, previous_mtr, Decomposition, RootTask, UpdateOutcome,
    UpdatePlan,
};
use bevy_bae::plan::{Plan, PlanDomain, PlannedOperator};
use bevy_mod_props::props::{Props, Value};
use std::collections::VecDeque;

fn op(entity: u64, effects: Vec<u64>, conditions: Vec<u64>) -> PlannedOperator {
    PlannedOperator { entity, effects, conditions }
}

fn plan(ops: Vec<PlannedOperator>, total: Vec<u64>, mtr: Vec<u16>) -> Plan {
    Plan { operators_left: VecDeque::from(ops), operators_total: total, mtr: Mtr(mtr) }
}

fn entities(p: &Plan) -> Vec<u64> {
    p.operators_left.iter().map(|o| o.entity).collect()
}

#[test]
fn new_plan_is_empty() {
    let p = Plan::new();
    assert!(p.operators_left.is_empty());
    assert!(p.operators_total.is_empty());
    assert!(p.mtr.is_empty());
    assert_eq!(PlanDomain::default(), PlanDomain::This);
    assert_eq!(UpdatePlan::new(7).entity, 7);
}

#[test]
fn clear_empties_plan() {
    let mut p = plan(vec![op(1, vec![], vec![])], vec![1], vec![0]);
    p.clear();
    assert!(p.operators_left.is_empty());
    assert!(p.operators_total.is_empty());
    assert!(p.mtr.is_empty());
}

#[test]
fn conditions_all_hold() {
    let mut props = Props::new();
    props.set("ready", true);
    let conditions = vec![
        (10, Condition::eq("ready", Value::from(true))),
        (11, Condition::always_true()),
    ];
    let (after, checked) = check_root_conditions(&props, &conditions);
    assert_eq!(checked, Some(vec![10, 11]));
    assert_eq!(after.iter().count(), 1);
}

#[test]
fn conditions_stop_at_first_failure() {
    let props = Props::new();
    let conditions = vec![
        (10, Condition::eq("a", Value::from(false))),
        (11, Condition::always_false()),
        (12, Condition::eq("b", Value::from(false))),
    ];
    let (after, checked) = check_root_conditions(&props, &conditions);
    assert_eq!(checked, None);
    // the first condition set its property to the default on the copy, the third never ran
    assert_eq!(after.iter().count(), 1);
    assert_eq!(after["a"], false);
    // the properties themselves are left as they were
    assert_eq!(props.iter().count(), 0);
}

#[test]
fn missing_tasks() {
    let out = decide_update(1, Some(vec![]), RootTask::Missing, &Mtr::none(), None, &vec![]);
    assert!(matches!(out, UpdateOutcome::MissingTasks));
}

#[test]
fn operator_root_plans_itself() {
    let out = decide_update(5, Some(vec![8, 9]), RootTask::Operator, &Mtr::none(), None, &vec![(3, false), (4, false)]);
    match out {
        UpdateOutcome::Replaced { plan, event } => {
            assert_eq!(entities(&plan), vec![5]);
            assert_eq!(plan.operators_left[0].effects, vec![3, 4]);
            assert_eq!(plan.operators_left[0].conditions, vec![8, 9]);
            assert_eq!(plan.operators_total, vec![5]);
            assert!(plan.mtr.is_empty());
            assert_eq!(event.entity, 5);
            assert!(event.old.operators_left.is_empty());
        }
        _ => panic!("expected a new plan"),
    }
}

#[test]
fn found_plan_gets_root_effects_on_last_operator() {
    let found = plan(
        vec![op(2, vec![20], vec![30]), op(3, vec![21], vec![])],
        vec![],
        vec![0, 1],
    );
    let out = decide_update(1, Some(vec![]), RootTask::Compound(Decomposition::Success(found)), &Mtr::none(), None, &vec![(98, true), (99, false)]);
    match out {
        UpdateOutcome::Replaced { plan, .. } => {
            assert_eq!(entities(&plan), vec![2, 3]);
            assert_eq!(plan.operators_left[0].effects, vec![20]);
            assert_eq!(plan.operators_left[1].effects, vec![21, 99]);
            assert_eq!(plan.operators_total, vec![2, 3]);
            assert_eq!(plan.mtr.0, vec![0, 1]);
        }
        _ => panic!("expected a new plan"),
    }
}

#[test]
fn same_plan_is_kept() {
    let previous = plan(vec![op(3, vec![], vec![])], vec![2, 3], vec![0, 1]);
    let found = plan(vec![op(2, vec![], vec![]), op(3, vec![], vec![])], vec![], vec![0, 1]);
    let mtr = previous_mtr(&Some(previous.clone()));
    let out = decide_update(1, Some(vec![]), RootTask::Compound(Decomposition::Success(found)), &mtr, Some(previous), &vec![]);
    assert!(matches!(out, UpdateOutcome::Kept));
}

#[test]
fn different_plan_replaces() {
    let previous = plan(vec![op(3, vec![], vec![])], vec![2, 3], vec![1]);
    let found = plan(vec![op(4, vec![], vec![])], vec![], vec![0]);
    let mtr = previous_mtr(&Some(previous.clone()));
    let out = decide_update(1, Some(vec![]), RootTask::Compound(Decomposition::Success(found)), &mtr, Some(previous), &vec![]);
    match out {
        UpdateOutcome::Replaced { plan, event } => {
            assert_eq!(entities(&plan), vec![4]);
            assert_eq!(event.old.operators_total, vec![2, 3]);
            assert_eq!(event.entity, 1);
        }
        _ => panic!("expected a new plan"),
    }
}

#[test]
fn rejection_keeps_and_failure_empties() {
    let previous = plan(vec![op(3, vec![], vec![])], vec![3], vec![1]);
    let mtr = previous_mtr(&Some(previous.clone()));
    let out = decide_update(1, Some(vec![]), RootTask::Compound(Decomposition::Rejection), &mtr, Some(previous.clone()), &vec![(7, false)]);
    assert!(matches!(out, UpdateOutcome::Kept));
    let out = decide_update(1, Some(vec![]), RootTask::Compound(Decomposition::Failure), &mtr, Some(previous), &vec![(7, false)]);
    match out {
        UpdateOutcome::Replaced { plan, event } => {
            assert!(plan.operators_left.is_empty());
            assert!(plan.operators_total.is_empty());
            assert_eq!(event.old.operators_total, vec![3]);
        }
        _ => panic!("expected an empty plan"),
    }
}

#[test]
fn previous_record() {
    assert!(previous_mtr(&None).is_empty());
    let p = plan(vec![], vec![], vec![4, 2]);
    assert_eq!(previous_mtr(&Some(p)).0, vec![4, 2]);
}

#[test]
fn failed_condition_clears_plan() {
    let previous = plan(vec![op(3, vec![], vec![])], vec![3], vec![1]);
    let mtr = previous_mtr(&Some(previous.clone()));
    let out = decide_update(1, None, RootTask::Operator, &mtr, Some(previous.clone()), &vec![(7, false)]);
    assert!(matches!(out, UpdateOutcome::Cleared));
    let found = plan(vec![op(4, vec![], vec![])], vec![], vec![0]);
    let out = decide_update(1, None, RootTask::Compound(Decomposition::Success(found)), &mtr, Some(previous), &vec![]);
    assert!(matches!(out, UpdateOutcome::Cleared));
}
