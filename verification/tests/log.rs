use bevy_bae::plan::log::plan_log_text;
use bevy_bae::plan::mtr::Mtr;
use bevy_bae::plan::{LogPlan, Plan, PlannedOperator};
use std::collections::VecDeque;

fn names() -> Vec<(u64, String)> {
    vec![
        (1, "a".to_string()),
        (2, "b".to_string()),
        (3, "called".to_string()),
        (4, "disabled".to_string()),
    ]
}

#[test]
fn logs_plan() {
    let plan = Plan {
        operators_left: VecDeque::from(vec![
            PlannedOperator { entity: 1, effects: vec![], conditions: vec![] },
            PlannedOperator { entity: 2, effects: vec![3], conditions: vec![4] },
        ]),
        operators_total: vec![1, 2],
        mtr: Mtr(vec![0, 0]),
    };
    let text = plan_log_text("root", &plan, &names()).unwrap();
    let expected = "plan root:\n\
- mtr: 0.0\n\
- operators left (2):\n\
\x20 - a:\n\
\x20   - effects (0):\n\
\x20   - conditions (0):\n\
\x20 - b:\n\
\x20   - effects (1):\n\
\x20     - called\n\
\x20   - conditions (1):\n\
\x20     - disabled\n\
- total operators (2)\n\
\x20 - a\n\
\x20 - b\n";
    assert_eq!(text, expected);
}

#[test]
fn logs_empty_plan() {
    let text = plan_log_text("root", &Plan::new(), &vec![]).unwrap();
    assert_eq!(text, "plan root:\n- mtr: \n- operators left (0):\n- total operators (0)\n");
}

#[test]
fn unnamed_entity_fails() {
    let plan = Plan {
        operators_left: VecDeque::from(vec![PlannedOperator {
            entity: 1,
            effects: vec![9, 8],
            conditions: vec![],
        }]),
        operators_total: vec![1],
        mtr: Mtr(vec![0]),
    };
    assert_eq!(plan_log_text("root", &plan, &names()), Err(9));
}

#[test]
fn log_event_targets_entity() {
    assert_eq!(LogPlan::new(3).target(), 3);
}
