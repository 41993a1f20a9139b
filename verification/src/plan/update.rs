//! Updating a plan: the [`UpdatePlan`] event and the decisions taken on it.
//!
//! Updating the plan of an entity happens in two steps around the
//! decomposition of its compound task, which runs elsewhere: first the
//! conditions of the entity are checked against its properties
//! ([`check_root_conditions`]), then the outcome of the decomposition decides
//! what becomes of the plan ([`decide_update`]).

use crate::condition::{evaluation, Condition, ConditionView};
use crate::plan::mtr::{agree_on_common_prefix, Mtr};
use crate::plan::{empty_plan, Plan, PlanView, PlannedOperator, PlannedOperatorView};
use crate::props::{props_clone, props_contents, PropVal};
use bevy_mod_props::props::Props;
use std::collections::VecDeque;
use vstd::prelude::*;

verus! {

/// Event for updating a plan. Trigger this on an entity with a [`Plan`] to update its plan.
/// Updating it will only have an effect if the new plan found has a higher priority than the current one.
/// This ensures that ongoing sequences are not suddenly interrupted when updating the plan.
/// If you want to instead wipe the slate clean, insert [`Plan::new`] instead, or call [`Plan::clear`].
pub struct UpdatePlan {
    /// The entity holding the [`Plan`] to update.
    pub entity: u64,
}

impl UpdatePlan {
    /// Create a new [`UpdatePlan`] event for the given entity.
    pub fn new(entity: u64) -> (r: Self)
        ensures
            r.entity == entity,
    {
        UpdatePlan { entity }
    }
}

impl From<u64> for UpdatePlan {
    fn from(entity: u64) -> (r: Self) {
        UpdatePlan { entity }
    }
}

impl vstd::std_specs::convert::FromSpecImpl<u64> for UpdatePlan {
    open spec fn obeys_from_spec() -> bool {
        true
    }

    open spec fn from_spec(entity: u64) -> Self {
        UpdatePlan { entity }
    }
}

/// Event triggered automatically when a plan is replaced.
pub struct ReplacePlan {
    /// The entity holding the [`Plan`] that was replaced.
    pub entity: u64,
    /// The previous value of the [`Plan`].
    pub old: Plan,
    /// Here so users cannot accidentally create a [`ReplacePlan`] when they were
    /// actually looking for [`UpdatePlan`].
    _private: (),
}

/// A replaced plan event as its entity and the plan it replaced (its private
/// field holds nothing).
pub struct ReplacePlanView {
    pub entity: u64,
    pub old: PlanView,
}

impl View for ReplacePlan {
    type V = ReplacePlanView;

    open spec fn view(&self) -> ReplacePlanView {
        self.view_event()
    }
}

impl ReplacePlan {
    /// The entity and the plan that was replaced.
    pub closed spec fn view_event(&self) -> ReplacePlanView {
        ReplacePlanView { entity: self.entity, old: self.old@ }
    }
}

/// What decomposing the compound task of the root gave.
pub enum Decomposition {
    /// A plan was found.
    Success(Plan),
    /// No plan could be found.
    Failure,
    /// The plan being run is to be kept.
    Rejection,
}

/// The task held by the root entity, with what its decomposition gave when it
/// is a compound task.
pub enum RootTask {
    /// The root holds an operator.
    Operator,
    /// The root holds a compound task, which was decomposed.
    Compound(Decomposition),
    /// The root holds neither.
    Missing,
}

/// What becomes of the plan of the root.
pub enum UpdateOutcome {
    /// A condition of the root failed: the plan is replaced by an empty one, without a [`ReplacePlan`] event.
    Cleared,
    /// The plan is left as it is.
    Kept,
    /// The plan is replaced by `plan`, and `event` is triggered.
    Replaced { plan: Plan, event: ReplacePlan },
    /// The root holds no task: the plan is replaced by an empty one, and the update fails.
    MissingTasks,
}

/// A decomposition outcome as plan views.
pub enum DecompositionView {
    Success(PlanView),
    Failure,
    Rejection,
}

/// A root task as plan views.
pub enum RootTaskView {
    Operator,
    Compound(DecompositionView),
    Missing,
}

/// An update outcome as plan views.
pub enum UpdateOutcomeView {
    Cleared,
    Kept,
    Replaced { plan: PlanView, entity: u64, old: PlanView },
    MissingTasks,
}

impl View for Decomposition {
    type V = DecompositionView;

    open spec fn view(&self) -> DecompositionView {
        match self {
            Decomposition::Success(p) => DecompositionView::Success(p@),
            Decomposition::Failure => DecompositionView::Failure,
            Decomposition::Rejection => DecompositionView::Rejection,
        }
    }
}

impl View for RootTask {
    type V = RootTaskView;

    open spec fn view(&self) -> RootTaskView {
        match self {
            RootTask::Operator => RootTaskView::Operator,
            RootTask::Compound(d) => RootTaskView::Compound(d@),
            RootTask::Missing => RootTaskView::Missing,
        }
    }
}

impl View for UpdateOutcome {
    type V = UpdateOutcomeView;

    open spec fn view(&self) -> UpdateOutcomeView {
        match self {
            UpdateOutcome::Cleared => UpdateOutcomeView::Cleared,
            UpdateOutcome::Kept => UpdateOutcomeView::Kept,
            UpdateOutcome::Replaced { plan, event } => UpdateOutcomeView::Replaced {
                plan: plan@,
                entity: event@.entity,
                old: event@.old,
            },
            UpdateOutcome::MissingTasks => UpdateOutcomeView::MissingTasks,
        }
    }
}

/// The entities of a sequence of planned operators.
pub open spec fn operator_entities(ops: Seq<PlannedOperatorView>) -> Seq<u64> {
    ops.map_values(|o: PlannedOperatorView| o.entity)
}

/// The record of the plan being run, or the empty record when there is none.
pub open spec fn previous_record(previous: Option<PlanView>) -> Seq<u16> {
    match previous {
        Some(p) => p.mtr,
        None => Seq::empty(),
    }
}

/// Whether the plan `found` is the plan already being run: its record agrees
/// with the record `previous_mtr` of the plan being run, and its operators are
/// those the previous plan was created with.
pub open spec fn is_running(
    previous_mtr: Seq<u16>,
    previous: Option<PlanView>,
    found: PlanView,
) -> bool {
    &&& previous is Some
    &&& agree_on_common_prefix(previous_mtr, found.mtr)
    &&& previous->0.operators_total == operator_entities(found.operators_left)
}

/// The plan that holds only the root's operator, with the root's conditions.
pub open spec fn single_operator_plan(root: u64, conditions: Seq<u64>) -> PlanView {
    PlanView {
        operators_left: seq![PlannedOperatorView { entity: root, effects: Seq::empty(), conditions }],
        operators_total: Seq::empty(),
        mtr: Seq::empty(),
    }
}

/// The entities of the effects, given as an entity and whether the effect is
/// only for planning, that are applied after a step: those not only for
/// planning, in order.
pub open spec fn applied_effects(effects: Seq<(u64, bool)>) -> Seq<u64>
    decreases effects.len(),
{
    if effects.len() == 0 {
        Seq::empty()
    } else {
        let rest = applied_effects(effects.drop_last());
        if effects.last().1 {
            rest
        } else {
            rest.push(effects.last().0)
        }
    }
}

/// A plan as it is inserted: the effects of the root that are not only for
/// planning are added to those of its last operator, and the operators it is
/// created with are recorded.
pub open spec fn finalized(plan: PlanView, root_effects: Seq<(u64, bool)>) -> PlanView {
    let ops = plan.operators_left;
    let ops = if ops.len() > 0 {
        let last = ops.last();
        ops.update(
            ops.len() - 1,
            PlannedOperatorView { effects: last.effects + applied_effects(root_effects), ..last },
        )
    } else {
        ops
    };
    PlanView { operators_left: ops, operators_total: operator_entities(ops), mtr: plan.mtr }
}

/// What becomes of the plan of `root`, given what checking its conditions
/// gave (`None` when one failed, else their entities), its task, the record
/// and the plan being run, and its effects.
pub open spec fn update_outcome(
    root: u64,
    conditions: Option<Seq<u64>>,
    task: RootTaskView,
    previous_mtr: Seq<u16>,
    previous: Option<PlanView>,
    root_effects: Seq<(u64, bool)>,
) -> UpdateOutcomeView {
    let old = match previous {
        Some(p) => p,
        None => empty_plan(),
    };
    match conditions {
        None => UpdateOutcomeView::Cleared,
        Some(conditions) => match task {
            RootTaskView::Missing => UpdateOutcomeView::MissingTasks,
            RootTaskView::Operator => UpdateOutcomeView::Replaced {
                plan: finalized(single_operator_plan(root, conditions), root_effects),
                entity: root,
                old,
            },
            RootTaskView::Compound(DecompositionView::Rejection) => UpdateOutcomeView::Kept,
            RootTaskView::Compound(DecompositionView::Failure) => UpdateOutcomeView::Replaced {
                plan: finalized(empty_plan(), root_effects),
                entity: root,
                old,
            },
            RootTaskView::Compound(DecompositionView::Success(found)) => if is_running(
                previous_mtr,
                previous,
                found,
            ) {
                UpdateOutcomeView::Kept
            } else {
                UpdateOutcomeView::Replaced {
                    plan: finalized(found, root_effects),
                    entity: root,
                    old,
                }
            },
        },
    }
}

/// Whether `states` is a run of the conditions `conditions`, one after the
/// other, all fulfilled: `states[i]` are the properties before evaluating
/// `conditions[i]`, and `states[i + 1]` those after.
pub open spec fn fulfilled_run(
    conditions: Seq<ConditionView>,
    states: Seq<Map<u64, PropVal>>,
) -> bool {
    &&& states.len() == conditions.len() + 1
    &&& forall|i: int|
        #![trigger conditions[i]]
        0 <= i < conditions.len() ==> evaluation(conditions[i], states[i], true, states[i + 1])
}

/// Whether evaluating the conditions `conditions` one after the other, all
/// fulfilled, may lead from the properties `before` to `after`.
pub open spec fn all_fulfilled(
    conditions: Seq<ConditionView>,
    before: Map<u64, PropVal>,
    after: Map<u64, PropVal>,
) -> bool {
    exists|states: Seq<Map<u64, PropVal>>|
        #![trigger fulfilled_run(conditions, states)]
        fulfilled_run(conditions, states) && states[0] == before && states.last() == after
}

/// Whether evaluating the conditions `conditions` one after the other may
/// stop at the first unfulfilled one, leading from `before` to `after`.
pub open spec fn stops_unfulfilled(
    conditions: Seq<ConditionView>,
    before: Map<u64, PropVal>,
    after: Map<u64, PropVal>,
) -> bool {
    exists|k: int, mid: Map<u64, PropVal>|
        #![trigger all_fulfilled(conditions.take(k), before, mid)]
        0 <= k < conditions.len() && all_fulfilled(conditions.take(k), before, mid) && evaluation(
            conditions[k],
            mid,
            false,
            after,
        )
}

/// The conditions of a list of condition entities.
pub open spec fn condition_views(conditions: Seq<(u64, Condition)>) -> Seq<ConditionView> {
    conditions.map_values(|c: (u64, Condition)| c.1@)
}

/// The entities of a list of condition entities.
pub open spec fn condition_entities(conditions: Seq<(u64, Condition)>) -> Seq<u64> {
    conditions.map_values(|c: (u64, Condition)| c.0)
}

/// Checks the conditions of the root, in order, on a copy of its properties
/// `props`, which evaluation may change and which is answered too. Stops at
/// the first condition that is not fulfilled and answers `None`; otherwise
/// answers the entities of all the conditions.
pub fn check_root_conditions(props: &Props, conditions: &Vec<(u64, Condition)>) -> (r: (
    Props,
    Option<Vec<u64>>,
))
    ensures
        match r.1 {
            Some(entities) => {
                &&& entities@ == condition_entities(conditions@)
                &&& all_fulfilled(
                    condition_views(conditions@),
                    props_contents(*props),
                    props_contents(r.0),
                )
            },
            None => stops_unfulfilled(
                condition_views(conditions@),
                props_contents(*props),
                props_contents(r.0),
            ),
        },
{
    let mut world_state = props_clone(props);
    let ghost before = props_contents(world_state);
    let ghost views = condition_views(conditions@);
    let ghost mut states: Seq<Map<u64, PropVal>> = seq![before];
    let mut entities: Vec<u64> = Vec::new();
    let mut i: usize = 0;
    while i < conditions.len()
        invariant
            i <= conditions@.len(),
            before == props_contents(*props),
            views == condition_views(conditions@),
            entities@ == condition_entities(conditions@).take(i as int),
            fulfilled_run(views.take(i as int), states),
            states[0] == before,
            states.last() == props_contents(world_state),
        decreases conditions@.len() - i,
    {
        let ghost mid = props_contents(world_state);
        let fulfilled = conditions[i].1.is_fullfilled(&mut world_state);
        let ghost after = props_contents(world_state);
        assert(views[i as int] == conditions@[i as int].1@);
        if !fulfilled {
            assert(fulfilled_run(views.take(i as int), states));
            assert(all_fulfilled(views.take(i as int), before, mid));
            assert(evaluation(views[i as int], mid, false, after));
            return (world_state, None);
        }
        entities.push(conditions[i].0);
        proof {
            let prev = views.take(i as int);
            let next = views.take(i + 1);
            let old_states = states;
            states = states.push(after);
            assert forall|j: int| #![trigger next[j]] 0 <= j < next.len() implies evaluation(
                next[j],
                states[j],
                true,
                states[j + 1],
            ) by {
                if j < i {
                    assert(next[j] == prev[j]);
                    assert(states[j] == old_states[j]);
                    assert(states[j + 1] == old_states[j + 1]);
                } else {
                    assert(next[j] == views[i as int]);
                }
            }
        }
        i = i + 1;
        assert(entities@ =~= condition_entities(conditions@).take(i as int));
    }
    assert(views.take(i as int) =~= views);
    assert(entities@ =~= condition_entities(conditions@));
    (world_state, Some(entities))
}

/// The record of the plan being run, or the empty record when there is none.
pub fn previous_mtr(previous: &Option<Plan>) -> (r: Mtr)
    ensures
        r@ == previous_record(
            match previous {
                Some(p) => Some(p@),
                None => None,
            },
        ),
{
    match previous {
        Some(p) => p.mtr.clone(),
        None => Mtr::none(),
    }
}

/// Whether the plan being run is the plan just found.
fn is_running_plan(previous_mtr: &Mtr, previous: &Option<Plan>, found: &Plan) -> (r: bool)
    ensures
        r == is_running(
            previous_mtr@,
            match previous {
                Some(p) => Some(p@),
                None => None,
            },
            found@,
        ),
{
    if !(*previous_mtr == found.mtr) {
        return false;
    }
    match previous {
        None => false,
        Some(prev) => {
            let total = &prev.operators_total;
            let left = &found.operators_left;
            if total.len() != left.len() {
                return false;
            }
            let ghost ents = operator_entities(found@.operators_left);
            let mut i: usize = 0;
            while i < total.len()
                invariant
                    i <= total@.len(),
                    total@.len() == left@.len(),
                    total == &prev.operators_total,
                    *previous == Some(*prev),
                    agree_on_common_prefix(previous_mtr@, found@.mtr),
                    left == &found.operators_left,
                    ents == operator_entities(found@.operators_left),
                    forall|j: int| 0 <= j < i ==> total@[j] == ents[j],
                decreases total@.len() - i,
            {
                assert(ents[i as int] == left@[i as int].entity);
                if total[i] != left[i].entity {
                    assert(total@[i as int] != ents[i as int]);
                    assert(prev@.operators_total != ents);
                    return false;
                }
                i = i + 1;
            }
            assert(total@ =~= ents);
            true
        },
    }
}

/// Adds the effects of the root that are not only for planning to the last
/// operator of the plan, and records the operators the plan is created with.
fn finalize(plan: Plan, root_effects: &Vec<(u64, bool)>) -> (r: Plan)
    ensures
        r@ == finalized(plan@, root_effects@),
{
    let ghost expected = finalized(plan@, root_effects@);
    let mut plan = plan;
    let ghost before = plan@;
    if plan.operators_left.len() > 0 {
        let mut last = plan.operators_left.pop_back().unwrap();
        let mut k: usize = 0;
        while k < root_effects.len()
            invariant
                k <= root_effects@.len(),
                last@.entity == before.operators_left.last().entity,
                last@.conditions == before.operators_left.last().conditions,
                last@.effects == before.operators_left.last().effects + applied_effects(
                    root_effects@.subrange(0, k as int),
                ),
            decreases root_effects@.len() - k,
        {
            let ghost done = root_effects@.subrange(0, k as int);
            let ghost next = root_effects@.subrange(0, k + 1);
            assert(next.drop_last() =~= done);
            assert(next.last() == root_effects@[k as int]);
            let (entity, plan_only) = root_effects[k];
            if !plan_only {
                last.effects.push(entity);
            }
            k = k + 1;
            assert(last@.effects =~= before.operators_left.last().effects + applied_effects(
                root_effects@.subrange(0, k as int),
            ));
        }
        assert(root_effects@.subrange(0, k as int) =~= root_effects@);
        plan.operators_left.push_back(last);
        assert(plan@.operators_left =~= expected.operators_left);
    } else {
        assert(plan@.operators_left =~= expected.operators_left);
    }
    let ghost ops = plan@.operators_left;
    let mut total: Vec<u64> = Vec::new();
    let mut i: usize = 0;
    while i < plan.operators_left.len()
        invariant
            i <= plan.operators_left@.len(),
            ops == plan@.operators_left,
            total@ == operator_entities(ops).take(i as int),
        decreases plan.operators_left@.len() - i,
    {
        total.push(plan.operators_left[i].entity);
        i = i + 1;
        assert(total@ =~= operator_entities(ops).take(i as int));
    }
    assert(total@ =~= operator_entities(ops));
    plan.operators_total = total;
    plan
}

/// Decides what becomes of the plan of `root`, given what checking its
/// conditions gave (`None` when one failed, else their entities), the task it
/// holds, the record of the plan being run when the update started, the plan
/// being run, and its effects, each as its entity and whether it is only for
/// planning.
pub fn decide_update(
    root: u64,
    conditions: Option<Vec<u64>>,
    task: RootTask,
    previous_mtr: &Mtr,
    previous: Option<Plan>,
    root_effects: &Vec<(u64, bool)>,
) -> (r: UpdateOutcome)
    ensures
        r@ == update_outcome(
            root,
            match conditions {
                Some(c) => Some(c@),
                None => None,
            },
            task@,
            previous_mtr@,
            match previous {
                Some(p) => Some(p@),
                None => None,
            },
            root_effects@,
        ),
{
    let conditions = match conditions {
        None => {
            return UpdateOutcome::Cleared;
        },
        Some(c) => c,
    };
    let plan = match task {
        RootTask::Missing => {
            return UpdateOutcome::MissingTasks;
        },
        RootTask::Operator => {
            let mut operators_left: VecDeque<PlannedOperator> = VecDeque::new();
            operators_left.push_back(
                PlannedOperator { entity: root, effects: Vec::new(), conditions },
            );
            let p = Plan { operators_left, operators_total: Vec::new(), mtr: Mtr::none() };
            assert(p@.operators_left =~= single_operator_plan(root, conditions@).operators_left);
            p
        },
        RootTask::Compound(Decomposition::Rejection) => {
            return UpdateOutcome::Kept;
        },
        RootTask::Compound(Decomposition::Failure) => Plan::new(),
        RootTask::Compound(Decomposition::Success(found)) => {
            if is_running_plan(previous_mtr, &previous, &found) {
                return UpdateOutcome::Kept;
            }
            found
        },
    };
    let plan = finalize(plan, root_effects);
    let old = match previous {
        Some(p) => p,
        None => Plan::new(),
    };
    UpdateOutcome::Replaced { plan, event: ReplacePlan { entity: root, old, _private: () } }
}

/// When a condition of the root fails, the plan is cleared, whatever the task,
/// the plan being run and the effects.
pub proof fn law_failed_condition_clears_plan(
    root: u64,
    task: RootTaskView,
    previous_mtr: Seq<u16>,
    previous: Option<PlanView>,
    root_effects: Seq<(u64, bool)>,
)
    ensures
        update_outcome(root, None, task, previous_mtr, previous, root_effects) is Cleared,
{
}

/// Every plan put in place by an update records, as all its operators, the
/// operators it starts with.
pub proof fn law_replaced_plan_records_its_operators(
    root: u64,
    conditions: Option<Seq<u64>>,
    task: RootTaskView,
    previous_mtr: Seq<u16>,
    previous: Option<PlanView>,
    root_effects: Seq<(u64, bool)>,
)
    requires
        update_outcome(root, conditions, task, previous_mtr, previous, root_effects) is Replaced,
    ensures
        ({
            let plan = update_outcome(
                root,
                conditions,
                task,
                previous_mtr,
                previous,
                root_effects,
            )->plan;
            plan.operators_total == operator_entities(plan.operators_left)
        }),
{
}

/// An update that finds the plan already being run keeps it, and so does one
/// whose decomposition rejects the new plan.
pub proof fn law_running_plan_is_kept(
    root: u64,
    conditions: Seq<u64>,
    found: PlanView,
    previous_mtr: Seq<u16>,
    previous: Option<PlanView>,
    root_effects: Seq<(u64, bool)>,
)
    requires
        is_running(previous_mtr, previous, found),
    ensures
        update_outcome(
            root,
            Some(conditions),
            RootTaskView::Compound(DecompositionView::Success(found)),
            previous_mtr,
            previous,
            root_effects,
        ) is Kept,
        update_outcome(
            root,
            Some(conditions),
            RootTaskView::Compound(DecompositionView::Rejection),
            previous_mtr,
            previous,
            root_effects,
        ) is Kept,
{
}

/// The effects of the root that are not only for planning go to the last
/// operator of a new plan only; all other operators, and the order of the
/// operators, stay as they were found.
pub proof fn law_root_effects_go_to_last_operator(plan: PlanView, root_effects: Seq<(u64, bool)>)
    requires
        plan.operators_left.len() > 0,
    ensures
        ({
            let done = finalized(plan, root_effects);
            let n = plan.operators_left.len() - 1;
            &&& done.operators_left.len() == plan.operators_left.len()
            &&& forall|i: int|
                0 <= i < n ==> #[trigger] done.operators_left[i] == plan.operators_left[i]
            &&& done.operators_left[n].entity == plan.operators_left[n].entity
            &&& done.operators_left[n].conditions == plan.operators_left[n].conditions
            &&& done.operators_left[n].effects == plan.operators_left[n].effects + applied_effects(
                root_effects,
            )
            &&& done.mtr == plan.mtr
        }),
{
}

/// An entity is among the applied effects exactly when some effect of that
/// entity is not only for planning.
pub proof fn lemma_applied_effects(effects: Seq<(u64, bool)>, e: u64)
    ensures
        applied_effects(effects).contains(e) <==> exists|i: int|
            0 <= i < effects.len() && #[trigger] effects[i] == (e, false),
    decreases effects.len(),
{
    if effects.len() > 0 {
        let rest = effects.drop_last();
        let last = effects.last();
        let applied = applied_effects(effects);
        let before = applied_effects(rest);
        lemma_applied_effects(rest, e);
        if exists|i: int| 0 <= i < rest.len() && #[trigger] rest[i] == (e, false) {
            let i = choose|i: int| 0 <= i < rest.len() && #[trigger] rest[i] == (e, false);
            assert(effects[i] == rest[i]);
        }
        if exists|i: int| 0 <= i < effects.len() && #[trigger] effects[i] == (e, false) {
            let i = choose|i: int| 0 <= i < effects.len() && #[trigger] effects[i] == (e, false);
            if i < rest.len() {
                assert(rest[i] == effects[i]);
            }
        }
        if !last.1 {
            assert(applied == before.push(last.0));
            if before.contains(e) {
                let j = choose|j: int| 0 <= j < before.len() && before[j] == e;
                assert(applied[j] == e);
            }
            if last.0 == e {
                assert(applied[applied.len() - 1] == e);
                assert(effects[effects.len() - 1] == (e, false));
            }
            if applied.contains(e) {
                let j = choose|j: int| 0 <= j < applied.len() && applied[j] == e;
                if j < before.len() {
                    assert(before[j] == e);
                }
            }
        }
    }
}

/// An effect that is only for planning is never planned to be applied: the
/// last operator of a new plan holds the entity of such an effect only if the
/// plan as found already held it there.
pub proof fn law_plan_only_effects_are_not_planned(
    plan: PlanView,
    root_effects: Seq<(u64, bool)>,
    e: u64,
)
    requires
        plan.operators_left.len() > 0,
        !plan.operators_left.last().effects.contains(e),
        forall|i: int| 0 <= i < root_effects.len() && root_effects[i].0 == e ==> root_effects[i].1,
    ensures
        !finalized(plan, root_effects).operators_left.last().effects.contains(e),
{
    lemma_applied_effects(root_effects, e);
    let done = finalized(plan, root_effects);
    let a = plan.operators_left.last().effects;
    let b = applied_effects(root_effects);
    assert(done.operators_left.last().effects == a + b);
    if (a + b).contains(e) {
        let k = choose|k: int| 0 <= k < (a + b).len() && (a + b)[k] == e;
        if k < a.len() {
            assert(a[k] == e);
        } else {
            assert(b[k - a.len()] == e);
        }
    }
}

/// When no plan can be found, the plan is replaced by an empty one, which the
/// effects of the root do not reach.
pub proof fn law_failure_empties_plan(
    root: u64,
    conditions: Seq<u64>,
    previous_mtr: Seq<u16>,
    previous: Option<PlanView>,
    root_effects: Seq<(u64, bool)>,
)
    ensures
        ({
            let outcome = update_outcome(
                root,
                Some(conditions),
                RootTaskView::Compound(DecompositionView::Failure),
                previous_mtr,
                previous,
                root_effects,
            );
            &&& outcome is Replaced
            &&& outcome->plan == empty_plan()
        }),
{
    let done = finalized(empty_plan(), root_effects);
    assert(done.operators_total =~= Seq::<u64>::empty());
    assert(done == empty_plan());
}

/// A root that holds an operator plans exactly that operator, with the
/// conditions of the root and those of its effects that are not only for
/// planning.
pub proof fn law_operator_root_plans_itself(
    root: u64,
    conditions: Seq<u64>,
    previous_mtr: Seq<u16>,
    previous: Option<PlanView>,
    root_effects: Seq<(u64, bool)>,
)
    ensures
        ({
            let outcome = update_outcome(
                root,
                Some(conditions),
                RootTaskView::Operator,
                previous_mtr,
                previous,
                root_effects,
            );
            &&& outcome is Replaced
            &&& outcome->plan.operators_left.len() == 1
            &&& outcome->plan.operators_left[0] == (PlannedOperatorView {
                entity: root,
                effects: applied_effects(root_effects),
                conditions,
            })
            &&& outcome->plan.operators_total == seq![root]
            &&& outcome->plan.mtr.len() == 0
        }),
{
    let outcome = update_outcome(
        root,
        Some(conditions),
        RootTaskView::Operator,
        previous_mtr,
        previous,
        root_effects,
    );
    let ops = outcome->plan.operators_left;
    assert(Seq::<u64>::empty() + applied_effects(root_effects) =~= applied_effects(root_effects));
    assert(operator_entities(ops) =~= seq![root]);
}

/// A plan found by decomposition is kept out only when it is the plan being
/// run: the update keeps the current plan only if there is one, whose
/// recorded operators are exactly the operators of the found plan, and whose
/// record agrees with the found one. Otherwise the found plan is put in place,
/// with its operators, its record, and its operators recorded as all its
/// operators.
pub proof fn law_found_plan_replaces_unless_running(
    root: u64,
    conditions: Seq<u64>,
    found: PlanView,
    previous_mtr: Seq<u16>,
    previous: Option<PlanView>,
    root_effects: Seq<(u64, bool)>,
)
    ensures
        ({
            let outcome = update_outcome(
                root,
                Some(conditions),
                RootTaskView::Compound(DecompositionView::Success(found)),
                previous_mtr,
                previous,
                root_effects,
            );
            &&& outcome is Kept ==> {
                &&& previous is Some
                &&& previous->0.operators_total == found.operators_left.map_values(
                    |o: PlannedOperatorView| o.entity,
                )
                &&& forall|i: int|
                    0 <= i < previous_mtr.len() && i < found.mtr.len() ==> previous_mtr[i]
                        == found.mtr[i]
            }
            &&& !(outcome is Kept) ==> {
                &&& outcome is Replaced
                &&& outcome->plan.operators_left.len() == found.operators_left.len()
                &&& forall|i: int|
                    0 <= i < found.operators_left.len() ==> (
                    #[trigger] outcome->plan.operators_left[i]).entity
                        == found.operators_left[i].entity
                &&& outcome->plan.operators_total == found.operators_left.map_values(
                    |o: PlannedOperatorView| o.entity,
                )
                &&& outcome->plan.mtr == found.mtr
                &&& outcome->entity == root
            }
        }),
{
    let outcome = update_outcome(
        root,
        Some(conditions),
        RootTaskView::Compound(DecompositionView::Success(found)),
        previous_mtr,
        previous,
        root_effects,
    );
    if !(outcome is Kept) {
        let done = finalized(found, root_effects);
        assert(outcome->plan == done);
        assert forall|i: int|
            0 <= i < found.operators_left.len() implies (
            #[trigger] done.operators_left[i]).entity == found.operators_left[i].entity by {}
        assert(done.operators_total =~= found.operators_left.map_values(
            |o: PlannedOperatorView| o.entity,
        ));
    }
}

/// Whether the condition is one of the library's own (a comparison or a
/// constant), not a test of the user.
pub open spec fn is_builtin(condition: ConditionView) -> bool {
    condition is Compare || condition is Constant
}

/// Two runs of the same built-in conditions, all fulfilled, from the same
/// properties pass through the same properties.
pub proof fn lemma_builtin_runs_agree(
    conditions: Seq<ConditionView>,
    a: Seq<Map<u64, PropVal>>,
    b: Seq<Map<u64, PropVal>>,
    n: int,
)
    requires
        forall|i: int| 0 <= i < conditions.len() ==> is_builtin(#[trigger] conditions[i]),
        fulfilled_run(conditions, a),
        fulfilled_run(conditions, b),
        a[0] == b[0],
        0 <= n <= conditions.len(),
    ensures
        a[n] == b[n],
    decreases n,
{
    if n > 0 {
        lemma_builtin_runs_agree(conditions, a, b, n - 1);
        assert(is_builtin(conditions[n - 1]));
        assert(evaluation(conditions[n - 1], a[n - 1], true, a[n]));
        assert(evaluation(conditions[n - 1], b[n - 1], true, b[n]));
    }
}

/// Checking the library's own conditions has one outcome: from the same
/// properties it cannot both pass all of them and stop at one, and when it
/// passes them all it leaves one set of properties.
pub proof fn law_builtin_check_has_one_outcome(
    conditions: Seq<ConditionView>,
    before: Map<u64, PropVal>,
    after: Map<u64, PropVal>,
    other: Map<u64, PropVal>,
)
    requires
        forall|i: int| 0 <= i < conditions.len() ==> is_builtin(#[trigger] conditions[i]),
    ensures
        !(all_fulfilled(conditions, before, after) && stops_unfulfilled(conditions, before, other)),
        all_fulfilled(conditions, before, after) && all_fulfilled(conditions, before, other)
            ==> after == other,
{
    if all_fulfilled(conditions, before, after) {
        let s = choose|s: Seq<Map<u64, PropVal>>|
            #![trigger fulfilled_run(conditions, s)]
            fulfilled_run(conditions, s) && s[0] == before && s.last() == after;
        if all_fulfilled(conditions, before, other) {
            let t = choose|t: Seq<Map<u64, PropVal>>|
                #![trigger fulfilled_run(conditions, t)]
                fulfilled_run(conditions, t) && t[0] == before && t.last() == other;
            lemma_builtin_runs_agree(conditions, s, t, conditions.len() as int);
        }
        if stops_unfulfilled(conditions, before, other) {
            let (k, mid) = choose|k: int, mid: Map<u64, PropVal>|
                #![trigger all_fulfilled(conditions.take(k), before, mid)]
                0 <= k < conditions.len() && all_fulfilled(conditions.take(k), before, mid)
                    && evaluation(conditions[k], mid, false, other);
            let prefix = conditions.take(k);
            let t = choose|t: Seq<Map<u64, PropVal>>|
                #![trigger fulfilled_run(prefix, t)]
                fulfilled_run(prefix, t) && t[0] == before && t.last() == mid;
            let u = s.take(k + 1);
            assert forall|i: int| #![trigger prefix[i]] 0 <= i < prefix.len() implies evaluation(
                prefix[i],
                u[i],
                true,
                u[i + 1],
            ) by {
                assert(prefix[i] == conditions[i]);
            }
            assert(fulfilled_run(prefix, u));
            lemma_builtin_runs_agree(prefix, t, u, k);
            assert(mid == s[k]);
            assert(evaluation(conditions[k], s[k], true, s[k + 1]));
            assert(is_builtin(conditions[k]));
        }
    }
}

/// A plan that is replaced is handed on as it was: the event carries the root
/// and the plan being run before the update (an empty plan when there was
/// none). A root with no task, once its conditions pass, fails the update.
pub proof fn law_replaced_plan_is_handed_on(
    root: u64,
    conditions: Option<Seq<u64>>,
    task: RootTaskView,
    previous_mtr: Seq<u16>,
    previous: Option<PlanView>,
    root_effects: Seq<(u64, bool)>,
)
    ensures
        ({
            let outcome = update_outcome(root, conditions, task, previous_mtr, previous, root_effects);
            &&& outcome is Replaced ==> outcome->entity == root && outcome->old == match previous {
                Some(p) => p,
                None => empty_plan(),
            }
            &&& conditions is Some && task is Missing ==> outcome is MissingTasks
        }),
{
}

} // verus!
