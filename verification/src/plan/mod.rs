//! Contains the [`Plan`] type and types for operating on it.
//!
//! Entities are given by their bits (`Entity::to_bits`).

use crate::plan::mtr::Mtr;
use std::collections::VecDeque;
use vstd::prelude::*;

pub mod log;
pub mod mtr;
pub mod update;

verus! {

/// Specifies the domain used by a planner entity.
#[derive(Clone, Copy, Debug, PartialEq, Eq, Structural)]
pub enum PlanDomain {
    /// The planner entity defines its own task hierarchy.
    This,
    /// The planner entity reuses a task hierarchy defined by another entity.
    Entity(u64),
}

impl Default for PlanDomain {
    fn default() -> (r: Self)
        ensures
            r == PlanDomain::This,
    {
        PlanDomain::This
    }
}

#[derive(Debug, PartialEq, Eq)]
/// An entry in [`Plan::operators_left`], representing an operator that is either currently executing or waiting to execute.
pub struct PlannedOperator {
    /// The entity of the operator.
    pub entity: u64,
    /// The effects of the operator to be applied after it completes.
    /// The last operator of a compound task will also inherit effects from higher-up compound tasks.
    pub effects: Vec<u64>,
    /// The conditions that need to be fulfilled for the operator to be run.
    /// The first operator of a compound task will also inherit conditions from higher-up compound tasks.
    pub conditions: Vec<u64>,
}

/// A planned operator as its entity, effects and conditions.
pub struct PlannedOperatorView {
    pub entity: u64,
    pub effects: Seq<u64>,
    pub conditions: Seq<u64>,
}

impl View for PlannedOperator {
    type V = PlannedOperatorView;

    open spec fn view(&self) -> PlannedOperatorView {
        PlannedOperatorView {
            entity: self.entity,
            effects: self.effects@,
            conditions: self.conditions@,
        }
    }
}

impl Clone for PlannedOperator {
    fn clone(&self) -> (r: Self)
        ensures
            r@ == self@,
    {
        PlannedOperator {
            entity: self.entity,
            effects: copy_entities(&self.effects),
            conditions: copy_entities(&self.conditions),
        }
    }
}

/// A copy of a list of entities.
fn copy_entities(v: &Vec<u64>) -> (r: Vec<u64>)
    ensures
        r@ == v@,
{
    let mut r: Vec<u64> = Vec::new();
    let mut i: usize = 0;
    while i < v.len()
        invariant
            i <= v@.len(),
            r@ == v@.subrange(0, i as int),
        decreases v@.len() - i,
    {
        r.push(v[i]);
        i = i + 1;
        assert(r@ =~= v@.subrange(0, i as int));
    }
    assert(r@ =~= v@);
    r
}

#[derive(Debug, PartialEq, Eq)]
/// A full plan of operators to execute. If this is empty, either through manually clearing it, inserting it, when it runs out of operators, or fails to execute them,
/// the plan will be recomputed in the next fixed frame.
pub struct Plan {
    /// The queue of planned operators to execute. This will get popped from the front during plan execution.
    pub operators_left: VecDeque<PlannedOperator>,
    /// All operators that were in [`Plan::operators_left`] when the plan was created.
    pub operators_total: Vec<u64>,
    /// The [`Mtr`] of the full plan when it was created.
    pub mtr: Mtr,
}

/// A plan as its operators left, all its operators when created, and its record.
pub struct PlanView {
    pub operators_left: Seq<PlannedOperatorView>,
    pub operators_total: Seq<u64>,
    pub mtr: Seq<u16>,
}

impl View for Plan {
    type V = PlanView;

    open spec fn view(&self) -> PlanView {
        PlanView {
            operators_left: self.operators_left@.map_values(|o: PlannedOperator| o@),
            operators_total: self.operators_total@,
            mtr: self.mtr@,
        }
    }
}

/// The plan with nothing in it.
pub open spec fn empty_plan() -> PlanView {
    PlanView {
        operators_left: Seq::empty(),
        operators_total: Seq::empty(),
        mtr: Seq::empty(),
    }
}

/// A copy of a queue of planned operators.
fn copy_operators(q: &VecDeque<PlannedOperator>) -> (r: VecDeque<PlannedOperator>)
    ensures
        r@.map_values(|o: PlannedOperator| o@) == q@.map_values(|o: PlannedOperator| o@),
{
    let mut r: VecDeque<PlannedOperator> = VecDeque::new();
    let mut i: usize = 0;
    while i < q.len()
        invariant
            i <= q@.len(),
            r@.len() == i,
            forall|j: int| 0 <= j < i ==> #[trigger] r@[j]@ == q@[j]@,
        decreases q@.len() - i,
    {
        r.push_back(q[i].clone());
        i = i + 1;
    }
    assert(r@.map_values(|o: PlannedOperator| o@) =~= q@.map_values(|o: PlannedOperator| o@));
    r
}

impl Clone for Plan {
    fn clone(&self) -> (r: Self)
        ensures
            r@ == self@,
    {
        Plan {
            operators_left: copy_operators(&self.operators_left),
            operators_total: copy_entities(&self.operators_total),
            mtr: self.mtr.clone(),
        }
    }
}

impl Default for Plan {
    fn default() -> (r: Self)
        ensures
            r@ == empty_plan(),
    {
        let r = Plan { operators_left: VecDeque::new(), operators_total: Vec::new(), mtr: Mtr::none() };
        assert(r@.operators_left =~= Seq::<PlannedOperatorView>::empty());
        r
    }
}

impl Plan {
    /// Creates a new empty plan. Inserting such a plan will immediately trigger a replan at the next fixed frame.
    pub fn new() -> (r: Self)
        ensures
            r@ == empty_plan(),
    {
        Self::default()
    }

    /// Replaces the current plan with a new empty plan. Doing so will immediately trigger a replan at the next fixed frame.
    pub fn clear(&mut self)
        ensures
            final(self)@ == empty_plan(),
    {
        *self = Self::new();
    }
}

/// An event for logging a given plan.
pub struct LogPlan {
    entity: u64,
}

impl LogPlan {
    /// Creates a new [`LogPlan`] event for the given entity.
    pub fn new(entity: u64) -> (r: Self)
        ensures
            r.entity() == entity,
    {
        LogPlan { entity }
    }

    /// The entity holding the plan to log.
    pub closed spec fn entity(&self) -> u64 {
        self.entity
    }

    /// The entity holding the plan to log.
    pub fn target(&self) -> (r: u64)
        ensures
            r == self.entity(),
    {
        self.entity
    }
}

impl From<u64> for LogPlan {
    fn from(entity: u64) -> (r: Self)
        ensures
            r.entity() == entity,
    {
        LogPlan::new(entity)
    }
}

impl vstd::std_specs::convert::FromSpecImpl<u64> for LogPlan {
    open spec fn obeys_from_spec() -> bool {
        true
    }

    closed spec fn from_spec(entity: u64) -> Self {
        LogPlan { entity }
    }
}

impl core::ops::Deref for Plan {
    type Target = VecDeque<PlannedOperator>;

    fn deref(&self) -> (r: &VecDeque<PlannedOperator>)
        ensures
            *r == self.operators_left,
    {
        &self.operators_left
    }
}

} // verus!
