//! The text logged for a plan on a [`LogPlan`](crate::plan::LogPlan) event.

use crate::plan::mtr::mtr_text;
use crate::plan::{Plan, PlanView, PlannedOperator, PlannedOperatorView};
use crate::text::{decimal, decimal_text};
use vstd::prelude::*;

verus! {

/// The name listed for the entity `e`: that of the first entry for it.
pub open spec fn lookup(names: Seq<(u64, Seq<char>)>, e: u64) -> Option<Seq<char>>
    decreases names.len(),
{
    if names.len() == 0 {
        None
    } else if names[0].0 == e {
        Some(names[0].1)
    } else {
        lookup(names.drop_first(), e)
    }
}

/// A list of entity names as plain values.
pub open spec fn name_table(names: Seq<(u64, String)>) -> Seq<(u64, Seq<char>)> {
    names.map_values(|n: (u64, String)| (n.0, n.1@))
}

/// The entities named in the log of an operator, in the order they are named.
pub open spec fn operator_log_entities(op: PlannedOperatorView) -> Seq<u64> {
    seq![op.entity] + op.effects + op.conditions
}

/// The entities named in the log of a sequence of operators, in order.
pub open spec fn operators_log_entities(ops: Seq<PlannedOperatorView>) -> Seq<u64>
    decreases ops.len(),
{
    if ops.len() == 0 {
        Seq::empty()
    } else {
        operators_log_entities(ops.drop_last()) + operator_log_entities(ops.last())
    }
}

/// The entities named in the log of a plan, in the order they are named.
pub open spec fn plan_log_entities(plan: PlanView) -> Seq<u64> {
    operators_log_entities(plan.operators_left) + plan.operators_total
}

/// The name of `e`, which is assumed to be listed.
pub open spec fn name_of(names: Seq<(u64, Seq<char>)>, e: u64) -> Seq<char> {
    lookup(names, e)->0
}

/// One line per entity: `indent`, `- `, its name and a line break.
pub open spec fn entity_lines(
    names: Seq<(u64, Seq<char>)>,
    indent: Seq<char>,
    entities: Seq<u64>,
) -> Seq<char>
    decreases entities.len(),
{
    if entities.len() == 0 {
        Seq::empty()
    } else {
        entity_lines(names, indent, entities.drop_last()) + indent + "- "@ + name_of(
            names,
            entities.last(),
        ) + "\n"@
    }
}

/// The lines logged for one planned operator.
pub open spec fn operator_text(names: Seq<(u64, Seq<char>)>, op: PlannedOperatorView) -> Seq<
    char,
> {
    "  - "@ + name_of(names, op.entity) + ":\n"@ + "    - effects ("@ + decimal(
        op.effects.len(),
    ) + "):\n"@ + entity_lines(names, "      "@, op.effects) + "    - conditions ("@ + decimal(
        op.conditions.len(),
    ) + "):\n"@ + entity_lines(names, "      "@, op.conditions)
}

/// The lines logged for a sequence of planned operators.
pub open spec fn operators_text(names: Seq<(u64, Seq<char>)>, ops: Seq<PlannedOperatorView>) -> Seq<
    char,
>
    decreases ops.len(),
{
    if ops.len() == 0 {
        Seq::empty()
    } else {
        operators_text(names, ops.drop_last()) + operator_text(names, ops.last())
    }
}

/// The text logged for the plan `plan` of the entity named `plan_name`.
pub open spec fn plan_text(
    plan_name: Seq<char>,
    names: Seq<(u64, Seq<char>)>,
    plan: PlanView,
) -> Seq<char> {
    "plan "@ + plan_name + ":\n"@ + "- mtr: "@ + mtr_text(plan.mtr) + "\n"@ + "- operators left ("@
        + decimal(plan.operators_left.len()) + "):\n"@ + operators_text(names, plan.operators_left)
        + "- total operators ("@ + decimal(plan.operators_total.len()) + ")\n"@ + entity_lines(
        names,
        "  "@,
        plan.operators_total,
    )
}

/// `e` is the first of `entities` that has no name.
pub open spec fn first_unnamed(names: Seq<(u64, Seq<char>)>, entities: Seq<u64>, e: u64) -> bool {
    exists|i: int|
        #![trigger entities[i]]
        0 <= i < entities.len() && entities[i] == e && lookup(names, e) is None && forall|j: int|
            0 <= j < i ==> lookup(names, #[trigger] entities[j]) is Some
}

/// Every one of `entities` has a name.
pub open spec fn all_named(names: Seq<(u64, Seq<char>)>, entities: Seq<u64>) -> bool {
    forall|i: int| 0 <= i < entities.len() ==> lookup(names, #[trigger] entities[i]) is Some
}

/// The name listed for `e`, if any.
fn find_name(names: &Vec<(u64, String)>, e: u64) -> (r: Option<&String>)
    ensures
        match r {
            Some(n) => lookup(name_table(names@), e) == Some(n@),
            None => lookup(name_table(names@), e) is None,
        },
{
    let ghost table = name_table(names@);
    assert(table.subrange(0, table.len() as int) =~= table);
    let mut i: usize = 0;
    while i < names.len()
        invariant
            i <= names@.len(),
            table == name_table(names@),
            lookup(table, e) == lookup(table.subrange(i as int, table.len() as int), e),
        decreases names@.len() - i,
    {
        let ghost rest = table.subrange(i as int, table.len() as int);
        assert(rest[0] == table[i as int]);
        assert(rest.drop_first() =~= table.subrange(i + 1, table.len() as int));
        if names[i].0 == e {
            return Some(&names[i].1);
        }
        i = i + 1;
    }
    None
}

/// The entities among which an unnamed one is looked for first, and the
/// ones after them, still have to be checked.
proof fn lemma_first_unnamed_extend(
    names: Seq<(u64, Seq<char>)>,
    done: Seq<u64>,
    rest: Seq<u64>,
    e: u64,
)
    requires
        all_named(names, done),
        first_unnamed(names, rest, e),
    ensures
        first_unnamed(names, done + rest, e),
{
    let all = done + rest;
    let i = choose|i: int|
        #![trigger rest[i]]
        0 <= i < rest.len() && rest[i] == e && lookup(names, e) is None && forall|j: int|
            0 <= j < i ==> lookup(names, #[trigger] rest[j]) is Some;
    let k = done.len() + i;
    assert(all[k] == e);
    assert forall|j: int| 0 <= j < k implies lookup(names, #[trigger] all[j]) is Some by {
        if j < done.len() {
            assert(all[j] == done[j]);
        } else {
            assert(all[j] == rest[j - done.len()]);
        }
    }
}

/// Appends the lines for `entities` to `text`, or answers the first one
/// without a name.
fn append_entity_lines(
    text: &mut String,
    names: &Vec<(u64, String)>,
    indent: &str,
    entities: &Vec<u64>,
) -> (r: Result<(), u64>)
    ensures
        match r {
            Ok(()) => {
                &&& all_named(name_table(names@), entities@)
                &&& final(text)@ == old(text)@ + entity_lines(
                    name_table(names@),
                    indent@,
                    entities@,
                )
            },
            Err(e) => first_unnamed(name_table(names@), entities@, e),
        },
{
    let ghost table = name_table(names@);
    let ghost start = text@;
    let mut i: usize = 0;
    while i < entities.len()
        invariant
            i <= entities@.len(),
            table == name_table(names@),
            start == old(text)@,
            all_named(table, entities@.subrange(0, i as int)),
            text@ == start + entity_lines(table, indent@, entities@.subrange(0, i as int)),
        decreases entities@.len() - i,
    {
        let ghost done = entities@.subrange(0, i as int);
        let ghost next = entities@.subrange(0, i + 1);
        assert(next.drop_last() =~= done);
        assert(next.last() == entities@[i as int]);
        match find_name(names, entities[i]) {
            None => {
                assert(forall|j: int| 0 <= j < i ==> #[trigger] entities@[j] == done[j]);
                assert(first_unnamed(table, entities@, entities@[i as int]));
                return Err(entities[i]);
            },
            Some(n) => {
                text.append(indent);
                text.append("- ");
                text.append(n.as_str());
                text.append("\n");
                assert forall|j: int| 0 <= j < i + 1 implies lookup(table, #[trigger] next[j]) is Some by {
                    if j < i {
                        assert(next[j] == done[j]);
                    }
                }
            },
        }
        i = i + 1;
    }
    assert(entities@.subrange(0, i as int) =~= entities@);
    Ok(())
}

/// Appends the lines for one planned operator to `text`, or answers the first
/// entity of it without a name.
fn append_operator(text: &mut String, names: &Vec<(u64, String)>, op: &PlannedOperator) -> (r:
    Result<(), u64>)
    ensures
        match r {
            Ok(()) => {
                &&& all_named(name_table(names@), operator_log_entities(op@))
                &&& final(text)@ == old(text)@ + operator_text(name_table(names@), op@)
            },
            Err(e) => first_unnamed(name_table(names@), operator_log_entities(op@), e),
        },
{
    let ghost table = name_table(names@);
    let ghost ents = operator_log_entities(op@);
    assert(ents[0] == op.entity);
    let name = match find_name(names, op.entity) {
        None => {
            return Err(op.entity);
        },
        Some(n) => n,
    };
    text.append("  - ");
    text.append(name.as_str());
    text.append(":\n");
    text.append("    - effects (");
    let count = decimal_text(op.effects.len() as u64);
    text.append(count.as_str());
    text.append("):\n");
    let first = append_entity_lines(text, names, "      ", &op.effects);
    if let Err(e) = first {
        proof {
            assert(all_named(table, seq![op.entity]));
            lemma_first_unnamed_prefix(table, op.effects@, op.conditions@, e);
            lemma_first_unnamed_extend(table, seq![op.entity], op.effects@ + op.conditions@, e);
            assert(seq![op.entity] + (op.effects@ + op.conditions@) =~= ents);
        }
        return Err(e);
    }
    text.append("    - conditions (");
    let count = decimal_text(op.conditions.len() as u64);
    text.append(count.as_str());
    text.append("):\n");
    let second = append_entity_lines(text, names, "      ", &op.conditions);
    if let Err(e) = second {
        proof {
            let done = seq![op.entity] + op.effects@;
            assert forall|i: int| 0 <= i < done.len() implies lookup(table, #[trigger] done[i]) is Some by {
                if i > 0 {
                    assert(done[i] == op.effects@[i - 1]);
                }
            }
            lemma_first_unnamed_extend(table, done, op.conditions@, e);
            assert(done + op.conditions@ =~= ents);
        }
        return Err(e);
    }
    proof {
        assert forall|i: int| 0 <= i < ents.len() implies lookup(table, #[trigger] ents[i]) is Some by {
            if 1 <= i < 1 + op.effects@.len() {
                assert(ents[i] == op.effects@[i - 1]);
            } else if i >= 1 + op.effects@.len() {
                assert(ents[i] == op.conditions@[i - 1 - op.effects@.len()]);
            }
        }
    }
    Ok(())
}

/// An unnamed entity found first in a prefix is found first in the whole.
proof fn lemma_first_unnamed_prefix(
    names: Seq<(u64, Seq<char>)>,
    front: Seq<u64>,
    back: Seq<u64>,
    e: u64,
)
    requires
        first_unnamed(names, front, e),
    ensures
        first_unnamed(names, front + back, e),
{
    let all = front + back;
    let i = choose|i: int|
        #![trigger front[i]]
        0 <= i < front.len() && front[i] == e && lookup(names, e) is None && forall|j: int|
            0 <= j < i ==> lookup(names, #[trigger] front[j]) is Some;
    assert(all[i] == e);
    assert forall|j: int| 0 <= j < i implies lookup(names, #[trigger] all[j]) is Some by {
        assert(all[j] == front[j]);
    }
}

/// The text logged for the plan `plan` of the entity named `plan_name`, with
/// the names of the entities listed in `names`; or the first entity named in
/// the log that has no name.
pub fn plan_log_text(plan_name: &str, plan: &Plan, names: &Vec<(u64, String)>) -> (r: Result<
    String,
    u64,
>)
    ensures
        match r {
            Ok(text) => {
                &&& all_named(name_table(names@), plan_log_entities(plan@))
                &&& text@ == plan_text(plan_name@, name_table(names@), plan@)
            },
            Err(e) => first_unnamed(name_table(names@), plan_log_entities(plan@), e),
        },
{
    let ghost table = name_table(names@);
    let ghost ops = plan@.operators_left;
    let mut text = String::new();
    text.append("plan ");
    text.append(plan_name);
    text.append(":\n");
    text.append("- mtr: ");
    let mtr = plan.mtr.to_string();
    text.append(mtr.as_str());
    text.append("\n");
    text.append("- operators left (");
    let count = decimal_text(plan.operators_left.len() as u64);
    text.append(count.as_str());
    text.append("):\n");
    let ghost head = text@;
    let mut i: usize = 0;
    while i < plan.operators_left.len()
        invariant
            i <= plan.operators_left@.len(),
            table == name_table(names@),
            ops == plan@.operators_left,
            all_named(table, operators_log_entities(ops.subrange(0, i as int))),
            text@ == head + operators_text(table, ops.subrange(0, i as int)),
        decreases plan.operators_left@.len() - i,
    {
        let ghost done = ops.subrange(0, i as int);
        let ghost next = ops.subrange(0, i + 1);
        assert(next.drop_last() =~= done);
        assert(next.last() == ops[i as int]);
        assert(ops[i as int] == plan.operators_left@[i as int]@);
        match append_operator(&mut text, names, &plan.operators_left[i]) {
            Err(e) => {
                proof {
                    lemma_unnamed_in_operator(table, ops, i as int, plan@.operators_total, e);
                }
                return Err(e);
            },
            Ok(()) => {
                proof {
                    lemma_named_operators_extend(table, ops, i as int);
                }
            },
        }
        i = i + 1;
    }
    assert(ops.subrange(0, i as int) =~= ops);
    text.append("- total operators (");
    let count = decimal_text(plan.operators_total.len() as u64);
    text.append(count.as_str());
    text.append(")\n");
    match append_entity_lines(&mut text, names, "  ", &plan.operators_total) {
        Err(e) => {
            proof {
                lemma_first_unnamed_extend(
                    table,
                    operators_log_entities(ops),
                    plan@.operators_total,
                    e,
                );
                assert(plan_log_entities(plan@) == operators_log_entities(ops) + plan@.operators_total);
            }
            return Err(e);
        },
        Ok(()) => {
            proof {
                let a = operators_log_entities(ops);
                let b = plan@.operators_total;
                assert forall|j: int| 0 <= j < (a + b).len() implies lookup(
                    table,
                    #[trigger] (a + b)[j],
                ) is Some by {
                    if j < a.len() {
                        assert((a + b)[j] == a[j]);
                    } else {
                        assert((a + b)[j] == b[j - a.len()]);
                    }
                }
            }
        },
    }
    Ok(text)
}

/// An unnamed entity found first in the log of operator `i`, after operators
/// that are all named, is the first unnamed one in the log of the plan.
proof fn lemma_unnamed_in_operator(
    table: Seq<(u64, Seq<char>)>,
    ops: Seq<PlannedOperatorView>,
    i: int,
    total: Seq<u64>,
    e: u64,
)
    requires
        0 <= i < ops.len(),
        all_named(table, operators_log_entities(ops.subrange(0, i))),
        first_unnamed(table, operator_log_entities(ops[i]), e),
    ensures
        first_unnamed(table, operators_log_entities(ops) + total, e),
{
    let done = ops.subrange(0, i);
    let next = ops.subrange(0, i + 1);
    assert(next.drop_last() =~= done);
    assert(next.last() == ops[i]);
    lemma_first_unnamed_extend(table, operators_log_entities(done), operator_log_entities(ops[i]), e);
    assert(operators_log_entities(next) == operators_log_entities(done) + operator_log_entities(
        ops[i],
    ));
    let rest = operators_log_entities(ops.subrange(i + 1, ops.len() as int)) + total;
    lemma_first_unnamed_prefix(table, operators_log_entities(next), rest, e);
    lemma_operators_log_entities_split(ops, i + 1);
    assert(operators_log_entities(next) + rest =~= operators_log_entities(ops) + total);
}

/// Operators all named up to `i`, followed by a named operator `i`, are all
/// named up to `i + 1`.
proof fn lemma_named_operators_extend(
    table: Seq<(u64, Seq<char>)>,
    ops: Seq<PlannedOperatorView>,
    i: int,
)
    requires
        0 <= i < ops.len(),
        all_named(table, operators_log_entities(ops.subrange(0, i))),
        all_named(table, operator_log_entities(ops[i])),
    ensures
        all_named(table, operators_log_entities(ops.subrange(0, i + 1))),
{
    let done = ops.subrange(0, i);
    let next = ops.subrange(0, i + 1);
    assert(next.drop_last() =~= done);
    assert(next.last() == ops[i]);
    let a = operators_log_entities(done);
    let b = operator_log_entities(ops[i]);
    assert forall|j: int| 0 <= j < (a + b).len() implies lookup(table, #[trigger] (a + b)[j]) is Some by {
        if j < a.len() {
            assert((a + b)[j] == a[j]);
        } else {
            assert((a + b)[j] == b[j - a.len()]);
        }
    }
}

/// The log entities of a sequence of operators are those of a prefix followed
/// by those of the rest.
proof fn lemma_operators_log_entities_split(ops: Seq<PlannedOperatorView>, k: int)
    requires
        0 <= k <= ops.len(),
    ensures
        operators_log_entities(ops) == operators_log_entities(ops.subrange(0, k))
            + operators_log_entities(ops.subrange(k, ops.len() as int)),
    decreases ops.len() - k,
{
    if k < ops.len() {
        lemma_operators_log_entities_split(ops, k + 1);
        let front = ops.subrange(0, k + 1);
        assert(front.drop_last() =~= ops.subrange(0, k));
        let back = ops.subrange(k, ops.len() as int);
        lemma_operators_log_entities_cons(back);
        assert(back.drop_first() =~= ops.subrange(k + 1, ops.len() as int));
        assert(back[0] == front.last());
    } else {
        assert(ops.subrange(0, k) =~= ops);
        assert(ops.subrange(k, ops.len() as int) =~= Seq::<PlannedOperatorView>::empty());
    }
}

/// The log entities of a non-empty sequence of operators start with those of
/// its first operator.
proof fn lemma_operators_log_entities_cons(ops: Seq<PlannedOperatorView>)
    ensures
        ops.len() > 0 ==> operators_log_entities(ops) == operator_log_entities(ops[0])
            + operators_log_entities(ops.drop_first()),
    decreases ops.len(),
{
    if ops.len() > 1 {
        lemma_operators_log_entities_cons(ops.drop_last());
        assert(ops.drop_last().drop_first() =~= ops.drop_first().drop_last());
        assert(ops.drop_last()[0] == ops[0]);
        assert(ops.drop_first().last() == ops.last());
        assert(operator_log_entities(ops[0]) + operators_log_entities(ops.drop_first())
            =~= operator_log_entities(ops[0]) + operators_log_entities(ops.drop_first().drop_last())
            + operator_log_entities(ops.last()));
    } else if ops.len() == 1 {
        assert(ops.drop_first() =~= Seq::<PlannedOperatorView>::empty());
        assert(ops.drop_last() =~= Seq::<PlannedOperatorView>::empty());
    }
}

/// Each count in the log is that of the list it heads: the line on the
/// operators left gives how many operators are left, and the line on the
/// operators in total, which ends the log, gives how many operators the plan
/// recorded, one line for each following it.
pub proof fn law_counts_head_their_lists(
    plan_name: Seq<char>,
    names: Seq<(u64, Seq<char>)>,
    plan: PlanView,
)
    ensures
        exists|head: Seq<char>, operators: Seq<char>|
            plan_text(plan_name, names, plan) == head + "- operators left ("@ + decimal(
                plan.operators_left.len(),
            ) + "):\n"@ + operators + "- total operators ("@ + decimal(plan.operators_total.len())
                + ")\n"@ + entity_lines(names, "  "@, plan.operators_total),
{
    let head = "plan "@ + plan_name + ":\n"@ + "- mtr: "@ + mtr_text(plan.mtr) + "\n"@;
    let operators = operators_text(names, plan.operators_left);
    assert(plan_text(plan_name, names, plan) =~= head + "- operators left ("@ + decimal(
        plan.operators_left.len(),
    ) + "):\n"@ + operators + "- total operators ("@ + decimal(plan.operators_total.len())
        + ")\n"@ + entity_lines(names, "  "@, plan.operators_total));
}

/// The lines logged for an operator count its effects and its conditions,
/// each count followed by one line for each of them.
pub proof fn law_operator_counts_head_their_lists(
    names: Seq<(u64, Seq<char>)>,
    op: PlannedOperatorView,
)
    ensures
        exists|head: Seq<char>|
            operator_text(names, op) == head + "    - effects ("@ + decimal(op.effects.len())
                + "):\n"@ + entity_lines(names, "      "@, op.effects) + "    - conditions ("@
                + decimal(op.conditions.len()) + "):\n"@ + entity_lines(
                names,
                "      "@,
                op.conditions,
            ),
{
    let head = "  - "@ + name_of(names, op.entity) + ":\n"@;
    assert(operator_text(names, op) =~= head + "    - effects ("@ + decimal(op.effects.len())
        + "):\n"@ + entity_lines(names, "      "@, op.effects) + "    - conditions ("@ + decimal(
        op.conditions.len(),
    ) + "):\n"@ + entity_lines(names, "      "@, op.conditions));
}

/// The number of line breaks in `s`.
pub open spec fn line_breaks(s: Seq<char>) -> nat
    decreases s.len(),
{
    if s.len() == 0 {
        0
    } else {
        line_breaks(s.drop_last()) + if s.last() == '\n' {
            1nat
        } else {
            0nat
        }
    }
}

/// Line breaks add up over a concatenation.
pub proof fn lemma_line_breaks_concat(a: Seq<char>, b: Seq<char>)
    ensures
        line_breaks(a + b) == line_breaks(a) + line_breaks(b),
    decreases b.len(),
{
    if b.len() > 0 {
        lemma_line_breaks_concat(a, b.drop_last());
        assert((a + b).drop_last() =~= a + b.drop_last());
    } else {
        assert(a + b =~= a);
    }
}

/// Whether no name in `names` holds a line break.
pub open spec fn names_on_one_line(names: Seq<(u64, Seq<char>)>) -> bool {
    forall|i: int| 0 <= i < names.len() ==> line_breaks(#[trigger] names[i].1) == 0
}

/// A name listed in `names` is one of its entries.
pub proof fn lemma_lookup_is_listed(names: Seq<(u64, Seq<char>)>, e: u64)
    requires
        lookup(names, e) is Some,
    ensures
        exists|i: int| 0 <= i < names.len() && #[trigger] names[i].1 == lookup(names, e)->0,
    decreases names.len(),
{
    if names[0].0 != e {
        lemma_lookup_is_listed(names.drop_first(), e);
        let i = choose|i: int|
            0 <= i < names.drop_first().len() && #[trigger] names.drop_first()[i].1 == lookup(
                names.drop_first(),
                e,
            )->0;
        assert(names[i + 1] == names.drop_first()[i]);
    } else {
        assert(names[0].1 == lookup(names, e)->0);
    }
}

/// Entity lines are one line per entity: where every entity is named, no name
/// holds a line break and the indent holds none, they hold exactly as many
/// line breaks as there are entities.
pub proof fn law_one_line_per_entity(
    names: Seq<(u64, Seq<char>)>,
    indent: Seq<char>,
    entities: Seq<u64>,
)
    requires
        names_on_one_line(names),
        line_breaks(indent) == 0,
        forall|i: int| 0 <= i < entities.len() ==> lookup(names, #[trigger] entities[i]) is Some,
    ensures
        line_breaks(entity_lines(names, indent, entities)) == entities.len(),
    decreases entities.len(),
{
    if entities.len() > 0 {
        let rest = entities.drop_last();
        assert forall|i: int| 0 <= i < rest.len() implies lookup(names, #[trigger] rest[i]) is Some by {
            assert(rest[i] == entities[i]);
        }
        law_one_line_per_entity(names, indent, rest);
        let e = entities.last();
        assert(lookup(names, entities[entities.len() - 1]) is Some);
        lemma_lookup_is_listed(names, e);
        let name = name_of(names, e);
        assert(line_breaks(name) == 0);
        let before = entity_lines(names, indent, rest);
        reveal_strlit("- ");
        reveal_strlit("\n");
        assert(line_breaks(Seq::<char>::empty()) == 0);
        assert(line_breaks("- "@) == 0) by {
            let dash = seq!['-'];
            assert("- "@ =~= seq!['-', ' ']);
            assert(seq!['-', ' '].drop_last() =~= dash);
            assert(dash.drop_last() =~= Seq::<char>::empty());
            assert(dash.last() == '-');
            assert(line_breaks(dash) == line_breaks(Seq::<char>::empty()));
            assert(seq!['-', ' '].last() == ' ');
        }
        assert(line_breaks("\n"@) == 1) by {
            assert("\n"@ =~= seq!['\n']);
            assert(seq!['\n'].drop_last() =~= Seq::<char>::empty());
            assert(seq!['\n'].last() == '\n');
        }
        lemma_line_breaks_concat(before, indent);
        lemma_line_breaks_concat(before + indent, "- "@);
        lemma_line_breaks_concat(before + indent + "- "@, name);
        lemma_line_breaks_concat(before + indent + "- "@ + name, "\n"@);
    }
}

} // verus!
