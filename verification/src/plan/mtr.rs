//! Contains the [`Mtr`] struct.

use core::cmp::Ordering;
use crate::text::{decimal, decimal_text};
use vstd::prelude::*;
use vstd::std_specs::cmp::PartialOrdSpec;
use vstd::std_specs::cmp::PartialEqSpec;

verus! {

#[derive(Debug)]
/// Method Traversal Record: the method order chosen at each compound task on
/// the way to a plan. Lower values mean higher priority.
pub struct Mtr(pub Vec<u16>);

impl View for Mtr {
    type V = Seq<u16>;

    open spec fn view(&self) -> Seq<u16> {
        self.0@
    }
}

/// The three outcomes of ranking two records against each other.
#[derive(Clone, Copy, Debug, PartialEq, Eq, Structural)]
pub enum Rank {
    /// The left record has the higher priority.
    Less,
    /// Neither record has the higher priority.
    Equal,
    /// The right record has the higher priority.
    Greater,
}

/// The two records agree on every position that both of them have.
pub open spec fn agree_on_common_prefix(a: Seq<u16>, b: Seq<u16>) -> bool {
    forall|i: int| 0 <= i < a.len() && i < b.len() ==> a[i] == b[i]
}

/// `i` is the first position, common to both records, at which they differ.
pub open spec fn first_difference_at(a: Seq<u16>, b: Seq<u16>, i: int) -> bool {
    &&& 0 <= i < a.len()
    &&& i < b.len()
    &&& a[i] != b[i]
    &&& forall|j: int| 0 <= j < i ==> a[j] == b[j]
}

/// How two records rank: an empty record ranks below everything (itself
/// included); otherwise the first differing common position decides, and
/// records that agree on their common prefix rank equal.
pub open spec fn rank(a: Seq<u16>, b: Seq<u16>) -> Rank {
    if a.len() == 0 {
        Rank::Greater
    } else if b.len() == 0 {
        Rank::Less
    } else if exists|i: int| first_difference_at(a, b, i) {
        let i = choose|i: int| first_difference_at(a, b, i);
        if a[i] < b[i] {
            Rank::Less
        } else {
            Rank::Greater
        }
    } else {
        Rank::Equal
    }
}

/// The first differing common position is unique.
pub proof fn lemma_first_difference_unique(a: Seq<u16>, b: Seq<u16>, i: int, j: int)
    requires
        first_difference_at(a, b, i),
        first_difference_at(a, b, j),
    ensures
        i == j,
{
    if i < j {
        assert(a[i] == b[i]);
    } else if j < i {
        assert(a[j] == b[j]);
    }
}

/// Without a first difference the records agree on their common prefix, and
/// the other way round.
pub proof fn lemma_no_difference_iff_agree(a: Seq<u16>, b: Seq<u16>)
    ensures
        (exists|i: int| first_difference_at(a, b, i)) <==> !agree_on_common_prefix(a, b),
{
    if !agree_on_common_prefix(a, b) {
        let k = choose|k: int| 0 <= k < a.len() && k < b.len() && a[k] != b[k];
        lemma_least_difference(a, b, k);
    }
}

/// Below any differing common position there is a first one.
pub proof fn lemma_least_difference(a: Seq<u16>, b: Seq<u16>, k: int)
    requires
        0 <= k < a.len(),
        k < b.len(),
        a[k] != b[k],
    ensures
        exists|i: int| i <= k && first_difference_at(a, b, i),
    decreases k,
{
    if forall|j: int| 0 <= j < k ==> a[j] == b[j] {
        assert(first_difference_at(a, b, k));
    } else {
        let j = choose|j: int| 0 <= j < k && a[j] != b[j];
        lemma_least_difference(a, b, j);
        let i = choose|i: int| i <= j && first_difference_at(a, b, i);
        assert(i <= k && first_difference_at(a, b, i));
    }
}

impl Mtr {
    /// Adds a new method order to the MTR. Lower values mean higher priority.
    pub fn with(self, method_order: u16) -> (r: Self)
        ensures
            r@ == self@.push(method_order),
    {
        let mut s = self;
        s.0.push(method_order);
        s
    }

    /// Creates an empty MTR that will be considered lower priority than any other MTR.
    pub fn none() -> (r: Self)
        ensures
            r@ == Seq::<u16>::empty(),
    {
        Mtr(Vec::new())
    }

    /// Ranks this record against another one.
    pub fn rank(&self, other: &Self) -> (r: Rank)
        ensures
            r == rank(self@, other@),
    {
        let a = &self.0;
        let b = &other.0;
        if a.len() == 0 {
            return Rank::Greater;
        }
        if b.len() == 0 {
            return Rank::Less;
        }
        let mut i: usize = 0;
        while i < a.len() && i < b.len()
            invariant
                a@ == self@,
                b@ == other@,
                a@.len() > 0,
                b@.len() > 0,
                i <= a@.len(),
                i <= b@.len(),
                forall|j: int| 0 <= j < i ==> a@[j] == b@[j],
            decreases a@.len() - i,
        {
            if a[i] != b[i] {
                proof {
                    assert(first_difference_at(a@, b@, i as int));
                    let k = choose|k: int| first_difference_at(a@, b@, k);
                    lemma_first_difference_unique(a@, b@, i as int, k);
                }
                if a[i] < b[i] {
                    return Rank::Less;
                } else {
                    return Rank::Greater;
                }
            }
            i = i + 1;
        }
        proof {
            assert(agree_on_common_prefix(a@, b@));
            lemma_no_difference_iff_agree(a@, b@);
        }
        Rank::Equal
    }

    /// Whether the two records agree on every position that both of them have.
    pub fn agrees_with(&self, other: &Self) -> (r: bool)
        ensures
            r == agree_on_common_prefix(self@, other@),
    {
        let a = &self.0;
        let b = &other.0;
        let mut i: usize = 0;
        while i < a.len() && i < b.len()
            invariant
                a@ == self@,
                b@ == other@,
                i <= a@.len(),
                i <= b@.len(),
                forall|j: int| 0 <= j < i ==> a@[j] == b@[j],
            decreases a@.len() - i,
        {
            if a[i] != b[i] {
                return false;
            }
            i = i + 1;
        }
        true
    }
}

/// The text of a record: its method orders in decimal, separated by dots.
pub open spec fn mtr_text(m: Seq<u16>) -> Seq<char>
    decreases m.len(),
{
    if m.len() == 0 {
        Seq::empty()
    } else if m.len() == 1 {
        decimal(m[0] as nat)
    } else {
        mtr_text(m.drop_last()) + "."@ + decimal(m.last() as nat)
    }
}

impl Mtr {
    /// The text of the record: its method orders in decimal, separated by dots.
    pub fn to_string(&self) -> (r: String)
        ensures
            r@ == mtr_text(self@),
    {
        let mut text = String::new();
        let mut i: usize = 0;
        while i < self.0.len()
            invariant
                i <= self@.len(),
                text@ == mtr_text(self@.subrange(0, i as int)),
            decreases self@.len() - i,
        {
            let ghost before = self@.subrange(0, i as int);
            let ghost after = self@.subrange(0, i + 1);
            assert(after.drop_last() =~= before);
            if i > 0 {
                text.append(".");
            }
            let d = decimal_text(self.0[i] as u64);
            text.append(d.as_str());
            i = i + 1;
        }
        assert(self@.subrange(0, i as int) =~= self@);
        text
    }
}

impl core::ops::Deref for Mtr {
    type Target = Vec<u16>;

    fn deref(&self) -> (r: &Vec<u16>)
        ensures
            r@ == self@,
    {
        &self.0
    }
}

impl Default for Mtr {
    fn default() -> (r: Self)
        ensures
            r@ == Seq::<u16>::empty(),
    {
        Mtr(Vec::new())
    }
}

impl Clone for Mtr {
    fn clone(&self) -> (r: Self)
        ensures
            r@ == self@,
    {
        Mtr(self.0.clone())
    }
}

impl PartialEq for Mtr {
    fn eq(&self, other: &Self) -> (r: bool) {
        self.agrees_with(other)
    }
}

impl vstd::std_specs::cmp::PartialEqSpecImpl for Mtr {
    open spec fn obeys_eq_spec() -> bool {
        true
    }

    open spec fn eq_spec(&self, other: &Self) -> bool {
        agree_on_common_prefix(self@, other@)
    }
}

impl Eq for Mtr {
}

impl PartialOrd for Mtr {
    fn partial_cmp(&self, other: &Self) -> (r: Option<Ordering>) {
        match self.rank(other) {
            Rank::Less => Some(Ordering::Less),
            Rank::Equal => Some(Ordering::Equal),
            Rank::Greater => Some(Ordering::Greater),
        }
    }
}

impl vstd::std_specs::cmp::PartialOrdSpecImpl for Mtr {
    open spec fn obeys_partial_cmp_spec() -> bool {
        true
    }

    open spec fn partial_cmp_spec(&self, other: &Self) -> Option<Ordering> {
        match rank(self@, other@) {
            Rank::Less => Some(Ordering::Less),
            Rank::Equal => Some(Ordering::Equal),
            Rank::Greater => Some(Ordering::Greater),
        }
    }
}

/// Any record holding at least one method order ranks before (has a higher
/// priority than) an empty record, and the empty record ranks after it.
pub proof fn law_anything_beats_nothing(a: Mtr, nothing: Mtr)
    requires
        a@.len() > 0,
        nothing@.len() == 0,
    ensures
        a.partial_cmp_spec(&nothing) == Some(Ordering::Less),
        nothing.partial_cmp_spec(&a) == Some(Ordering::Greater),
{
}

/// A non-empty record ranks equal to itself, so it is both `<=` and `>=` itself.
pub proof fn law_rank_reflexive(a: Mtr)
    requires
        a@.len() > 0,
    ensures
        a.partial_cmp_spec(&a) == Some(Ordering::Equal),
{
    lemma_no_difference_iff_agree(a@, a@);
}

/// Two non-empty records rank equal exactly when `==` holds between them,
/// that is when they agree on their common prefix.
pub proof fn law_rank_equal_iff_eq(a: Mtr, b: Mtr)
    requires
        a@.len() > 0,
        b@.len() > 0,
    ensures
        (a.partial_cmp_spec(&b) == Some(Ordering::Equal)) <==> a.eq_spec(&b),
{
    lemma_no_difference_iff_agree(a@, b@);
}

/// Records that agree on their common prefix are `==`, whatever their lengths.
pub proof fn law_same_prefix_is_equal(a: Mtr, b: Mtr)
    requires
        b@.len() >= a@.len(),
        b@.subrange(0, a@.len() as int) == a@,
    ensures
        a.eq_spec(&b),
        b.eq_spec(&a),
{
    assert forall|i: int| 0 <= i < a@.len() && i < b@.len() implies a@[i] == b@[i] by {
        assert(b@.subrange(0, a@.len() as int)[i] == b@[i]);
    }
}

/// `==` between records is symmetric.
pub proof fn law_eq_symmetric(a: Mtr, b: Mtr)
    ensures
        a.eq_spec(&b) == b.eq_spec(&a),
{
}

/// Between non-empty records, `a` ranks before `b` exactly when `b` ranks after `a`.
pub proof fn law_rank_antisymmetric(a: Mtr, b: Mtr)
    requires
        a@.len() > 0,
        b@.len() > 0,
    ensures
        (a.partial_cmp_spec(&b) == Some(Ordering::Less)) <==> (b.partial_cmp_spec(&a) == Some(
            Ordering::Greater,
        )),
        (a.partial_cmp_spec(&b) == Some(Ordering::Equal)) <==> (b.partial_cmp_spec(&a) == Some(
            Ordering::Equal,
        )),
{
    lemma_no_difference_iff_agree(a@, b@);
    lemma_no_difference_iff_agree(b@, a@);
    if exists|i: int| first_difference_at(a@, b@, i) {
        let i = choose|i: int| first_difference_at(a@, b@, i);
        assert(first_difference_at(b@, a@, i));
        let j = choose|j: int| first_difference_at(b@, a@, j);
        lemma_first_difference_unique(b@, a@, i, j);
    }
}

/// Ranking before is transitive.
pub proof fn law_rank_transitive(a: Mtr, b: Mtr, c: Mtr)
    requires
        a.partial_cmp_spec(&b) == Some(Ordering::Less),
        b.partial_cmp_spec(&c) == Some(Ordering::Less),
    ensures
        a.partial_cmp_spec(&c) == Some(Ordering::Less),
{
    lemma_rank_less_transitive(a@, b@, c@);
}

proof fn lemma_rank_less_transitive(a: Seq<u16>, b: Seq<u16>, c: Seq<u16>)
    requires
        rank(a, b) == Rank::Less,
        rank(b, c) == Rank::Less,
    ensures
        rank(a, c) == Rank::Less,
{
    if c.len() == 0 {
        return;
    }
    let i = choose|i: int| first_difference_at(a, b, i);
    let j = choose|j: int| first_difference_at(b, c, j);
    assert(a[i] < b[i]);
    assert(b[j] < c[j]);
    let k = if i <= j { i } else { j };
    assert(first_difference_at(a, c, k));
    let m = choose|m: int| first_difference_at(a, c, m);
    lemma_first_difference_unique(a, c, k, m);
}

/// Extending a record with a lower method order ranks it before the same
/// record extended with a higher one.
pub proof fn law_lower_method_order_ranks_first(m: Mtr, low: u16, high: u16)
    requires
        low < high,
    ensures
        rank(m@.push(low), m@.push(high)) == Rank::Less,
{
    let a = m@.push(low);
    let b = m@.push(high);
    let n = m@.len() as int;
    assert(first_difference_at(a, b, n));
    let k = choose|k: int| first_difference_at(a, b, k);
    lemma_first_difference_unique(a, b, n, k);
}

} // verus!
