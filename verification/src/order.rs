//! Equality and the canonical order of addons: those that need attention
//! first, then by id.

use crate::addon::{Addon, AddonModel};
use crate::text::{lemma_text_lt_strict_total, str_lt, text_le, text_lt};
use std::cmp::Ordering;
use vstd::prelude::*;

verus! {

/// How `a` stands to `b` in the canonical order: an updatable addon comes
/// before one that is not, and among addons that agree in this the
/// smaller id comes first.
pub open spec fn canonical(a: AddonModel, b: AddonModel) -> Ordering {
    if a.is_updatable() != b.is_updatable() {
        if a.is_updatable() {
            Ordering::Less
        } else {
            Ordering::Greater
        }
    } else if a.id == b.id {
        Ordering::Equal
    } else if text_lt(a.id, b.id) {
        Ordering::Less
    } else {
        Ordering::Greater
    }
}

/// `a` may stand before `b` in a sorted collection.
pub open spec fn not_after(a: AddonModel, b: AddonModel) -> bool {
    canonical(a, b) != Ordering::Greater
}

/// Each addon of the sequence may stand before the one that follows it.
pub open spec fn sorted(s: Seq<AddonModel>) -> bool {
    forall|i: int| 0 <= i && i + 1 < s.len() ==> not_after(#[trigger] s[i], s[i + 1])
}

impl PartialEq for Addon {
    /// Two addons are equal when their ids are, whatever else they hold.
    fn eq(&self, other: &Self) -> (r: bool) {
        self.id == other.id
    }
}

impl vstd::std_specs::cmp::PartialEqSpecImpl for Addon {
    open spec fn obeys_eq_spec() -> bool {
        true
    }

    open spec fn eq_spec(&self, other: &Self) -> bool {
        self@.id == other@.id
    }
}

impl Eq for Addon {

}

impl PartialOrd for Addon {
    /// The canonical order; it never leaves two addons unordered.
    fn partial_cmp(&self, other: &Self) -> (r: Option<Ordering>) {
        Some(self.cmp(other))
    }
}

impl vstd::std_specs::cmp::PartialOrdSpecImpl for Addon {
    open spec fn obeys_partial_cmp_spec() -> bool {
        true
    }

    open spec fn partial_cmp_spec(&self, other: &Self) -> Option<Ordering> {
        Some(canonical(self@, other@))
    }
}

impl Addon {
    /// How this addon stands to `other` in the canonical order.
    pub fn cmp(&self, other: &Self) -> (r: Ordering)
        ensures
            r == canonical(self@, other@),
    {
        let mine = self.is_updatable();
        let theirs = other.is_updatable();
        if mine != theirs {
            if mine {
                Ordering::Less
            } else {
                Ordering::Greater
            }
        } else if self.id == other.id {
            Ordering::Equal
        } else if str_lt(self.id.as_str(), other.id.as_str()) {
            Ordering::Less
        } else {
            Ordering::Greater
        }
    }
}

/// The canonical order is a total order on addons with distinct ids: an
/// addon is equal to itself, two addons are equal only if they have the
/// same id, turning a pair around turns the result around, and "not
/// after" is transitive.
pub proof fn lemma_canonical_is_total_order(a: AddonModel, b: AddonModel, c: AddonModel)
    ensures
        canonical(a, a) == Ordering::Equal,
        canonical(a, b) == Ordering::Equal <==> a.id == b.id && a.is_updatable()
            == b.is_updatable(),
        canonical(a, b) == Ordering::Less <==> canonical(b, a) == Ordering::Greater,
        not_after(a, b) && not_after(b, c) ==> not_after(a, c),
        canonical(a, b) == Ordering::Less && not_after(b, c) ==> canonical(a, c)
            == Ordering::Less,
{
    lemma_text_lt_strict_total(a.id, b.id, c.id);
    lemma_text_lt_strict_total(b.id, a.id, c.id);
    lemma_text_lt_strict_total(a.id, c.id, b.id);
}

/// In a sorted sequence every earlier addon may stand before every later
/// one.
pub proof fn lemma_sorted_pairs(s: Seq<AddonModel>, i: int, j: int)
    requires
        sorted(s),
        0 <= i <= j < s.len(),
    ensures
        not_after(s[i], s[j]),
    decreases j - i,
{
    if i == j {
        lemma_canonical_is_total_order(s[i], s[i], s[i]);
    } else {
        lemma_sorted_pairs(s, i, j - 1);
        assert(not_after(s[j - 1], s[j]));
        lemma_canonical_is_total_order(s[i], s[j - 1], s[j]);
    }
}

/// A sorted collection shows what needs attention first: every updatable
/// addon stands before every addon that is not updatable, and within
/// each of the two groups the ids ascend.
pub proof fn lemma_sorted_puts_updatable_first(s: Seq<AddonModel>, i: int, j: int)
    requires
        sorted(s),
        0 <= i < j < s.len(),
    ensures
        s[j].is_updatable() ==> s[i].is_updatable(),
        s[i].is_updatable() == s[j].is_updatable() ==> text_le(s[i].id, s[j].id),
{
    lemma_sorted_pairs(s, i, j);
}

} // verus!
