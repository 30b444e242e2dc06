//! The combined dependencies of an addon: the addon itself, the
//! dependencies it brings along and what those depend on in turn.

use crate::addon::{Addon, AddonModel};
use crate::text::{lemma_text_lt_strict_total, str_lt, text_lt, texts};
use vstd::prelude::*;

verus! {

/// What a collection of addons stands for.
pub open spec fn models(addons: Seq<Addon>) -> Seq<AddonModel> {
    Seq::new(addons.len(), |i: int| addons[i]@)
}

/// The first addon at or after position `from` that has the id `id`.
pub open spec fn lookup_from(addons: Seq<AddonModel>, id: Seq<char>, from: int) -> Option<
    AddonModel,
>
    decreases addons.len() - from,
{
    if from < 0 || from >= addons.len() {
        None
    } else if addons[from].id == id {
        Some(addons[from])
    } else {
        lookup_from(addons, id, from + 1)
    }
}

/// The addon that the id `id` names in the collection: the first one
/// that has it, or `None` where the id dangles.
pub open spec fn lookup(addons: Seq<AddonModel>, id: Seq<char>) -> Option<AddonModel> {
    lookup_from(addons, id, 0)
}

/// The addon that a dependency `id` of `target` brings along, or `None`
/// where it brings none: the id dangles, or it names a parent while the
/// target is a parent too.
pub open spec fn brought(target: AddonModel, addons: Seq<AddonModel>, id: Seq<char>) -> Option<
    AddonModel,
> {
    match lookup(addons, id) {
        Some(a) => if target.is_parent() && a.is_parent() {
            None
        } else {
            Some(a)
        },
        None => None,
    }
}

/// The `i`-th dependency of `target` puts `x` among the combined
/// dependencies: it brings an addon along, and `x` is its id or one of
/// its own dependencies.
pub open spec fn brought_by(target: AddonModel, addons: Seq<AddonModel>, i: int, x: Seq<char>) -> bool {
    &&& 0 <= i < target.dependencies.len()
    &&& match brought(target, addons, target.dependencies[i]) {
        Some(a) => x == target.dependencies[i] || a.dependencies.contains(x),
        None => false,
    }
}

/// `x` is one of the combined dependencies of `target`: its own id, or
/// an id that one of its dependencies puts there.
pub open spec fn in_closure(target: AddonModel, addons: Seq<AddonModel>, x: Seq<char>) -> bool {
    x == target.id || exists|i: int| brought_by(target, addons, i, x)
}

/// The ids ascend strictly, so none occurs twice.
pub open spec fn ascending(ids: Seq<Seq<char>>) -> bool {
    forall|i: int, j: int| 0 <= i < j < ids.len() ==> text_lt(ids[i], ids[j])
}

/// Where the id `id` is first found in the collection.
fn find(addons: &Vec<Addon>, id: &String) -> (r: Option<usize>)
    ensures
        match r {
            Some(at) => at < addons.len() && lookup(models(addons@), id@) == Some(addons[at as int]@),
            None => lookup(models(addons@), id@) is None,
        },
{
    let mut at: usize = 0;
    while at < addons.len()
        invariant
            at <= addons.len(),
            lookup(models(addons@), id@) == lookup_from(models(addons@), id@, at as int),
        decreases addons.len() - at,
    {
        if addons[at].id == *id {
            return Some(at);
        }
        at += 1;
    }
    None
}

/// Puts `id` at its place among ascending ids, unless it is there.
fn insert_sorted(ids: &mut Vec<String>, id: String)
    requires
        ascending(texts(old(ids)@)),
    ensures
        ascending(texts(final(ids)@)),
        forall|x: Seq<char>|
            #![trigger texts(final(ids)@).contains(x)]
            texts(final(ids)@).contains(x) <==> texts(old(ids)@).contains(x) || x == id@,
{
    let ghost before = texts(ids@);
    let mut at: usize = 0;
    while at < ids.len() && str_lt(ids[at].as_str(), id.as_str())
        invariant
            at <= ids.len(),
            before == texts(ids@),
            forall|k: int| 0 <= k < at ==> text_lt(#[trigger] before[k], id@),
        decreases ids.len() - at,
    {
        at += 1;
    }
    if at < ids.len() && ids[at] == id {
        assert(before[at as int] == id@);
        return ;
    }
    ids.insert(at, id);
    proof {
        let after = texts(ids@);
        assert(after =~= before.insert(at as int, id@));
        assert forall|i: int, j: int| 0 <= i < j < after.len() implies text_lt(
            after[i],
            after[j],
        ) by {
            if j == at {
                assert(after[i] == before[i]);
            } else if i == at {
                // the id stands before everything that was not before it
                assert(after[j] == before[j - 1]);
                lemma_text_lt_strict_total(before[at as int], id@, before[j - 1]);
                lemma_text_lt_strict_total(id@, before[at as int], before[j - 1]);
            } else {
                let bi = if i < at { i } else { i - 1 };
                let bj = if j < at { j } else { j - 1 };
                assert(after[i] == before[bi] && after[j] == before[bj]);
            }
        }
        assert forall|x: Seq<char>| after.contains(x) <==> before.contains(x) || x == id@ by {
            if after.contains(x) {
                let k = choose|k: int| 0 <= k < after.len() && after[k] == x;
                if k < at {
                    assert(before[k] == x);
                } else if k > at {
                    assert(before[k - 1] == x);
                }
            }
            if before.contains(x) {
                let k = choose|k: int| 0 <= k < before.len() && before[k] == x;
                if k < at {
                    assert(after[k] == x);
                } else {
                    assert(after[k + 1] == x);
                }
            }
            if x == id@ {
                assert(after[at as int] == x);
            }
        }
    }
}

/// Adds the dependencies of `found` to the ascending ids.
fn insert_dependencies(ids: &mut Vec<String>, found: &Addon)
    requires
        ascending(texts(old(ids)@)),
    ensures
        ascending(texts(final(ids)@)),
        forall|x: Seq<char>|
            #![trigger texts(final(ids)@).contains(x)]
            texts(final(ids)@).contains(x) <==> texts(old(ids)@).contains(x)
                || found@.dependencies.contains(x),
{
    let mut j: usize = 0;
    while j < found.dependencies.len()
        invariant
            j <= found.dependencies.len(),
            ascending(texts(ids@)),
            forall|x: Seq<char>|
                texts(ids@).contains(x) <==> texts(old(ids)@).contains(x) || exists|m: int|
                    0 <= m < j && #[trigger] found@.dependencies[m] == x,
        decreases found.dependencies.len() - j,
    {
        insert_sorted(ids, found.dependencies[j].clone());
        proof {
            let added = found@.dependencies[j as int];
            assert forall|x: Seq<char>|
                texts(ids@).contains(x) <==> texts(old(ids)@).contains(x) || exists|m: int|
                    0 <= m < j + 1 && #[trigger] found@.dependencies[m] == x by {
                if x == added {
                    assert(found@.dependencies[j as int] == x);
                }
            }
        }
        j += 1;
    }
}

impl Addon {
    /// The ids that count as one with this addon when it is removed,
    /// looked up in `addons`, the whole collection.
    ///
    /// The result holds the addon's own id. For each of its dependencies
    /// that names an addon of the collection, it holds that id and the
    /// ids that the named addon depends on, but no more than that: what
    /// those depend on in turn is not followed. A dependency that names no
    /// addon of the collection is passed over, and so is one that names a
    /// parent while this addon is a parent. The ids come in ascending
    /// order, each once.
    pub fn combined_dependencies(&self, addons: &Vec<Addon>) -> (r: Vec<String>)
        ensures
            ascending(texts(r@)),
            forall|x: Seq<char>|
                #![trigger texts(r@).contains(x)]
                #![trigger in_closure(self@, models(addons@), x)]
                texts(r@).contains(x) <==> in_closure(self@, models(addons@), x),
            texts(r@).contains(self@.id),
    {
        let mut ids: Vec<String> = Vec::new();
        insert_sorted(&mut ids, self.id.clone());
        let mut k: usize = 0;
        while k < self.dependencies.len()
            invariant
                k <= self.dependencies.len(),
                ascending(texts(ids@)),
                forall|x: Seq<char>|
                    texts(ids@).contains(x) <==> x == self@.id || exists|i: int|
                        i < k && brought_by(self@, models(addons@), i, x),
            decreases self.dependencies.len() - k,
        {
            let ghost so_far = texts(ids@);
            let dependency = &self.dependencies[k];
            assert(dependency@ == self@.dependencies[k as int]);
            let ghost all = models(addons@);
            match find(addons, dependency) {
                Some(at) => {
                    let found = &addons[at];
                    assert(all[at as int] == found@);
                    if !(self.is_parent() && found.is_parent()) {
                        insert_sorted(&mut ids, dependency.clone());
                        let ghost with_id = texts(ids@);
                        insert_dependencies(&mut ids, found);
                        assert(brought(self@, all, dependency@) == Some(found@));
                        assert forall|x: Seq<char>|
                            texts(ids@).contains(x) <==> so_far.contains(x) || brought_by(
                                self@,
                                all,
                                k as int,
                                x,
                            ) by {
                            assert(with_id.contains(x) <==> so_far.contains(x) || x
                                == dependency@);
                        }
                    } else {
                        assert(brought(self@, all, dependency@) is None);
                    }
                },
                None => {
                    assert(brought(self@, all, dependency@) is None);
                },
            }
            proof {
                assert forall|x: Seq<char>|
                    texts(ids@).contains(x) <==> x == self@.id || exists|i: int|
                        i < k + 1 && brought_by(self@, models(addons@), i, x) by {
                    let here = brought_by(self@, all, k as int, x);
                    assert(texts(ids@).contains(x) <==> so_far.contains(x) || here);
                    if exists|i: int| i < k + 1 && brought_by(self@, models(addons@), i, x) {
                        let i = choose|i: int|
                            i < k + 1 && brought_by(self@, models(addons@), i, x);
                        if i < k {
                            assert(so_far.contains(x));
                        }
                    }
                }
            }
            k += 1;
        }
        ids
    }
}

/// No two addons of the collection have the same id.
pub open spec fn unique_ids(addons: Seq<AddonModel>) -> bool {
    forall|i: int, j: int| 0 <= i < j < addons.len() ==> addons[i].id != addons[j].id
}

/// An addon that `target` brings along lists `x` among its dependencies.
pub open spec fn listed_by_brought(target: AddonModel, addons: Seq<AddonModel>, x: Seq<char>) -> bool {
    exists|i: int|
        {
            &&& 0 <= i < target.dependencies.len()
            &&& (#[trigger] brought(target, addons, target.dependencies[i])) matches Some(a)
            &&& a.dependencies.contains(x)
        }
}

/// What a lookup from `from` on finds: an addon of the collection with
/// the id asked for, and nothing only if no addon from there on has it.
pub proof fn lemma_lookup_from(addons: Seq<AddonModel>, id: Seq<char>, from: int)
    requires
        0 <= from,
    ensures
        match lookup_from(addons, id, from) {
            Some(a) => exists|i: int|
                from <= i < addons.len() && #[trigger] addons[i] == a && a.id == id && forall|
                    j: int,
                | from <= j < i ==> (#[trigger] addons[j]).id != id,
            None => forall|i: int| from <= i < addons.len() ==> (#[trigger] addons[i]).id != id,
        },
    decreases addons.len() - from,
{
    if from < addons.len() {
        if addons[from].id == id {
            assert(addons[from] == addons[from]);
        } else {
            lemma_lookup_from(addons, id, from + 1);
            match lookup_from(addons, id, from + 1) {
                Some(a) => {
                    let i = choose|i: int|
                        from + 1 <= i < addons.len() && #[trigger] addons[i] == a && a.id == id
                            && forall|j: int|
                            from + 1 <= j < i ==> (#[trigger] addons[j]).id != id;
                    assert(addons[i] == a);
                },
                None => {},
            }
        }
    }
}

/// Where ids are unique, the id of an addon of the collection names that
/// addon.
pub proof fn lemma_lookup_own_id(addons: Seq<AddonModel>, at: int)
    requires
        unique_ids(addons),
        0 <= at < addons.len(),
    ensures
        lookup(addons, addons[at].id) == Some(addons[at]),
{
    lemma_lookup_from(addons, addons[at].id, 0);
}

/// A parent never takes another parent along. Let the target and an
/// addon of the collection both be parents, and let the target depend on
/// that addon. Then the addon's id is not among the combined
/// dependencies, unless it is the target's own id or a dependency of an
/// addon that the target does bring along.
pub proof fn lemma_parent_skips_parent(target: AddonModel, addons: Seq<AddonModel>, at: int)
    requires
        unique_ids(addons),
        0 <= at < addons.len(),
        target.is_parent(),
        addons[at].is_parent(),
        target.dependencies.contains(addons[at].id),
        addons[at].id != target.id,
        !listed_by_brought(target, addons, addons[at].id),
    ensures
        !in_closure(target, addons, addons[at].id),
{
    let x = addons[at].id;
    lemma_lookup_own_id(addons, at);
    assert(brought(target, addons, x) is None);
    if in_closure(target, addons, x) {
        let i = choose|i: int| brought_by(target, addons, i, x);
        assert(brought(target, addons, target.dependencies[i]) is Some);
    }
}

/// A dependency that is not a parent comes along with what it depends
/// on, and the closure ends there. Let the target depend on an addon `c`
/// of the collection that is not a parent, let `c` depend on an addon
/// `d` of the collection, and let `d` depend on `e`. Then the ids of `c`
/// and `d` are among the combined dependencies. The id `e` is not,
/// unless it is the target's own id, names an addon that the target
/// brings along, or is a dependency of such an addon.
pub proof fn lemma_non_parent_expands_one_level(
    target: AddonModel,
    addons: Seq<AddonModel>,
    c: int,
    d: int,
    e: Seq<char>,
)
    requires
        unique_ids(addons),
        0 <= c < addons.len(),
        0 <= d < addons.len(),
        target.dependencies.contains(addons[c].id),
        !addons[c].is_parent(),
        addons[c].dependencies.contains(addons[d].id),
        addons[d].dependencies.contains(e),
        e != target.id,
        !(target.dependencies.contains(e) && brought(target, addons, e) is Some),
        !listed_by_brought(target, addons, e),
    ensures
        in_closure(target, addons, addons[c].id),
        in_closure(target, addons, addons[d].id),
        !in_closure(target, addons, e),
{
    lemma_lookup_own_id(addons, c);
    let i = choose|i: int|
        0 <= i < target.dependencies.len() && target.dependencies[i] == addons[c].id;
    assert(brought(target, addons, target.dependencies[i]) == Some(addons[c]));
    assert(brought_by(target, addons, i, addons[c].id));
    assert(brought_by(target, addons, i, addons[d].id));
    if in_closure(target, addons, e) {
        let k = choose|k: int| brought_by(target, addons, k, e);
        assert(brought(target, addons, target.dependencies[k]) is Some);
        assert(target.dependencies.contains(target.dependencies[k]));
    }
}

/// A dependency that names no addon of the collection is passed over:
/// its id is not among the combined dependencies, unless it is the
/// target's own id or a dependency of an addon that the target brings
/// along.
pub proof fn lemma_dangling_is_absent(target: AddonModel, addons: Seq<AddonModel>, id: Seq<char>)
    requires
        target.dependencies.contains(id),
        forall|i: int| 0 <= i < addons.len() ==> (#[trigger] addons[i]).id != id,
        id != target.id,
        !listed_by_brought(target, addons, id),
    ensures
        !in_closure(target, addons, id),
{
    lemma_lookup_from(addons, id, 0);
    assert(brought(target, addons, id) is None);
    if in_closure(target, addons, id) {
        let k = choose|k: int| brought_by(target, addons, k, id);
        assert(brought(target, addons, target.dependencies[k]) is Some);
    }
}

/// Ascending ids are determined by which ids they are: two ascending
/// sequences that hold the same ids are the same sequence.
pub proof fn lemma_ascending_determined(a: Seq<Seq<char>>, b: Seq<Seq<char>>)
    requires
        ascending(a),
        ascending(b),
        forall|x: Seq<char>| a.contains(x) <==> b.contains(x),
    ensures
        a == b,
    decreases a.len(),
{
    if a.len() == 0 {
        if b.len() > 0 {
            assert(b.contains(b[0]));
        }
        assert(a =~= b);
    } else {
        assert(a.contains(a[0]));
        let j = choose|j: int| 0 <= j < b.len() && b[j] == a[0];
        assert(b.contains(b[0]));
        let i = choose|i: int| 0 <= i < a.len() && a[i] == b[0];
        lemma_text_lt_strict_total(a[0], b[0], a[0]);
        assert(a[0] == b[0]);
        let x = a.drop_first();
        let y = b.drop_first();
        assert forall|v: Seq<char>| x.contains(v) <==> y.contains(v) by {
            lemma_text_lt_strict_total(a[0], v, a[0]);
            if x.contains(v) {
                let k = choose|k: int| 0 <= k < x.len() && x[k] == v;
                assert(a[k + 1] == v);
                assert(b.contains(v));
                let m = choose|m: int| 0 <= m < b.len() && b[m] == v;
                assert(y[m - 1] == v);
            }
            if y.contains(v) {
                let k = choose|k: int| 0 <= k < y.len() && y[k] == v;
                assert(b[k + 1] == v);
                assert(a.contains(v));
                let m = choose|m: int| 0 <= m < a.len() && a[m] == v;
                assert(x[m - 1] == v);
            }
        }
        assert(ascending(x)) by {
            assert forall|p: int, q: int| 0 <= p < q < x.len() implies text_lt(x[p], x[q]) by {
                assert(x[p] == a[p + 1] && x[q] == a[q + 1]);
            }
        }
        assert(ascending(y)) by {
            assert forall|p: int, q: int| 0 <= p < q < y.len() implies text_lt(y[p], y[q]) by {
                assert(y[p] == b[p + 1] && y[q] == b[q + 1]);
            }
        }
        lemma_ascending_determined(x, y);
        assert(a =~= seq![a[0]] + x);
        assert(b =~= seq![b[0]] + y);
    }
}

} // verus!
