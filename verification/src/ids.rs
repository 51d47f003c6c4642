//! Token-identifier inventories: membership and removal, with the lemmas the
//! resolution handlers rest on.
//!
//! An inventory is a `Vec<String>` holding each identifier at most once; its
//! model is the `Seq<Seq<char>>` deep view. Removal of a batch of identifiers
//! is [`remove_ids`]: each listed identifier's first occurrence is dropped,
//! and an absent identifier is tolerated.

use vstd::prelude::*;

verus! {

/// The inventory after removing, in order, the first occurrence of every
/// identifier in `rm`; identifiers not present are skipped.
pub open spec fn remove_ids(ids: Seq<Seq<char>>, rm: Seq<Seq<char>>) -> Seq<Seq<char>>
    decreases rm.len(),
{
    if rm.len() == 0 {
        ids
    } else {
        remove_ids(ids.remove_value(rm[0]), rm.drop_first())
    }
}

/// Removing one identifier from a duplicate-free inventory removes exactly
/// its membership and keeps the inventory duplicate-free.
pub proof fn lemma_remove_value_props(ids: Seq<Seq<char>>, x: Seq<char>)
    requires
        ids.no_duplicates(),
    ensures
        ids.remove_value(x).no_duplicates(),
        !ids.remove_value(x).contains(x),
        forall|y: Seq<char>| y != x ==> ids.remove_value(x).contains(y) == ids.contains(y),
        ids.remove_value(x).to_set() == ids.to_set().remove(x),
        !ids.contains(x) ==> ids.remove_value(x) == ids,
{
    ids.index_of_first_ensures(x);
    let r = ids.remove_value(x);
    match ids.index_of_first(x) {
        Some(i) => {
            ids.remove_ensures(i);
            assert forall|p: int, q: int|
                0 <= p < r.len() && 0 <= q < r.len() && p != q implies r[p] != r[q] by {
                let p0: int = if p < i { p } else { p + 1 };
                let q0: int = if q < i { q } else { q + 1 };
                assert(r[p] == ids[p0]);
                assert(r[q] == ids[q0]);
            }
            assert(r.no_duplicates());
            assert(!r.contains(x)) by {
                if exists|j: int| 0 <= j < r.len() && r[j] == x {
                    let j = choose|j: int| 0 <= j < r.len() && r[j] == x;
                    let j0: int = if j < i { j } else { j + 1 };
                    assert(ids[j0] == x);
                    assert(ids[i] == x);
                }
            }
            assert forall|y: Seq<char>| y != x implies r.contains(y) == ids.contains(y) by {
                if r.contains(y) {
                    let j = choose|j: int| 0 <= j < r.len() && r[j] == y;
                    let j0: int = if j < i { j } else { j + 1 };
                    assert(ids[j0] == y);
                }
                if ids.contains(y) {
                    let j0 = choose|j0: int| 0 <= j0 < ids.len() && ids[j0] == y;
                    let j: int = if j0 < i { j0 } else { j0 - 1 };
                    assert(ids[i] == x);
                    assert(j0 != i);
                    assert(r[j] == ids[j0]);
                }
            }
            assert(r.to_set() =~= ids.to_set().remove(x));
        },
        None => {
            assert(r == ids);
            assert(r.to_set() =~= ids.to_set().remove(x));
        },
    }
}

/// Batch removal from a duplicate-free inventory realizes set difference:
/// exactly the listed identifiers lose membership, no duplicate appears, and
/// absent identifiers are tolerated.
pub proof fn lemma_remove_ids_props(ids: Seq<Seq<char>>, rm: Seq<Seq<char>>)
    requires
        ids.no_duplicates(),
    ensures
        remove_ids(ids, rm).no_duplicates(),
        forall|y: Seq<char>|
            remove_ids(ids, rm).contains(y) == (ids.contains(y) && !rm.contains(y)),
        remove_ids(ids, rm).to_set() == ids.to_set().difference(rm.to_set()),
    decreases rm.len(),
{
    let r = remove_ids(ids, rm);
    if rm.len() == 0 {
        assert(forall|y: Seq<char>| !rm.contains(y));
        assert(r.to_set() =~= ids.to_set().difference(rm.to_set()));
    } else {
        let ids1 = ids.remove_value(rm[0]);
        lemma_remove_value_props(ids, rm[0]);
        lemma_remove_ids_props(ids1, rm.drop_first());
        assert forall|y: Seq<char>| rm.contains(y) == (y == rm[0]
            || rm.drop_first().contains(y)) by {
            if rm.contains(y) {
                let j = choose|j: int| 0 <= j < rm.len() && rm[j] == y;
                if j != 0 {
                    assert(rm.drop_first()[j - 1] == y);
                }
            }
            if rm.drop_first().contains(y) {
                let j = choose|j: int| 0 <= j < rm.drop_first().len() && rm.drop_first()[j] == y;
                assert(rm[j + 1] == y);
            }
        }
        assert forall|y: Seq<char>| r.contains(y) == (ids.contains(y) && !rm.contains(y)) by {
            assert(r.contains(y) == (ids1.contains(y) && !rm.drop_first().contains(y)));
            if y == rm[0] {
                assert(!ids1.contains(y));
            } else {
                assert(ids1.contains(y) == ids.contains(y));
            }
        }
        assert(r.to_set() =~= ids.to_set().difference(rm.to_set()));
    }
}

/// Removing identifiers that are all absent changes nothing.
pub proof fn lemma_remove_ids_noop(ids: Seq<Seq<char>>, rm: Seq<Seq<char>>)
    requires
        forall|y: Seq<char>| rm.contains(y) ==> !ids.contains(y),
    ensures
        remove_ids(ids, rm) == ids,
    decreases rm.len(),
{
    if rm.len() != 0 {
        ids.index_of_first_ensures(rm[0]);
        assert(rm.contains(rm[0]));
        assert(ids.remove_value(rm[0]) == ids);
        assert forall|y: Seq<char>| rm.drop_first().contains(y) implies !ids.contains(y) by {
            let j = choose|j: int| 0 <= j < rm.drop_first().len() && rm.drop_first()[j] == y;
            assert(rm[j + 1] == y);
        }
        lemma_remove_ids_noop(ids, rm.drop_first());
    }
}

/// Batch removal is idempotent on a duplicate-free inventory: once the listed
/// identifiers are gone, removing them again changes nothing.
pub proof fn lemma_remove_ids_idempotent(ids: Seq<Seq<char>>, rm: Seq<Seq<char>>)
    requires
        ids.no_duplicates(),
    ensures
        remove_ids(remove_ids(ids, rm), rm) == remove_ids(ids, rm),
{
    lemma_remove_ids_props(ids, rm);
    lemma_remove_ids_noop(remove_ids(ids, rm), rm);
}

/// The position of the first occurrence of `x` in `v`, if any.
fn index_of_id(v: &Vec<String>, x: &String) -> (r: Option<usize>)
    ensures
        match r {
            Some(i) => i < v.len() && v.deep_view()[i as int] == x@ && (forall|j: int|
                0 <= j < i ==> v.deep_view()[j] != x@),
            None => !v.deep_view().contains(x@),
        },
{
    let mut i: usize = 0;
    while i < v.len()
        invariant
            i <= v.len(),
            v.deep_view().len() == v.len(),
            forall|j: int| 0 <= j < i ==> v.deep_view()[j] != x@,
        decreases v.len() - i,
    {
        if v[i] == *x {
            return Some(i);
        }
        i += 1;
    }
    None
}

/// Whether the inventory holds `x`.
pub fn has_id(v: &Vec<String>, x: &String) -> (r: bool)
    ensures
        r == v.deep_view().contains(x@),
{
    let r = index_of_id(v, x);
    match r {
        Some(i) => {
            proof {
                assert(v.deep_view()[i as int] == x@);
            }
            true
        },
        None => false,
    }
}

/// Removes the first occurrence of `x` from the inventory; leaves it
/// unchanged when `x` is absent.
pub fn remove_id(v: &mut Vec<String>, x: &String)
    ensures
        final(v).deep_view() == old(v).deep_view().remove_value(x@),
{
    let found = index_of_id(v, x);
    proof {
        old(v).deep_view().index_of_first_ensures(x@);
    }
    match found {
        Some(i) => {
            let ghost dv0 = v.deep_view();
            let _ = v.remove(i);
            proof {
                let fi = dv0.index_of_first(x@);
                assert(fi == Some(i as int)) by {
                    let k = fi->Some_0;
                    if k < i as int {
                        assert(dv0[k] == x@);
                    }
                    if k > i as int {
                        assert(dv0[i as int] == x@);
                    }
                }
                assert(final(v).deep_view() =~= dv0.remove(i as int));
            }
        },
        None => {
            proof {
                assert(final(v).deep_view() =~= old(v).deep_view());
            }
        },
    }
}

/// Removes, in order, the first occurrence of every identifier in `rm`;
/// absent identifiers are skipped.
pub fn remove_all_ids(v: &mut Vec<String>, rm: &Vec<String>)
    ensures
        final(v).deep_view() == remove_ids(old(v).deep_view(), rm.deep_view()),
{
    let ghost dv0 = old(v).deep_view();
    let ghost rmv = rm.deep_view();
    proof {
        assert(rmv.skip(0) =~= rmv);
    }
    let mut k: usize = 0;
    while k < rm.len()
        invariant
            k <= rm.len(),
            rmv == rm.deep_view(),
            rmv.len() == rm.len(),
            remove_ids(dv0, rmv) == remove_ids(v.deep_view(), rmv.skip(k as int)),
        decreases rm.len() - k,
    {
        let ghost cur = v.deep_view();
        remove_id(v, &rm[k]);
        proof {
            assert(rmv.skip(k as int)[0] == rmv[k as int]);
            assert(rmv.skip(k as int).drop_first() =~= rmv.skip(k as int + 1));
            assert(remove_ids(cur, rmv.skip(k as int)) == remove_ids(
                cur.remove_value(rmv[k as int]),
                rmv.skip(k as int + 1),
            ));
        }
        k += 1;
    }
    proof {
        assert(rmv.skip(rm.len() as int) =~= Seq::<Seq<char>>::empty());
        assert(remove_ids(v.deep_view(), rmv.skip(rm.len() as int)) == v.deep_view());
    }
}

} // verus!
