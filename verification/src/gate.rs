//! The authorization gate: a pure decision over permission sets.
//!
//! A principal may act when every required permission is among those it holds. The
//! delegation checks add a fixed anchor permission to the permissions that an
//! operation affects, so that nobody can touch a capability that they do not hold.

use vstd::prelude::*;
use crate::permission::Permission;

verus! {

/// The set of permissions that a list holds; order and repetition do not matter.
pub open spec fn as_set(permissions: Seq<Permission>) -> Set<Permission> {
    permissions.to_set()
}

/// `required` is a subset of `held`.
pub open spec fn permitted(held: Seq<Permission>, required: Seq<Permission>) -> bool {
    as_set(required).subset_of(as_set(held))
}

/// The delegation rule on sets: the holder has the anchor and everything that is
/// affected.
pub open spec fn covers(held: Set<Permission>, anchor: Permission, affected: Set<Permission>) -> bool {
    affected.insert(anchor).subset_of(held)
}

/// The delegation rule on lists.
pub open spec fn dominates(held: Seq<Permission>, anchor: Permission, affected: Seq<Permission>) -> bool {
    covers(as_set(held), anchor, as_set(affected))
}

/// Whether `held` lists `p`.
pub fn holds(held: &Vec<Permission>, p: Permission) -> (r: bool)
    ensures
        r == as_set(held@).contains(p),
{
    let mut i: usize = 0;
    while i < held.len()
        invariant
            i <= held.len(),
            forall|j: int| 0 <= j < i ==> held@[j] != p,
        decreases held.len() - i,
    {
        if held[i] == p {
            return true;
        }
        i += 1;
    }
    false
}

/// The direct check: every permission in `required` is held.
pub fn may(held: &Vec<Permission>, required: &Vec<Permission>) -> (r: bool)
    ensures
        r == permitted(held@, required@),
{
    let mut i: usize = 0;
    while i < required.len()
        invariant
            i <= required.len(),
            forall|j: int| 0 <= j < i ==> as_set(held@).contains(#[trigger] required@[j]),
        decreases required.len() - i,
    {
        if !holds(held, required[i]) {
            assert(as_set(required@).contains(required@[i as int]));
            return false;
        }
        i += 1;
    }
    true
}

/// The delegation check: `held` includes `anchor` and every permission in `affected`.
pub fn may_delegate(held: &Vec<Permission>, anchor: Permission, affected: &Vec<Permission>) -> (r: bool)
    ensures
        r == dominates(held@, anchor, affected@),
{
    let allowed = holds(held, anchor) && may(held, affected);
    proof {
        let need = as_set(affected@).insert(anchor);
        if allowed {
            assert(need.subset_of(as_set(held@)));
        } else if !as_set(held@).contains(anchor) {
            assert(need.contains(anchor));
        } else {
            let p = choose|p: Permission| as_set(affected@).contains(p) && !as_set(held@).contains(p);
            assert(need.contains(p));
        }
    }
    allowed
}

/// Appending `p` to a list adds `p` to its set and nothing else.
pub proof fn set_after_push(list: Seq<Permission>, p: Permission)
    ensures
        as_set(list.push(p)) == as_set(list).insert(p),
{
    let longer = list.push(p);
    assert forall|q: Permission| as_set(longer).contains(q) <==> as_set(list).insert(p).contains(q) by {
        if as_set(longer).contains(q) {
            let i = choose|i: int| 0 <= i < longer.len() && longer[i] == q;
            if i < list.len() {
                assert(list[i] == q);
            }
        }
        if as_set(list).contains(q) {
            let i = choose|i: int| 0 <= i < list.len() && list[i] == q;
            assert(longer[i] == q);
        }
        if q == p {
            assert(longer[list.len() as int] == q);
        }
    }
    assert(as_set(longer) =~= as_set(list).insert(p));
}

/// A copy of the list.
pub fn copied(list: &Vec<Permission>) -> (r: Vec<Permission>)
    ensures
        r@ == list@,
{
    let mut out: Vec<Permission> = Vec::new();
    let mut i: usize = 0;
    while i < list.len()
        invariant
            i <= list.len(),
            out@ == list@.take(i as int),
        decreases list.len() - i,
    {
        out.push(list[i]);
        assert(out@ =~= list@.take(i + 1));
        i += 1;
    }
    assert(out@ =~= list@);
    out
}

/// The permissions of `current` followed by those of `extra` that `current` lacks:
/// the union of the two, with nothing added twice.
pub fn merged(current: &Vec<Permission>, extra: &Vec<Permission>) -> (r: Vec<Permission>)
    ensures
        as_set(r@) == as_set(current@).union(as_set(extra@)),
        current@.is_prefix_of(r@),
        forall|i: int, j: int|
            current@.len() <= i < r@.len() && 0 <= j < r@.len() && i != j ==> r@[i] != r@[j],
{
    let mut out = copied(current);
    let mut j: usize = 0;
    assert(as_set(extra@.take(0)) =~= Set::<Permission>::empty());
    assert(as_set(out@) =~= as_set(current@).union(as_set(extra@.take(0))));
    while j < extra.len()
        invariant
            j <= extra.len(),
            current@.is_prefix_of(out@),
            as_set(out@) == as_set(current@).union(as_set(extra@.take(j as int))),
            forall|a: int, b: int|
                current@.len() <= a < out@.len() && 0 <= b < out@.len() && a != b ==> out@[a] != out@[b],
        decreases extra.len() - j,
    {
        let p = extra[j];
        proof {
            assert(extra@.take(j + 1) =~= extra@.take(j as int).push(p));
            set_after_push(extra@.take(j as int), p);
        }
        if !holds(&out, p) {
            proof {
                set_after_push(out@, p);
            }
            out.push(p);
        }
        assert(as_set(out@) =~= as_set(current@).union(as_set(extra@.take(j + 1))));
        j += 1;
    }
    assert(extra@.take(extra.len() as int) =~= extra@);
    out
}

/// The permissions of `current` that are not in `removed`, in their order.
pub open spec fn remaining_after(current: Seq<Permission>, removed: Set<Permission>) -> Seq<Permission> {
    current.filter(|p: Permission| !removed.contains(p))
}

/// The permissions of `current` that `removed` does not list, in their order: the
/// difference of the two.
pub fn without(current: &Vec<Permission>, removed: &Vec<Permission>) -> (r: Vec<Permission>)
    ensures
        r@ == remaining_after(current@, as_set(removed@)),
        as_set(r@) == as_set(current@).difference(as_set(removed@)),
{
    let mut out: Vec<Permission> = Vec::new();
    let mut i: usize = 0;
    proof {
        reveal(Seq::filter);
        assert(as_set(current@.take(0)) =~= Set::<Permission>::empty());
        assert(as_set(out@) =~= as_set(current@.take(0)).difference(as_set(removed@)));
        assert(out@ =~= remaining_after(current@.take(0), as_set(removed@)));
    }
    while i < current.len()
        invariant
            i <= current.len(),
            out@ == remaining_after(current@.take(i as int), as_set(removed@)),
            as_set(out@) == as_set(current@.take(i as int)).difference(as_set(removed@)),
        decreases current.len() - i,
    {
        let p = current[i];
        proof {
            reveal(Seq::filter);
            assert(current@.take(i + 1).drop_last() =~= current@.take(i as int));
            assert(current@.take(i + 1) =~= current@.take(i as int).push(p));
            set_after_push(current@.take(i as int), p);
        }
        if !holds(removed, p) {
            proof {
                set_after_push(out@, p);
            }
            out.push(p);
        }
        assert(as_set(out@) =~= as_set(current@.take(i + 1)).difference(as_set(removed@)));
        i += 1;
    }
    assert(current@.take(current.len() as int) =~= current@);
    out
}

} // verus!
