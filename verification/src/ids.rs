//! Lists of user IDs.

use vstd::prelude::*;

verus! {

/// Whether a list of IDs is in order and holds none twice.
pub open spec fn is_ordered(ids: Seq<i64>) -> bool {
    forall|i: int, j: int| 0 <= i < j < ids.len() ==> #[trigger] ids[i] < #[trigger] ids[j]
}

/// Whether `id` is one of `ids`.
pub fn contains_id(ids: &[i64], id: i64) -> (result: bool)
    ensures
        result == ids@.contains(id),
{
    let mut i: usize = 0;
    while i < ids.len()
        invariant
            i <= ids@.len(),
            forall|k: int| 0 <= k < i ==> ids@[k] != id,
        decreases ids@.len() - i,
    {
        if ids[i] == id {
            return true;
        }
        i = i + 1;
    }
    false
}

/// Where `id` stands in an ordered list, or where it belongs.
fn place_of(ids: &Vec<i64>, id: i64) -> (result: usize)
    requires
        is_ordered(ids@),
    ensures
        result <= ids@.len(),
        forall|k: int| 0 <= k < result ==> ids@[k] < id,
        forall|k: int| result <= k < ids@.len() ==> id <= ids@[k],
{
    let mut at: usize = 0;
    while at < ids.len() && ids[at] < id
        invariant
            at <= ids@.len(),
            forall|k: int| 0 <= k < at ==> ids@[k] < id,
        decreases ids@.len() - at,
    {
        at = at + 1;
    }
    at
}

/// Adds `id` to an ordered list, unless it is there; whether it was added.
pub fn insert_id(ids: &mut Vec<i64>, id: i64) -> (added: bool)
    requires
        is_ordered(old(ids)@),
    ensures
        is_ordered(final(ids)@),
        added == !old(ids)@.contains(id),
        !added ==> final(ids)@ == old(ids)@,
        final(ids)@.len() == old(ids)@.len() + if added {
            1int
        } else {
            0
        },
        forall|other: i64| #[trigger]
            final(ids)@.contains(other) <==> old(ids)@.contains(other) || other == id,
{
    let ghost before = ids@;
    let at: usize = place_of(ids, id);
    if at < ids.len() && ids[at] == id {
        assert(before[at as int] == id);
        return false;
    }
    assert(!before.contains(id)) by {
        assert forall|k: int| 0 <= k < before.len() implies before[k] != id by {
            if k > at {
                assert(before[at as int] < before[k]);
            }
        }
    }
    ids.insert(at, id);
    proof {
        let after = ids@;
        assert(after =~= before.insert(at as int, id));
        assert forall|other: i64| #[trigger] after.contains(other) <==> before.contains(other)
            || other == id by {
            if after.contains(other) {
                let k = choose|k: int| 0 <= k < after.len() && after[k] == other;
                if k < at {
                    assert(before[k] == other);
                } else if k > at {
                    assert(before[k - 1] == other);
                }
            }
            if before.contains(other) {
                let k = choose|k: int| 0 <= k < before.len() && before[k] == other;
                if k < at {
                    assert(after[k] == other);
                } else {
                    assert(after[k + 1] == other);
                }
            }
            assert(after[at as int] == id);
        }
    }
    true
}

/// Takes `id` out of an ordered list, if it is there; whether it was.
pub fn remove_id(ids: &mut Vec<i64>, id: i64) -> (removed: bool)
    requires
        is_ordered(old(ids)@),
    ensures
        is_ordered(final(ids)@),
        removed == old(ids)@.contains(id),
        !removed ==> final(ids)@ == old(ids)@,
        forall|other: i64| #[trigger]
            final(ids)@.contains(other) <==> old(ids)@.contains(other) && other != id,
{
    let ghost before = ids@;
    let at: usize = place_of(ids, id);
    if at < ids.len() && ids[at] == id {
        assert(before[at as int] == id);
        ids.remove(at);
        proof {
            let after = ids@;
            assert(after =~= before.remove(at as int));
            assert forall|other: i64| #[trigger] after.contains(other) <==> before.contains(other)
                && other != id by {
                if after.contains(other) {
                    let k = choose|k: int| 0 <= k < after.len() && after[k] == other;
                    if k < at {
                        assert(before[k] == other);
                    } else {
                        assert(before[k + 1] == other);
                    }
                }
                if before.contains(other) && other != id {
                    let k = choose|k: int| 0 <= k < before.len() && before[k] == other;
                    if k < at {
                        assert(after[k] == other);
                    } else {
                        assert(after[k - 1] == other);
                    }
                }
            }
        }
        true
    } else {
        assert(!before.contains(id)) by {
            assert forall|k: int| 0 <= k < before.len() implies before[k] != id by {
                if k > at {
                    assert(before[at as int] < before[k]);
                }
            }
        }
        false
    }
}

/// Adds every one of `more` to an ordered list.
pub fn insert_all(ids: &mut Vec<i64>, more: &[i64])
    requires
        is_ordered(old(ids)@),
    ensures
        is_ordered(final(ids)@),
        forall|id: i64| #[trigger]
            final(ids)@.contains(id) <==> old(ids)@.contains(id) || more@.contains(id),
{
    let ghost before = ids@;
    let mut i: usize = 0;
    while i < more.len()
        invariant
            i <= more@.len(),
            is_ordered(ids@),
            forall|id: i64| #[trigger]
                ids@.contains(id) <==> before.contains(id) || more@.take(i as int).contains(id),
        decreases more@.len() - i,
    {
        let ghost taken = more@.take(i as int);
        insert_id(ids, more[i]);
        proof {
            let next = more@.take(i + 1);
            assert(next =~= taken.push(more@[i as int]));
            assert forall|id: i64| #[trigger] ids@.contains(id) <==> before.contains(id)
                || next.contains(id) by {
                if taken.contains(id) {
                    let k = choose|k: int| 0 <= k < taken.len() && taken[k] == id;
                    assert(next[k] == id);
                }
                if next.contains(id) {
                    let k = choose|k: int| 0 <= k < next.len() && next[k] == id;
                    if k < i {
                        assert(taken[k] == id);
                    }
                }
                assert(next[i as int] == more@[i as int]);
            }
        }
        i = i + 1;
    }
    assert(more@.take(i as int) =~= more@);
}

/// An ordered list is settled by what it holds.
pub proof fn law_ordered_lists_are_unique(one: Seq<i64>, other: Seq<i64>)
    requires
        is_ordered(one),
        is_ordered(other),
        forall|id: i64| #[trigger] one.contains(id) <==> other.contains(id),
    ensures
        one == other,
    decreases one.len(),
{
    if one.len() == 0 {
        if other.len() > 0 {
            assert(other.contains(other[0]));
            assert(one.contains(other[0]));
        }
        assert(one =~= other);
    } else {
        assert(one.contains(one.last()));
        assert(other.contains(one.last()));
        assert(other.len() > 0);
        assert(other.contains(other.last()));
        assert(one.contains(other.last()));
        let i = choose|i: int| 0 <= i < other.len() && other[i] == one.last();
        let j = choose|j: int| 0 <= j < one.len() && one[j] == other.last();
        assert(one.last() <= other.last());
        assert(other.last() <= one.last());
        let one_rest = one.drop_last();
        let other_rest = other.drop_last();
        assert forall|id: i64| #[trigger] one_rest.contains(id) <==> other_rest.contains(id) by {
            if one_rest.contains(id) {
                let k = choose|k: int| 0 <= k < one_rest.len() && one_rest[k] == id;
                assert(one[k] == id);
                assert(one.contains(id));
                assert(other.contains(id));
                let m = choose|m: int| 0 <= m < other.len() && other[m] == id;
                assert(id < one.last());
                assert(other_rest[m] == id);
            }
            if other_rest.contains(id) {
                let k = choose|k: int| 0 <= k < other_rest.len() && other_rest[k] == id;
                assert(other[k] == id);
                assert(other.contains(id));
                assert(one.contains(id));
                let m = choose|m: int| 0 <= m < one.len() && one[m] == id;
                assert(id < other.last());
                assert(one_rest[m] == id);
            }
        }
        law_ordered_lists_are_unique(one_rest, other_rest);
        assert(one =~= one_rest.push(one.last()));
        assert(other =~= other_rest.push(other.last()));
    }
}

} // verus!
