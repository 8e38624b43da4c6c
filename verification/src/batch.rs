//! The identifiers of the messages that one cycle forwards.

use vstd::prelude::*;

verus! {

/// The identifiers of `ids` in the order of their first occurrence, each
/// once.
pub open spec fn distinct(ids: Seq<u32>) -> Seq<u32>
    decreases ids.len(),
{
    if ids.len() == 0 {
        Seq::empty()
    } else {
        let before = distinct(ids.drop_last());
        if before.contains(ids.last()) {
            before
        } else {
            before.push(ids.last())
        }
    }
}

/// `distinct` repeats nothing, holds exactly the identifiers it was given,
/// and is no longer than what it was given.
pub proof fn lemma_distinct(ids: Seq<u32>)
    ensures
        distinct(ids).no_duplicates(),
        forall|id: u32| distinct(ids).contains(id) <==> ids.contains(id),
        distinct(ids).len() <= ids.len(),
        ids.len() > 0 ==> distinct(ids).len() > 0 && distinct(ids)[0] == ids[0],
    decreases ids.len(),
{
    if ids.len() > 0 {
        let front = ids.drop_last();
        let before = distinct(front);
        lemma_distinct(front);
        assert forall|id: u32| distinct(ids).contains(id) <==> ids.contains(id) by {
            if ids.contains(id) {
                let i = choose|i: int| 0 <= i < ids.len() && ids[i] == id;
                if i < front.len() {
                    assert(front[i] == id);
                    assert(front.contains(id));
                    assert(before.contains(id));
                    let j = choose|j: int| 0 <= j < before.len() && before[j] == id;
                    assert(distinct(ids)[j] == id);
                } else {
                    if !before.contains(id) {
                        assert(distinct(ids)[before.len() as int] == id);
                    }
                }
            }
            if distinct(ids).contains(id) {
                let j = choose|j: int| 0 <= j < distinct(ids).len() && distinct(ids)[j] == id;
                if j < before.len() {
                    assert(before[j] == id);
                    assert(before.contains(id));
                    assert(front.contains(id));
                    let i = choose|i: int| 0 <= i < front.len() && front[i] == id;
                    assert(ids[i] == id);
                } else {
                    assert(ids[ids.len() - 1] == id);
                }
            }
        }
        if front.len() == 0 {
            assert(!before.contains(ids.last()));
        }
    }
}

/// Identifiers that hold none twice stay as they are.
pub proof fn lemma_distinct_keeps_distinct(ids: Seq<u32>)
    requires
        ids.no_duplicates(),
    ensures
        distinct(ids) == ids,
    decreases ids.len(),
{
    if ids.len() > 0 {
        let front = ids.drop_last();
        lemma_distinct_keeps_distinct(front);
        if front.contains(ids.last()) {
            let i = choose|i: int| 0 <= i < front.len() && front[i] == ids.last();
            assert(ids[i] == ids[ids.len() - 1]);
        }
        assert(front.push(ids.last()) =~= ids);
    }
}

/// Whether `id` occurs in `ids`.
fn holds(ids: &Vec<u32>, id: u32) -> (found: bool)
    ensures
        found == ids@.contains(id),
{
    let mut i: usize = 0;
    while i < ids.len()
        invariant
            i <= ids.len(),
            forall|k: int| 0 <= k < i ==> ids@[k] != id,
        decreases ids.len() - i,
    {
        if ids[i] == id {
            return true;
        }
        i += 1;
    }
    false
}

/// Drops every identifier that occurred before, and keeps the others in
/// their order.
pub fn distinct_in_order(ids: &Vec<u32>) -> (kept: Vec<u32>)
    ensures
        kept@ == distinct(ids@),
        kept@.no_duplicates(),
        forall|id: u32| kept@.contains(id) <==> ids@.contains(id),
        ids@.no_duplicates() ==> kept@ == ids@,
{
    let mut kept: Vec<u32> = Vec::new();
    let mut i: usize = 0;
    assert(ids@.take(0) =~= Seq::<u32>::empty());
    while i < ids.len()
        invariant
            i <= ids.len(),
            kept@ == distinct(ids@.take(i as int)),
        decreases ids.len() - i,
    {
        let id = ids[i];
        assert(ids@.take(i + 1).drop_last() =~= ids@.take(i as int));
        if !holds(&kept, id) {
            kept.push(id);
        }
        i += 1;
    }
    assert(ids@.take(i as int) =~= ids@);
    proof {
        lemma_distinct(ids@);
        if ids@.no_duplicates() {
            lemma_distinct_keeps_distinct(ids@);
        }
    }
    kept
}

} // verus!
