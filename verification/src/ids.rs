//! Sequences of chunk identities without repetition, and what adding and
//! taking an identity at either end does to them.

use vstd::prelude::*;

verus! {

/// An identity that does not occur can be added at the end; it then occurs,
/// and nothing else changes.
pub proof fn lemma_push_fresh(ids: Seq<u64>, id: u64)
    requires
        ids.no_duplicates(),
        !ids.contains(id),
    ensures
        ids.push(id).no_duplicates(),
        forall|other: u64| ids.push(id).contains(other) <==> ids.contains(other) || other == id,
{
    assert forall|other: u64| ids.push(id).contains(other) <==> ids.contains(other) || other
        == id by {
        if ids.contains(other) {
            let i = choose|i: int| 0 <= i < ids.len() && ids[i] == other;
            assert(ids.push(id)[i] == other);
        }
        if other == id {
            assert(ids.push(id)[ids.len() as int] == id);
        }
    }
}

/// The last identity can be taken away; it then occurs no more, and nothing
/// is added.
pub proof fn lemma_drop_last(ids: Seq<u64>)
    requires
        ids.len() > 0,
        ids.no_duplicates(),
    ensures
        ids.drop_last().no_duplicates(),
        !ids.drop_last().contains(ids.last()),
        forall|other: u64| ids.drop_last().contains(other) ==> ids.contains(other),
        ids.contains(ids.last()),
{
    assert(ids[ids.len() - 1] == ids.last());
    assert forall|other: u64| ids.drop_last().contains(other) implies ids.contains(other) by {
        let i = choose|i: int| 0 <= i < ids.drop_last().len() && ids.drop_last()[i] == other;
        assert(ids[i] == other);
    }
}

/// The first identity can be taken away; it then occurs no more, and nothing
/// is added.
pub proof fn lemma_drop_first(ids: Seq<u64>)
    requires
        ids.len() > 0,
        ids.no_duplicates(),
    ensures
        ids.drop_first().no_duplicates(),
        !ids.drop_first().contains(ids.first()),
        forall|other: u64| ids.drop_first().contains(other) ==> ids.contains(other),
        ids.contains(ids.first()),
{
    assert(ids[0] == ids.first());
    assert forall|other: u64| ids.drop_first().contains(other) implies ids.contains(other) by {
        let i = choose|i: int| 0 <= i < ids.drop_first().len() && ids.drop_first()[i] == other;
        assert(ids[i + 1] == other);
    }
    if ids.drop_first().contains(ids.first()) {
        let i = choose|i: int|
            0 <= i < ids.drop_first().len() && ids.drop_first()[i] == ids.first();
        assert(ids[i + 1] == ids[0]);
    }
}

} // verus!
