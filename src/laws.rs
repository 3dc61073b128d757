use vstd::prelude::*;
use crate::store::{id_range, keys_dense, lemma_id_range_len, lemma_next_id_of_dense, next_id};

verus! {

/// The records after one create per name, in order, from an empty store:
/// each create puts its name under `next_id` of the records before it.
pub open spec fn after_creates(names: Seq<Seq<char>>) -> Map<u32, Seq<char>>
    decreases names.len(),
{
    if names.len() == 0 {
        Map::empty()
    } else {
        let before = after_creates(names.drop_last());
        before.insert(next_id(before) as u32, names.last())
    }
}

/// One more create extends the records as `UserStore::post_user` does:
/// the new name goes under `next_id` of the records before it.
pub proof fn lemma_after_creates_step(names: Seq<Seq<char>>, name: Seq<char>)
    ensures
        after_creates(names.push(name)) == after_creates(names).insert(
            next_id(after_creates(names)) as u32,
            name,
        ),
{
    assert(names.push(name).drop_last() =~= names);
}

/// Creates in sequence from an empty store hold the identifiers 1 through
/// the number of creates, and the record under `i + 1` is the `i`-th name.
pub proof fn lemma_after_creates_dense(names: Seq<Seq<char>>)
    requires
        names.len() <= u32::MAX,
    ensures
        keys_dense(after_creates(names), names.len() as int),
        forall|i: int| 0 <= i < names.len() ==> #[trigger] after_creates(names)[(i + 1) as u32] == names[i],
    decreases names.len(),
{
    if names.len() > 0 {
        let prefix = names.drop_last();
        lemma_after_creates_dense(prefix);
        lemma_next_id_of_dense(after_creates(prefix), prefix.len() as int);
        assert forall|i: int| 0 <= i < names.len() implies #[trigger] after_creates(names)[(i + 1) as u32] == names[i] by {
            if i < prefix.len() {
                assert(prefix[i] == names[i]);
                assert(after_creates(prefix)[(i + 1) as u32] == prefix[i]);
            }
        }
    }
}

/// Sequential creates from an empty store assign 1, 2, 3, ... in call
/// order: the create of the `i`-th name (from 0) is given `i + 1`, and the
/// record under `i + 1` afterwards is that name.
pub proof fn lemma_sequential_ids(names: Seq<Seq<char>>)
    requires
        names.len() <= u32::MAX,
    ensures
        forall|i: int| 0 <= i < names.len() ==> #[trigger] next_id(after_creates(names.take(i))) == i + 1,
        forall|i: int| 0 <= i < names.len() ==> #[trigger] after_creates(names)[(i + 1) as u32] == names[i],
{
    lemma_after_creates_dense(names);
    assert forall|i: int| 0 <= i < names.len() implies #[trigger] next_id(after_creates(names.take(i))) == i + 1 by {
        lemma_after_creates_dense(names.take(i));
        lemma_next_id_of_dense(after_creates(names.take(i)), i);
    }
}

/// Any `n` creates, once serialized, leave an initially empty store with
/// exactly `n` records under the identifiers 1 through `n`: no identifier
/// is given twice and none is skipped.
pub proof fn lemma_creates_fill_range(names: Seq<Seq<char>>)
    requires
        names.len() <= u32::MAX,
    ensures
        after_creates(names).dom() == id_range(names.len() as int),
        after_creates(names).dom().len() == names.len(),
{
    lemma_after_creates_dense(names);
    assert(after_creates(names).dom() =~= id_range(names.len() as int));
    lemma_id_range_len(names.len() as int);
}

} // verus!
