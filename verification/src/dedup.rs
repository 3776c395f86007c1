//! Merging over a whole sequence of entries, and what holds of it.

use crate::entry::{
    lemma_merge_target, merge_target, push_entry, similar, spec_push_entry, Entry, EntryModel,
};
use crate::error::ParseError;
use vstd::prelude::*;

verus! {

/// The entries of a table after the entries of `incoming` from index `i`
/// on have arrived, one after the other, behind the entries `held`.
pub open spec fn spec_dedup_from(incoming: Seq<EntryModel>, i: int, held: Seq<EntryModel>) -> Result<
    Seq<EntryModel>,
    ParseError,
>
    decreases incoming.len() - i,
{
    if 0 <= i < incoming.len() {
        match spec_push_entry(held, incoming[i]) {
            Err(e) => Err(e),
            Ok(held) => spec_dedup_from(incoming, i + 1, held),
        }
    } else {
        Ok(held)
    }
}

/// The entries of a table after the entries of `incoming` have arrived, one
/// after the other, in a table that was empty.
pub open spec fn spec_dedup(incoming: Seq<EntryModel>) -> Result<Seq<EntryModel>, ParseError> {
    spec_dedup_from(incoming, 0, Seq::empty())
}

/// Whether the entry with index `j` would be appended if it arrived behind
/// the entries in front of it.
pub open spec fn stays(entries: Seq<EntryModel>, j: int) -> bool {
    entries[j].condition is Some ==> merge_target(entries, entries[j], j) is None
}

/// Whether each of `entries` would be appended if it arrived behind the
/// entries in front of it: nothing is left to merge.
pub open spec fn settled(entries: Seq<EntryModel>) -> bool {
    forall|j: int| 0 <= j < entries.len() ==> #[trigger] stays(entries, j)
}

/// The search for a merge target looks at the entries in front of its
/// starting point only.
pub proof fn lemma_merge_target_prefix(a: Seq<EntryModel>, b: Seq<EntryModel>, n: EntryModel, k: int)
    requires
        0 <= k <= a.len(),
        k <= b.len(),
        forall|i: int| 0 <= i < k ==> a[i] == b[i],
    ensures
        merge_target(a, n, k) == merge_target(b, n, k),
    decreases k,
{
    if k > 0 && similar(a[k - 1], n) && a[k - 1].get_value != n.get_value {
        lemma_merge_target_prefix(a, b, n, k - 1);
    }
}

/// A search that finds nothing still finds nothing after one of the
/// entries has lost its condition.
pub proof fn lemma_merge_target_cleared(entries: Seq<EntryModel>, t: int, n: EntryModel, k: int)
    requires
        0 <= t < entries.len(),
        0 <= k <= entries.len(),
        merge_target(entries, n, k) is None,
    ensures
        merge_target(entries.update(t, entries[t].unconditioned()), n, k) is None,
    decreases k,
{
    let after = entries.update(t, entries[t].unconditioned());
    if k > 0 {
        if k - 1 == t {
            assert(!similar(after[k - 1], n));
        } else {
            assert(after[k - 1] == entries[k - 1]);
            if similar(entries[k - 1], n) && entries[k - 1].get_value != n.get_value {
                lemma_merge_target_cleared(entries, t, n, k - 1);
            }
        }
    }
}

/// Entries with nothing left to merge have nothing left to merge after a
/// new entry has arrived.
pub proof fn lemma_push_entry_settled(entries: Seq<EntryModel>, n: EntryModel)
    requires
        settled(entries),
    ensures
        spec_push_entry(entries, n) matches Ok(after) ==> settled(after),
{
    if let Ok(after) = spec_push_entry(entries, n) {
        let target = if n.condition is Some {
            merge_target(entries, n, entries.len() as int)
        } else {
            None
        };
        lemma_merge_target(entries, n, entries.len() as int);
        match target {
            None => {
                assert(after == entries.push(n));
                assert forall|j: int| 0 <= j < after.len() implies #[trigger] stays(after, j) by {
                    if j < entries.len() {
                        assert(stays(entries, j));
                        lemma_merge_target_prefix(entries, after, entries[j], j);
                    } else {
                        lemma_merge_target_prefix(entries, after, n, j);
                    }
                }
            },
            Some(t) => {
                assert(after == entries.update(t, entries[t].unconditioned()));
                assert forall|j: int| 0 <= j < after.len() implies #[trigger] stays(after, j) by {
                    assert(stays(entries, j));
                    if j != t && entries[j].condition is Some {
                        lemma_merge_target_cleared(entries, t, entries[j], j);
                    }
                }
            },
        }
    }
}

/// What merging hands out has nothing left to merge.
pub proof fn lemma_dedup_settled(incoming: Seq<EntryModel>, i: int, held: Seq<EntryModel>)
    requires
        settled(held),
    ensures
        spec_dedup_from(incoming, i, held) matches Ok(after) ==> settled(after),
    decreases incoming.len() - i,
{
    if 0 <= i < incoming.len() {
        lemma_push_entry_settled(held, incoming[i]);
        if let Ok(next) = spec_push_entry(held, incoming[i]) {
            lemma_dedup_settled(incoming, i + 1, next);
        }
    }
}

/// Merging leaves entries with nothing left to merge as they are.
pub proof fn lemma_dedup_of_settled(entries: Seq<EntryModel>, i: int)
    requires
        settled(entries),
        0 <= i <= entries.len(),
    ensures
        spec_dedup_from(entries, i, entries.take(i)) == Ok::<Seq<EntryModel>, ParseError>(entries),
    decreases entries.len() - i,
{
    if i < entries.len() {
        let held = entries.take(i);
        assert(stays(entries, i));
        lemma_merge_target_prefix(held, entries, entries[i], i);
        assert(spec_push_entry(held, entries[i]) == Ok::<Seq<EntryModel>, ParseError>(
            held.push(entries[i]),
        ));
        assert(held.push(entries[i]) =~= entries.take(i + 1));
        lemma_dedup_of_settled(entries, i + 1);
    } else {
        assert(entries.take(i) =~= entries);
    }
}

/// Merging is idempotent: merging what merging has handed out hands out
/// the same again.
pub proof fn lemma_dedup_idempotent(incoming: Seq<EntryModel>)
    ensures
        spec_dedup(incoming) matches Ok(merged) ==> spec_dedup(merged) == Ok::<
            Seq<EntryModel>,
            ParseError,
        >(merged),
{
    if let Ok(merged) = spec_dedup(incoming) {
        assert(settled(Seq::<EntryModel>::empty()));
        lemma_dedup_settled(incoming, 0, Seq::empty());
        lemma_dedup_of_settled(merged, 0);
        assert(merged.take(0) =~= Seq::<EntryModel>::empty());
    }
}

/// Two entries that differ in nothing but their conditions, of which they
/// have one each, merge into one entry under no condition.
pub proof fn lemma_complements_merge(first: EntryModel, second: EntryModel)
    requires
        first.condition is Some,
        second.condition is Some,
        first.condition != second.condition,
        second == (EntryModel { condition: second.condition, ..first }),
    ensures
        spec_dedup(seq![first, second]) == Ok::<Seq<EntryModel>, ParseError>(
            seq![first.unconditioned()],
        ),
{
    let empty = Seq::<EntryModel>::empty();
    let one = seq![first];
    assert(merge_target(empty, first, 0) is None);
    assert(spec_push_entry(empty, first) == Ok::<Seq<EntryModel>, ParseError>(empty.push(first)));
    assert(empty.push(first) =~= one);
    assert(similar(one[0], second));
    assert(merge_target(one, second, 1) == Some(0int));
    assert(one.update(0, first.unconditioned()) =~= seq![first.unconditioned()]);
    let both = seq![first, second];
    assert(spec_dedup_from(both, 2, seq![first.unconditioned()]) == Ok::<
        Seq<EntryModel>,
        ParseError,
    >(seq![first.unconditioned()]));
    assert(spec_dedup_from(both, 1, one) == Ok::<Seq<EntryModel>, ParseError>(
        seq![first.unconditioned()],
    ));
}

/// The view of entries that may have been refused.
pub open spec fn entries_view(r: Result<Vec<Entry>, ParseError>) -> Result<
    Seq<EntryModel>,
    ParseError,
> {
    match r {
        Ok(e) => Ok(e.deep_view()),
        Err(e) => Err(e),
    }
}

/// Merges a sequence of entries: lets them arrive, one after the other, in
/// a table that is empty, and hands out the entries of that table.
pub fn dedup(incoming: Vec<Entry>) -> (r: Result<Vec<Entry>, ParseError>)
    ensures
        entries_view(r) == spec_dedup(incoming.deep_view()),
{
    let mut held: Vec<Entry> = Vec::new();
    let ghost all = incoming@;
    assert(held.deep_view() =~= Seq::<EntryModel>::empty());
    for e in it: incoming
        invariant
            it.seq() == all,
            all == incoming@,
            spec_dedup_from(incoming.deep_view(), it.index() as int, held.deep_view())
                == spec_dedup(incoming.deep_view()),
    {
        assert(incoming.deep_view()[it.index() as int] == e.deep_view());
        match push_entry(&mut held, e) {
            Err(e) => {
                return Err(e);
            },
            Ok(()) => {},
        }
    }
    Ok(held)
}

} // verus!
