//! Id lists: duplicate detection shared by every catalog and roster.
use vstd::prelude::*;
use crate::item::{first_duplicate, first_index_of, lemma_first_index_of, lemma_first_duplicate,
    lemma_first_duplicate_prefix, distinct_ids};

verus! {

/// The spelled-out ids of a list of owned strings.
pub open spec fn texts(ids: Seq<String>) -> Seq<Seq<char>> {
    ids.map_values(|s: String| s@)
}

/// The index of the first id that already occurred earlier in `ids`, if any.
pub fn first_duplicate_index(ids: &Vec<String>) -> (r: Option<usize>)
    ensures
        r == match first_duplicate(texts(ids@)) {
            Some(k) => Some(k as usize),
            None => None,
        },
        r is None ==> distinct_ids(texts(ids@)),
{
    let ghost all = texts(ids@);
    let mut i: usize = 0;
    while i < ids.len()
        invariant
            i <= ids@.len(),
            all == texts(ids@),
            first_duplicate(all.take(i as int)) is None,
        decreases ids@.len() - i,
    {
        assert(all.take(i as int + 1).drop_last() =~= all.take(i as int));
        assert(all.take(i as int + 1) =~= all.take(i as int).push(all[i as int]));
        let mut j: usize = 0;
        while j < i
            invariant
                j <= i < ids@.len(),
                all == texts(ids@),
                first_duplicate(all.take(i as int)) is None,
                forall|k: int| 0 <= k < j ==> all[k] != all[i as int],
            decreases i - j,
        {
            if ids[j] == ids[i] {
                proof {
                    lemma_first_index_of(all.take(i as int), all[i as int]);
                    assert(all.take(i as int)[j as int] == all[i as int]);
                    assert(all.take(i as int + 1).drop_last() =~= all.take(i as int));
                    assert(all.take(i as int + 1).last() == all[i as int]);
                    assert(first_duplicate(all.take(i as int + 1)) == Some(i as int));
                    lemma_first_duplicate_prefix(all, i as int + 1);
                }
                return Some(i);
            }
            j = j + 1;
        }
        proof {
            lemma_first_index_of(all.take(i as int), all[i as int]);
            assert(all.take(i as int + 1).last() == all[i as int]);
        }
        i = i + 1;
    }
    proof {
        assert(all.take(all.len() as int) =~= all);
        lemma_first_duplicate(all);
    }
    None
}

/// The position of `id` in `ids`, if present (the first one).
pub fn position_of(ids: &Vec<String>, id: &String) -> (r: Option<usize>)
    ensures
        r == match first_index_of(texts(ids@), id@) {
            Some(k) => Some(k as usize),
            None => None,
        },
{
    let ghost all = texts(ids@);
    let mut i: usize = 0;
    while i < ids.len()
        invariant
            i <= ids@.len(),
            all == texts(ids@),
            forall|k: int| 0 <= k < i ==> all[k] != id@,
        decreases ids@.len() - i,
    {
        if ids[i] == *id {
            proof {
                assert(all[i as int] == id@);
                crate::item::lemma_first_index_of_at(all, id@, i as int);
            }
            return Some(i);
        }
        i = i + 1;
    }
    proof {
        lemma_first_index_of(all, id@);
    }
    None
}

} // verus!
