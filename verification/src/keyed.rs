//! Lists of records that are found and removed by a textual id.

use vstd::prelude::*;

verus! {

/// Trusted: equality of string slices, `str == str`. Two slices are equal
/// exactly when they hold the same characters.
pub assume_specification[ <str as PartialEq>::eq ](a: &str, b: &str) -> (same: bool)
    ensures
        same == (a@ == b@),
;

/// A record that carries a textual id.
pub trait Identified {
    /// The id of this record.
    spec fn ident(&self) -> Seq<char>;

    /// Whether this record carries the id `id`.
    fn has_ident(&self, id: &str) -> (same: bool)
        ensures
            same == (self.ident() == id@),
    ;
}

/// The predicate that holds of the records whose id is not `id`.
pub open spec fn lacks_id<T: Identified>(id: Seq<char>) -> spec_fn(T) -> bool {
    |item: T| item.ident() != id
}

/// `items` without every record whose id is `id`, the others in their order.
pub open spec fn without_id<T: Identified>(items: Seq<T>, id: Seq<char>) -> Seq<T> {
    items.filter(lacks_id::<T>(id))
}

/// Whether some record of `items` carries the id `id`.
pub open spec fn contains_id<T: Identified>(items: Seq<T>, id: Seq<char>) -> bool {
    exists|i: int| 0 <= i < items.len() && (#[trigger] items[i]).ident() == id
}

/// Whether `i` is the position of the first record of `items` with id `id`.
pub open spec fn is_first_with_id<T: Identified>(items: Seq<T>, id: Seq<char>, i: int) -> bool {
    &&& 0 <= i < items.len()
    &&& items[i].ident() == id
    &&& forall|j: int| 0 <= j < i ==> (#[trigger] items[j]).ident() != id
}

/// Whether no two records of `items` share an id.
pub open spec fn distinct_ids<T: Identified>(items: Seq<T>) -> bool {
    forall|i: int, j: int|
        0 <= i < items.len() && 0 <= j < items.len() && i != j ==> (#[trigger] items[i]).ident()
            != (#[trigger] items[j]).ident()
}

/// Finds the first record with id `id`.
pub fn position_of<T: Identified>(items: &Vec<T>, id: &str) -> (found: Option<usize>)
    ensures
        match found {
            Some(i) => is_first_with_id(items@, id@, i as int),
            None => !contains_id(items@, id@),
        },
{
    let mut i: usize = 0;
    while i < items.len()
        invariant
            i <= items@.len(),
            forall|j: int| 0 <= j < i ==> (#[trigger] items@[j]).ident() != id@,
        decreases items@.len() - i,
    {
        if items[i].has_ident(id) {
            return Some(i);
        }
        i = i + 1;
    }
    None
}

/// Removes every record with id `id`, keeping the others in their order.
pub fn remove_all<T: Identified>(items: &mut Vec<T>, id: &str)
    ensures
        final(items)@ == without_id(old(items)@, id@),
{
    let ghost before = items@;
    let ghost mut seen: int = 0;
    let mut i: usize = 0;
    proof {
        reveal(Seq::filter);
        assert(before.subrange(0, 0) =~= Seq::<T>::empty());
        assert(items@ =~= without_id(before.subrange(0, 0), id@) + before.subrange(
            0,
            before.len() as int,
        ));
    }
    while i < items.len()
        invariant
            0 <= seen <= before.len(),
            i <= items@.len(),
            i == without_id(before.subrange(0, seen), id@).len(),
            items@ == without_id(before.subrange(0, seen), id@) + before.subrange(
                seen,
                before.len() as int,
            ),
        decreases before.len() - seen,
    {
        proof {
            assert(seen < before.len());
            assert(items@[i as int] == before[seen]);
            assert(before.subrange(0, seen + 1) =~= before.subrange(0, seen).push(before[seen]));
            before.subrange(0, seen).lemma_filter_push(before[seen], lacks_id::<T>(id@));
        }
        if items[i].has_ident(id) {
            items.remove(i);
            proof {
                assert(items@ =~= without_id(before.subrange(0, seen + 1), id@) + before.subrange(
                    seen + 1,
                    before.len() as int,
                ));
            }
        } else {
            proof {
                assert(items@ =~= without_id(before.subrange(0, seen + 1), id@) + before.subrange(
                    seen + 1,
                    before.len() as int,
                ));
            }
            i = i + 1;
        }
        proof {
            seen = seen + 1;
        }
    }
    proof {
        assert(seen == before.len());
        assert(before.subrange(0, seen) =~= before);
        assert(items@ =~= without_id(before, id@));
    }
}

/// After removal no record carries the removed id.
pub proof fn lemma_removed_id_is_gone<T: Identified>(items: Seq<T>, id: Seq<char>)
    ensures
        !contains_id(without_id(items, id), id),
{
    let kept = without_id(items, id);
    let pred = lacks_id::<T>(id);
    assert forall|i: int| 0 <= i < kept.len() implies (#[trigger] kept[i]).ident() != id by {
        items.lemma_filter_pred(pred, i);
    }
}

/// Every record that is left after removal was there before.
pub proof fn lemma_kept_were_present<T: Identified>(items: Seq<T>, id: Seq<char>)
    ensures
        without_id(items, id).len() <= items.len(),
        forall|i: int|
            0 <= i < without_id(items, id).len() ==> items.contains(
                #[trigger] without_id(items, id)[i],
            ),
{
    let kept = without_id(items, id);
    let pred = lacks_id::<T>(id);
    items.lemma_filter_len(pred);
    assert forall|i: int| 0 <= i < kept.len() implies items.contains(#[trigger] kept[i]) by {
        assert(kept.contains(kept[i]));
        items.lemma_filter_contains_rev(pred, kept[i]);
    }
}

/// Removing an id that no record carries changes nothing.
pub proof fn lemma_absent_id_removes_nothing<T: Identified>(items: Seq<T>, id: Seq<char>)
    requires
        !contains_id(items, id),
    ensures
        without_id(items, id) == items,
    decreases items.len(),
{
    let pred = lacks_id::<T>(id);
    if items.len() == 0 {
        reveal(Seq::filter);
    } else {
        let front = items.drop_last();
        let last = items.last();
        assert(items =~= front.push(last));
        assert forall|i: int| 0 <= i < front.len() implies (#[trigger] front[i]).ident() != id by {
            assert(items[i].ident() != id);
        }
        assert(items[items.len() - 1].ident() != id);
        lemma_absent_id_removes_nothing(front, id);
        front.lemma_filter_push(last, pred);
    }
}

/// Removal keeps ids pairwise distinct.
pub proof fn lemma_removal_keeps_distinct<T: Identified>(items: Seq<T>, id: Seq<char>)
    requires
        distinct_ids(items),
    ensures
        distinct_ids(without_id(items, id)),
    decreases items.len(),
{
    let pred = lacks_id::<T>(id);
    if items.len() == 0 {
        reveal(Seq::filter);
    } else {
        let front = items.drop_last();
        let last = items.last();
        let kept_front = without_id(front, id);
        assert(items =~= front.push(last));
        front.lemma_filter_push(last, pred);
        assert forall|i: int, j: int|
            0 <= i < front.len() && 0 <= j < front.len() && i != j implies (
        #[trigger] front[i]).ident() != (#[trigger] front[j]).ident() by {
            assert(items[i].ident() != items[j].ident());
        }
        lemma_removal_keeps_distinct(front, id);
        if pred(last) {
            lemma_kept_were_present(front, id);
            let kept = kept_front.push(last);
            assert forall|i: int, j: int|
                0 <= i < kept.len() && 0 <= j < kept.len() && i != j implies (
            #[trigger] kept[i]).ident() != (#[trigger] kept[j]).ident() by {
                lemma_push_keeps_distinct(items, kept_front, i, j);
            }
        }
    }
}

proof fn lemma_push_keeps_distinct<T: Identified>(
    items: Seq<T>,
    kept_front: Seq<T>,
    i: int,
    j: int,
)
    requires
        items.len() > 0,
        distinct_ids(items),
        distinct_ids(kept_front),
        forall|k: int|
            0 <= k < kept_front.len() ==> items.drop_last().contains(#[trigger] kept_front[k]),
        0 <= i < kept_front.len() + 1,
        0 <= j < kept_front.len() + 1,
        i != j,
    ensures
        kept_front.push(items.last())[i].ident() != kept_front.push(items.last())[j].ident(),
{
    let front = items.drop_last();
    let n = items.len() - 1;
    if i < kept_front.len() && j < kept_front.len() {
        assert(kept_front[i].ident() != kept_front[j].ident());
    } else if i < kept_front.len() {
        assert(front.contains(kept_front[i]));
        let k = choose|k: int| 0 <= k < front.len() && front[k] == kept_front[i];
        assert(items[k].ident() != items[n].ident());
    } else {
        assert(front.contains(kept_front[j]));
        let k = choose|k: int| 0 <= k < front.len() && front[k] == kept_front[j];
        assert(items[k].ident() != items[n].ident());
    }
}

} // verus!
