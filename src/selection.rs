//! The selection tracker: moves the highlight within the filtered list and
//! keeps it on the same item when the list is filtered anew.

use vstd::prelude::*;

verus! {

/// The way the highlight moves.
#[derive(Clone, Copy, Debug, PartialEq, Eq, Structural)]
pub enum Direction {
    Next,
    Previous,
}

/// Where the highlight lands after one move in a list of `list_length`
/// items: it stops at either end and never wraps; on an empty list it
/// stays at 0.
pub open spec fn moved_index(current: int, list_length: int, direction: Direction) -> int {
    if list_length <= 0 {
        0
    } else {
        match direction {
            Direction::Next => if current + 1 < list_length - 1 {
                current + 1
            } else {
                list_length - 1
            },
            Direction::Previous => if current - 1 > 0 {
                current - 1
            } else {
                0
            },
        }
    }
}

/// `p` is the first position of `items` that holds `item`.
pub open spec fn is_first_position(items: Seq<Seq<char>>, item: Seq<char>, p: int) -> bool {
    &&& 0 <= p < items.len()
    &&& items[p] == item
    &&& forall|k: int| 0 <= k < p ==> items[k] != item
}

/// Where the highlight goes when the list `old` with the highlight at
/// `old_index` is replaced by `new`: to the first place of the highlighted
/// item in `new` where it is still there, else to 0.
pub open spec fn reconciled_index(old: Seq<Seq<char>>, old_index: int, new: Seq<Seq<char>>) -> int {
    if 0 <= old_index < old.len() && new.contains(old[old_index]) {
        choose|p: int| is_first_position(new, old[old_index], p)
    } else {
        0
    }
}

/// Moves the highlight one step in `direction` within a list of
/// `list_length` items, saturating at both ends.
pub fn move_highlight(current_index: usize, list_length: usize, direction: Direction) -> (r: usize)
    ensures
        r == moved_index(current_index as int, list_length as int, direction),
{
    if list_length == 0 {
        return 0;
    }
    match direction {
        Direction::Next => {
            if current_index < list_length - 1 {
                current_index + 1
            } else {
                list_length - 1
            }
        },
        Direction::Previous => {
            if current_index > 1 {
                current_index - 1
            } else {
                0
            }
        },
    }
}

/// The new place of the highlight once `old_filtered` (highlight at
/// `old_index`) has been replaced by `new_filtered`.
pub fn reconcile(old_filtered: &Vec<String>, old_index: usize, new_filtered: &Vec<String>) -> (r:
    usize)
    ensures
        r == reconciled_index(old_filtered.deep_view(), old_index as int, new_filtered.deep_view()),
{
    let ghost old = old_filtered.deep_view();
    let ghost new = new_filtered.deep_view();
    if old_index >= old_filtered.len() {
        return 0;
    }
    let item = &old_filtered[old_index];
    let mut k: usize = 0;
    while k < new_filtered.len()
        invariant
            k <= new_filtered@.len(),
            new == new_filtered.deep_view(),
            old == old_filtered.deep_view(),
            old_index < old.len(),
            item@ == old[old_index as int],
            forall|j: int| 0 <= j < k ==> new[j] != item@,
        decreases new_filtered@.len() - k,
    {
        if new_filtered[k] == *item {
            proof {
                assert(new[k as int] == item@);
                lemma_first_position_unique(new, item@, k as int);
            }
            return k;
        }
        k += 1;
    }
    assert(!new.contains(item@));
    0
}

proof fn lemma_first_position_unique(items: Seq<Seq<char>>, item: Seq<char>, p: int)
    requires
        is_first_position(items, item, p),
    ensures
        items.contains(item),
        (choose|q: int| is_first_position(items, item, q)) == p,
{
    assert(items[p] == item);
    let q = choose|q: int| is_first_position(items, item, q);
    assert(is_first_position(items, item, q));
}

/// A move never takes the highlight out of a non-empty list.
pub proof fn lemma_move_stays_in_bounds(current: int, list_length: int, direction: Direction)
    requires
        list_length >= 1,
        0 <= current < list_length,
    ensures
        0 <= moved_index(current, list_length, direction) <= list_length - 1,
{
}

/// Where the highlighted item is still in the new list, the highlight lands
/// on that same item.
pub proof fn lemma_reconcile_tracks_item(old: Seq<Seq<char>>, old_index: int, new: Seq<Seq<char>>)
    requires
        0 <= old_index < old.len(),
        new.contains(old[old_index]),
    ensures
        0 <= reconciled_index(old, old_index, new) < new.len(),
        new[reconciled_index(old, old_index, new)] == old[old_index],
{
    let item = old[old_index];
    let w = choose|w: int| 0 <= w < new.len() && new[w] == item;
    lemma_first_position_exists(new, item, w);
}

proof fn lemma_first_position_exists(items: Seq<Seq<char>>, item: Seq<char>, w: int)
    requires
        0 <= w < items.len(),
        items[w] == item,
    ensures
        exists|p: int| is_first_position(items, item, p),
    decreases w,
{
    if exists|k: int| 0 <= k < w && items[k] == item {
        let k = choose|k: int| 0 <= k < w && items[k] == item;
        lemma_first_position_exists(items, item, k);
    } else {
        assert(is_first_position(items, item, w));
    }
}

} // verus!
