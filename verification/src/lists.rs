//! Small helpers on lists, and facts about sequences.
use std::collections::VecDeque;
use vstd::prelude::*;

use crate::table::SameAs;

verus! {

pub proof fn lemma_push_contains<T>(list: Seq<T>, item: T)
    ensures
        forall|other: T| #[trigger]
            list.push(item).contains(other) <==> list.contains(other) || other == item,
{
    let longer = list.push(item);
    assert(longer[list.len() as int] == item);
    assert forall|other: T| #[trigger] longer.contains(other) <==> list.contains(other) || other
        == item by {
        if list.contains(other) {
            let j = choose|j: int| 0 <= j < list.len() && list[j] == other;
            assert(longer[j] == other);
        }
        if longer.contains(other) && other != item {
            let j = choose|j: int| 0 <= j < longer.len() && longer[j] == other;
            assert(list[j] == other);
        }
    }
}

/// An element that comes later than a prefix of distinct elements is not in the prefix.
pub proof fn lemma_prefix_grows<T>(list: Seq<T>, i: int)
    requires
        0 <= i < list.len(),
    ensures
        list.subrange(0, i + 1) == list.subrange(0, i).push(list[i]),
        list.no_duplicates() ==> !list.subrange(0, i).contains(list[i]),
{
    assert(list.subrange(0, i + 1) =~= list.subrange(0, i).push(list[i]));
    if list.no_duplicates() && list.subrange(0, i).contains(list[i]) {
        let prefix = list.subrange(0, i);
        let j = choose|j: int| 0 <= j < prefix.len() && prefix[j] == list[i];
        assert(list[j] == list[i]);
    }
}

pub fn contains_item<T: SameAs>(list: &Vec<T>, item: &T) -> (found: bool)
    ensures
        found == list@.contains(*item),
{
    let mut i: usize = 0;
    while i < list.len()
        invariant
            i <= list.len(),
            forall|j: int| 0 <= j < i ==> list@[j] != *item,
        decreases list.len() - i,
    {
        if list[i].same(item) {
            return true;
        }
        i = i + 1;
    }
    false
}

/// Add an item unless it is there already.
pub fn push_unique<T: SameAs>(list: &mut Vec<T>, item: T)
    ensures
        old(list)@.no_duplicates() ==> final(list)@.no_duplicates(),
        forall|other: T| #[trigger]
            final(list)@.contains(other) <==> old(list)@.contains(other) || other == item,
        old(list)@.contains(item) ==> final(list)@ == old(list)@,
        !old(list)@.contains(item) ==> final(list)@ == old(list)@.push(item),
{
    proof {
        lemma_push_contains(list@, item);
    }
    if !contains_item(list, &item) {
        list.push(item);
    }
}

/// The same items, to be taken from the front.
pub fn into_queue<T>(list: Vec<T>) -> (queue: VecDeque<T>)
    ensures
        queue@ == list@,
{
    let mut rest = list;
    let ghost all = rest@;
    let mut queue: VecDeque<T> = VecDeque::new();
    proof {
        assert(queue@ =~= all.subrange(rest@.len() as int, all.len() as int));
        assert(rest@ =~= all.subrange(0, rest@.len() as int));
    }
    while rest.len() > 0
        invariant
            rest@.len() <= all.len(),
            rest@ == all.subrange(0, rest@.len() as int),
            queue@ == all.subrange(rest@.len() as int, all.len() as int),
        decreases rest.len(),
    {
        let ghost n = rest@.len();
        if let Some(item) = rest.pop() {
            queue.push_front(item);
            proof {
                assert(rest@ =~= all.subrange(0, n - 1));
                assert(queue@ =~= all.subrange(n - 1, all.len() as int));
            }
        }
    }
    proof {
        assert(queue@ =~= all);
    }
    queue
}

/// An item is found exactly if it stands in the list.
pub proof fn law_item_is_found_where_it_stands<T: SameAs>(list: &Vec<T>, item: &T, found: bool)
    requires
        call_ensures(contains_item::<T>, (list, item), found),
    ensures
        found <==> exists|i: int| 0 <= i < list@.len() && (#[trigger] list@[i]) == *item,
{
    if found {
        let i = choose|i: int| 0 <= i < list@.len() && list@[i] == *item;
        assert(list@[i] == *item);
    }
}

/// An item is added at the end, unless it is there; nothing else moves.
pub proof fn law_new_item_is_added_once<T: SameAs>(list: &mut Vec<T>, item: T)
    requires
        call_ensures(push_unique::<T>, (list, item), ()),
    ensures
        final(list)@.contains(item),
        final(list)@.len() == old(list)@.len() + if old(list)@.contains(item) {
            0int
        } else {
            1int
        },
        forall|i: int| 0 <= i < old(list)@.len() ==> final(list)@[i] == #[trigger] old(list)@[i],
{
    lemma_push_contains(old(list)@, item);
}

/// A queue holds the items of its list, the first of them in front.
pub proof fn law_queue_keeps_the_order<T>(list: Vec<T>, queue: VecDeque<T>, i: int)
    requires
        call_ensures(into_queue::<T>, (list,), queue),
    ensures
        queue@.len() == list@.len(),
        0 <= i < list@.len() ==> queue@[i] == list@[i],
{
}

} // verus!
