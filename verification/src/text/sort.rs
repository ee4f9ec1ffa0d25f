//! Sorting that keeps the order of items that rank the same.

use vstd::prelude::*;

use super::order::flipped;
use super::order::rank_texts;
use super::order::text_rank;
use super::order::text_rank_flips;
use super::order::text_rank_is_transitive;
use super::order::Rank;

verus! {

/// Items with a total order.
pub trait Ranked: Sized {
    /// How two items stand to each other.
    spec fn rank_of(&self, other: &Self) -> Rank;

    /// Swapping two items flips their rank.
    proof fn ranks_flip(left: &Self, right: &Self)
        ensures
            right.rank_of(left) == flipped(left.rank_of(right)),
    ;

    /// The order is transitive.
    proof fn ranks_chain(a: &Self, b: &Self, c: &Self)
        requires
            !(a.rank_of(b) is After),
            !(b.rank_of(c) is After),
        ensures
            !(a.rank_of(c) is After),
            a.rank_of(c) is Same ==> a.rank_of(b) is Same && b.rank_of(c) is Same,
            a.rank_of(b) is Same && b.rank_of(c) is Same ==> a.rank_of(c) is Same,
    ;

    /// How two items stand to each other.
    fn rank(&self, other: &Self) -> (rank: Rank)
        ensures
            rank == self.rank_of(other),
    ;
}

/// No item comes after a later one.
pub open spec fn in_order<T: Ranked>(items: Seq<T>) -> bool {
    forall|i: int, j: int|
        #![trigger items[i], items[j]]
        0 <= i < j < items.len() ==> !(items[i].rank_of(&items[j]) is After)
}

/// The items that rank the same as `model`, in order.
pub open spec fn peers<T: Ranked>(items: Seq<T>, model: T) -> Seq<T>
    decreases items.len(),
{
    if items.len() == 0 {
        Seq::empty()
    } else {
        let before = peers(items.drop_last(), model);
        if items.last().rank_of(&model) is Same {
            before.push(items.last())
        } else {
            before
        }
    }
}

/// `after` holds the items of `before` in order, and items that rank the same have kept theirs.
pub open spec fn sorted_from<T: Ranked>(before: Seq<T>, after: Seq<T>) -> bool {
    &&& after.len() == before.len()
    &&& in_order(after)
    &&& forall|model: T| #[trigger] peers(after, model) == peers(before, model)
}

proof fn peers_of_concat<T: Ranked>(left: Seq<T>, right: Seq<T>, model: T)
    ensures
        peers(left + right, model) == peers(left, model) + peers(right, model),
    decreases right.len(),
{
    if right.len() == 0 {
        assert(left + right =~= left);
        assert(peers(left, model) + peers(right, model) =~= peers(left, model));
    } else {
        assert((left + right).drop_last() =~= left + right.drop_last());
        peers_of_concat(left, right.drop_last(), model);
        assert(peers(left + right, model) =~= peers(left, model) + peers(right, model));
    }
}

proof fn no_peers<T: Ranked>(items: Seq<T>, model: T)
    requires
        forall|i: int| 0 <= i < items.len() ==> !((#[trigger] items[i]).rank_of(&model) is Same),
    ensures
        peers(items, model) == Seq::<T>::empty(),
    decreases items.len(),
{
    if items.len() > 0 {
        no_peers(items.drop_last(), model);
        assert(!(items[items.len() - 1].rank_of(&model) is Same));
    }
}

/// Every item is among its own peers, so that no item is lost or made up.
pub proof fn items_are_their_own_peers<T: Ranked>(items: Seq<T>, index: int)
    requires
        0 <= index < items.len(),
    ensures
        peers(items, items[index]).contains(items[index]),
    decreases items.len(),
{
    let item = items[index];
    T::ranks_flip(&item, &item);
    let last = items.len() - 1;
    let all = peers(items, item);
    if index == last {
        assert(all[all.len() - 1] == item);
    } else {
        items_are_their_own_peers(items.drop_last(), index);
        let shorter = peers(items.drop_last(), item);
        let at = choose|at: int| 0 <= at < shorter.len() && shorter[at] == item;
        assert(all[at] == item);
    }
}

/// Where a new item goes in a sorted list: behind everything that does not come after it.
fn place_for<T: Ranked>(sorted: &Vec<T>, item: &T) -> (at: usize)
    requires
        in_order(sorted@),
    ensures
        at <= sorted.len(),
        forall|i: int| 0 <= i < at ==> !((#[trigger] sorted@[i]).rank_of(item) is After),
        forall|i: int| at <= i < sorted.len() ==> (#[trigger] sorted@[i]).rank_of(item) is After,
{
    let mut at: usize = sorted.len();
    while at > 0
        invariant_except_break
            at <= sorted.len(),
            in_order(sorted@),
            forall|i: int|
                at <= i < sorted.len() ==> (#[trigger] sorted@[i]).rank_of(item) is After,
        ensures
            at <= sorted.len(),
            forall|i: int| 0 <= i < at ==> !((#[trigger] sorted@[i]).rank_of(item) is After),
            forall|i: int|
                at <= i < sorted.len() ==> (#[trigger] sorted@[i]).rank_of(item) is After,
        decreases at,
    {
        match sorted[at - 1].rank(item) {
            Rank::After => {
                at = at - 1;
            },
            _ => {
                proof {
                    assert forall|i: int| 0 <= i < at implies !((#[trigger] sorted@[i]).rank_of(
                        item,
                    ) is After) by {
                        if i < at - 1 {
                            T::ranks_chain(&sorted@[i], &sorted@[at - 1], item);
                        }
                    }
                }
                break ;
            },
        }
    }
    at
}

proof fn insertion_sorts<T: Ranked>(sorted: Seq<T>, item: T, at: int)
    requires
        in_order(sorted),
        0 <= at <= sorted.len(),
        forall|i: int| 0 <= i < at ==> !((#[trigger] sorted[i]).rank_of(&item) is After),
        forall|i: int| at <= i < sorted.len() ==> (#[trigger] sorted[i]).rank_of(&item) is After,
    ensures
        in_order(sorted.insert(at, item)),
        forall|model: T| #[trigger]
            peers(sorted.insert(at, item), model) == peers(sorted.push(item), model),
{
    let longer = sorted.insert(at, item);
    assert forall|i: int, j: int|
        #![trigger longer[i], longer[j]]
        0 <= i < j < longer.len() implies !(longer[i].rank_of(&longer[j]) is After) by {
        if i == at {
            assert(longer[j] == sorted[j - 1]);
            T::ranks_flip(&sorted[j - 1], &item);
        } else if j == at {
            assert(longer[i] == sorted[i]);
        } else {
            let i2 = if i < at {
                i
            } else {
                i - 1
            };
            let j2 = if j < at {
                j
            } else {
                j - 1
            };
            assert(longer[i] == sorted[i2]);
            assert(longer[j] == sorted[j2]);
        }
    }
    assert forall|model: T| #[trigger] peers(longer, model) == peers(sorted.push(item), model) by {
        let front = sorted.take(at);
        let back = sorted.skip(at);
        assert(sorted =~= front + back);
        assert(longer =~= (front + seq![item]) + back);
        assert(sorted.push(item) =~= (front + back) + seq![item]);
        peers_of_concat(front + seq![item], back, model);
        peers_of_concat(front, seq![item], model);
        peers_of_concat(front + back, seq![item], model);
        peers_of_concat(front, back, model);
        if item.rank_of(&model) is Same {
            assert forall|i: int| 0 <= i < back.len() implies !((#[trigger] back[i]).rank_of(&model)
                is Same) by {
                assert(back[i] == sorted[at + i]);
                if back[i].rank_of(&model) is Same {
                    T::ranks_flip(&item, &model);
                    T::ranks_chain(&back[i], &model, &item);
                }
            }
            no_peers(back, model);
        } else {
            reveal_with_fuel(peers, 2);
            assert(seq![item].drop_last() =~= Seq::<T>::empty());
            assert(peers(seq![item], model) =~= Seq::<T>::empty());
        }
        assert(peers(longer, model) =~= peers(sorted.push(item), model));
    }
}

/// Sorts a list. Items that rank the same keep their order.
pub fn sort_ranked<T: Ranked>(items: &mut Vec<T>)
    ensures
        sorted_from(old(items)@, final(items)@),
{
    let ghost before = items@;
    let mut rest: Vec<T> = Vec::new();
    std::mem::swap(&mut rest, items);
    assert(before.take(0) =~= Seq::<T>::empty());
    let ghost mut taken: int = 0;
    while rest.len() > 0
        invariant
            0 <= taken <= before.len(),
            rest@ == before.skip(taken),
            items.len() == taken,
            in_order(items@),
            forall|model: T| #[trigger] peers(items@, model) == peers(before.take(taken), model),
        decreases rest.len(),
    {
        let item = rest.remove(0);
        let at = place_for(items, &item);
        let ghost sorted = items@;
        proof {
            insertion_sorts(sorted, item, at as int);
        }
        items.insert(at, item);
        proof {
            assert(item == before[taken]);
            assert(before.take(taken + 1) =~= before.take(taken).push(item));
            assert forall|model: T| #[trigger] peers(items@, model) == peers(
                before.take(taken + 1),
                model,
            ) by {
                assert(peers(sorted.insert(at as int, item), model) == peers(
                    sorted.push(item),
                    model,
                ));
                assert(sorted.push(item).drop_last() =~= sorted);
                assert(before.take(taken).push(item).drop_last() =~= before.take(taken));
                assert(peers(sorted, model) == peers(before.take(taken), model));
            }
            taken = taken + 1;
            assert(rest@ =~= before.skip(taken));
        }
    }
    assert(before.take(taken) =~= before);
}

impl Ranked for String {
    open spec fn rank_of(&self, other: &String) -> Rank {
        text_rank(self@, other@)
    }

    proof fn ranks_flip(left: &String, right: &String) {
        text_rank_flips(left@, right@);
    }

    proof fn ranks_chain(a: &String, b: &String, c: &String) {
        text_rank_is_transitive(a@, b@, c@);
        super::order::text_rank_same(a@, b@);
        super::order::text_rank_same(b@, c@);
        super::order::text_rank_same(a@, c@);
    }

    fn rank(&self, other: &String) -> (rank: Rank) {
        rank_texts(self.as_str(), other.as_str())
    }
}

impl Ranked for u32 {
    open spec fn rank_of(&self, other: &u32) -> Rank {
        if *self < *other {
            Rank::Before
        } else if *self == *other {
            Rank::Same
        } else {
            Rank::After
        }
    }

    proof fn ranks_flip(left: &u32, right: &u32) {
    }

    proof fn ranks_chain(a: &u32, b: &u32, c: &u32) {
    }

    fn rank(&self, other: &u32) -> (rank: Rank) {
        if *self < *other {
            Rank::Before
        } else if *self == *other {
            Rank::Same
        } else {
            Rank::After
        }
    }
}

/// Every peer of an item is one of the items.
pub proof fn peers_are_items<T: Ranked>(items: Seq<T>, model: T, item: T)
    requires
        peers(items, model).contains(item),
    ensures
        items.contains(item),
    decreases items.len(),
{
    if items.len() > 0 {
        let before = peers(items.drop_last(), model);
        let now = peers(items, model);
        let i = choose|i: int| 0 <= i < now.len() && now[i] == item;
        if i < before.len() {
            assert(before[i] == item);
            peers_are_items(items.drop_last(), model, item);
            let j = choose|j: int| 0 <= j < items.drop_last().len() && items.drop_last()[j] == item;
            assert(items[j] == item);
        } else {
            assert(items[items.len() - 1] == item);
        }
    }
}

/// Sorting numbers puts them in ascending order and keeps each of them.
pub proof fn numbers_are_sorted_upwards(items: &mut Vec<u32>)
    requires
        call_ensures(sort_ranked::<u32>, (items,), ()),
    ensures
        final(items).len() == old(items).len(),
        forall|i: int, j: int|
            0 <= i < j < final(items).len() ==> #[trigger] final(items)@[i]
                <= #[trigger] final(items)@[j],
        forall|number: u32|
            #[trigger] final(items)@.contains(number) <==> old(items)@.contains(number),
{
    let before = old(items)@;
    let after = final(items)@;
    assert forall|number: u32| #[trigger] after.contains(number) <==> before.contains(number) by {
        if before.contains(number) {
            let i = choose|i: int| 0 <= i < before.len() && before[i] == number;
            items_are_their_own_peers(before, i);
            peers_are_items(after, number, number);
        }
        if after.contains(number) {
            let i = choose|i: int| 0 <= i < after.len() && after[i] == number;
            items_are_their_own_peers(after, i);
            peers_are_items(before, number, number);
        }
    }
    assert forall|i: int, j: int| 0 <= i < j < after.len() implies #[trigger] after[i]
        <= #[trigger] after[j] by {
        assert(!(after[i].rank_of(&after[j]) is After));
    }
}

/// Sorting texts puts each before those that rank after it, and keeps each of them.
pub proof fn texts_are_sorted_upwards(items: &mut Vec<String>)
    requires
        call_ensures(sort_ranked::<String>, (items,), ()),
    ensures
        final(items).len() == old(items).len(),
        forall|i: int, j: int|
            0 <= i < j < final(items).len() ==> !(text_rank(
                (#[trigger] final(items)@[i])@,
                (#[trigger] final(items)@[j])@,
            ) is After),
        forall|text: String|
            #[trigger] final(items)@.contains(text) <==> old(items)@.contains(text),
{
    let before = old(items)@;
    let after = final(items)@;
    assert forall|text: String| #[trigger] after.contains(text) <==> before.contains(text) by {
        if before.contains(text) {
            let i = choose|i: int| 0 <= i < before.len() && before[i] == text;
            items_are_their_own_peers(before, i);
            peers_are_items(after, text, text);
        }
        if after.contains(text) {
            let i = choose|i: int| 0 <= i < after.len() && after[i] == text;
            items_are_their_own_peers(after, i);
            peers_are_items(before, text, text);
        }
    }
    assert forall|i: int, j: int| 0 <= i < j < after.len() implies !(text_rank(
        (#[trigger] after[i])@,
        (#[trigger] after[j])@,
    ) is After) by {
        assert(!(after[i].rank_of(&after[j]) is After));
    }
}

}
