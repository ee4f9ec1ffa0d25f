//! The order of texts: by the first character in which they differ, a prefix before the longer text.

use vstd::prelude::*;

use super::to_chars;

verus! {

/// How two values stand to each other.
#[derive(Copy, Clone, Debug, PartialEq, Eq, Structural)]
pub enum Rank {
    Before,
    Same,
    After,
}

/// How two texts stand to each other.
pub open spec fn text_rank(left: Seq<char>, right: Seq<char>) -> Rank
    decreases left.len(),
{
    if left.len() == 0 && right.len() == 0 {
        Rank::Same
    } else if left.len() == 0 {
        Rank::Before
    } else if right.len() == 0 {
        Rank::After
    } else if left[0] < right[0] {
        Rank::Before
    } else if left[0] > right[0] {
        Rank::After
    } else {
        text_rank(left.drop_first(), right.drop_first())
    }
}

/// How two texts stand to each other.
pub fn rank_texts(left: &str, right: &str) -> (rank: Rank)
    ensures
        rank == text_rank(left@, right@),
{
    let a = to_chars(left);
    let b = to_chars(right);
    let mut i: usize = 0;
    assert(left@.skip(0) =~= left@);
    assert(right@.skip(0) =~= right@);
    while i < a.len() && i < b.len()
        invariant
            i <= a.len(),
            i <= b.len(),
            a@ == left@,
            b@ == right@,
            text_rank(left@, right@) == text_rank(left@.skip(i as int), right@.skip(i as int)),
        decreases a.len() - i,
    {
        assert(left@.skip(i as int).drop_first() =~= left@.skip(i + 1));
        assert(right@.skip(i as int).drop_first() =~= right@.skip(i + 1));
        if a[i] < b[i] {
            return Rank::Before;
        }
        if a[i] > b[i] {
            return Rank::After;
        }
        i = i + 1;
    }
    if i < b.len() {
        Rank::Before
    } else if i < a.len() {
        Rank::After
    } else {
        Rank::Same
    }
}

/// The rank of the first pair that is not the same.
pub open spec fn rank_then(first: Rank, second: Rank) -> Rank {
    if first is Same {
        second
    } else {
        first
    }
}

/// The rank seen from the other side.
pub open spec fn flipped(rank: Rank) -> Rank {
    match rank {
        Rank::Before => Rank::After,
        Rank::Same => Rank::Same,
        Rank::After => Rank::Before,
    }
}

/// Swapping the texts flips the rank.
pub proof fn text_rank_flips(left: Seq<char>, right: Seq<char>)
    ensures
        text_rank(right, left) == flipped(text_rank(left, right)),
    decreases left.len(),
{
    if left.len() > 0 && right.len() > 0 && left[0] == right[0] {
        text_rank_flips(left.drop_first(), right.drop_first());
    }
}

/// Two texts have the same rank exactly when they are equal.
pub proof fn text_rank_same(left: Seq<char>, right: Seq<char>)
    ensures
        (text_rank(left, right) is Same) == (left == right),
    decreases left.len(),
{
    if left.len() > 0 && right.len() > 0 {
        text_rank_same(left.drop_first(), right.drop_first());
        if left[0] == right[0] && left.drop_first() == right.drop_first() {
            assert(left =~= seq![left[0]] + left.drop_first());
            assert(right =~= seq![right[0]] + right.drop_first());
        }
    } else if left.len() == 0 && right.len() == 0 {
        assert(left =~= right);
    }
}

/// The order is transitive.
pub proof fn text_rank_is_transitive(a: Seq<char>, b: Seq<char>, c: Seq<char>)
    requires
        !(text_rank(a, b) is After),
        !(text_rank(b, c) is After),
    ensures
        !(text_rank(a, c) is After),
        text_rank(a, c) is Same ==> text_rank(a, b) is Same && text_rank(b, c) is Same,
    decreases a.len(),
{
    if a.len() > 0 && b.len() > 0 && c.len() > 0 && a[0] == b[0] && b[0] == c[0] {
        text_rank_is_transitive(a.drop_first(), b.drop_first(), c.drop_first());
    }
}

/// The first place at which two texts differ decides, and a text that another one goes on from comes
/// before it.
pub proof fn first_difference_decides(left: &str, right: &str, rank: Rank, at: int)
    requires
        call_ensures(rank_texts, (left, right), rank),
        0 <= at <= left@.len(),
        at <= right@.len(),
        forall|i: int| 0 <= i < at ==> left@[i] == #[trigger] right@[i],
    ensures
        at < left@.len() && at < right@.len() && left@[at] < right@[at] ==> rank is Before,
        at < left@.len() && at < right@.len() && left@[at] > right@[at] ==> rank is After,
        at == left@.len() && at < right@.len() ==> rank is Before,
        at < left@.len() && at == right@.len() ==> rank is After,
        at == left@.len() && at == right@.len() ==> rank is Same,
{
    difference_decides(left@, right@, at);
}

proof fn difference_decides(left: Seq<char>, right: Seq<char>, at: int)
    requires
        0 <= at <= left.len(),
        at <= right.len(),
        forall|i: int| 0 <= i < at ==> left[i] == #[trigger] right[i],
    ensures
        at < left.len() && at < right.len() && left[at] < right[at] ==> text_rank(left, right)
            is Before,
        at < left.len() && at < right.len() && left[at] > right[at] ==> text_rank(left, right)
            is After,
        at == left.len() && at < right.len() ==> text_rank(left, right) is Before,
        at < left.len() && at == right.len() ==> text_rank(left, right) is After,
        at == left.len() && at == right.len() ==> text_rank(left, right) is Same,
    decreases at,
{
    if at > 0 {
        let (shorter, other) = (left.drop_first(), right.drop_first());
        assert(left[0] == right[0]);
        assert forall|i: int| 0 <= i < at - 1 implies shorter[i] == #[trigger] other[i] by {
            assert(left[i + 1] == right[i + 1]);
        }
        difference_decides(shorter, other, at - 1);
    }
}

}
