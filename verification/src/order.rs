//! The order in which things are written: by two ranks and a text, things
//! that are equal in all three staying in the order in which they came.

use vstd::prelude::*;
use crate::text::lemma_lexical_one_way;
use crate::text::lemma_lexical_order;
use crate::text::lexically_before;
use crate::text::text_before;

verus! {

/// What a thing is ordered by.
#[derive(Debug)]
pub struct SortKey<'a> {
    pub first: u8,
    pub second: u8,
    pub text: &'a str,
}

/// A `SortKey` as the contracts see it.
pub struct SortKeyView {
    pub first: u8,
    pub second: u8,
    pub text: Seq<char>,
}

impl<'a> View for SortKey<'a> {
    type V = SortKeyView;

    open spec fn view(&self) -> SortKeyView {
        SortKeyView { first: self.first, second: self.second, text: self.text@ }
    }
}

/// The views of a list of keys.
pub open spec fn key_views(keys: Seq<SortKey>) -> Seq<SortKeyView> {
    Seq::new(keys.len(), |i: int| keys[i]@)
}

/// Whether the key `a` comes before the key `b`: by the first rank, then by
/// the second, then by the text.
pub open spec fn key_before(a: SortKeyView, b: SortKeyView) -> bool {
    a.first < b.first || (a.first == b.first && (a.second < b.second || (a.second == b.second
        && lexically_before(a.text, b.text))))
}

/// The positions `order` with the position `x` put in: behind every position
/// whose key does not come after the key of `x`, seen from the end.
pub open spec fn placed(keys: Seq<SortKeyView>, order: Seq<usize>, x: usize) -> Seq<usize>
    decreases order.len(),
{
    if order.len() == 0 {
        seq![x]
    } else if key_before(keys[x as int], keys[order.last() as int]) {
        placed(keys, order.drop_last(), x).push(order.last())
    } else {
        order.push(x)
    }
}

/// The first `n` positions of `keys` in the order of their keys, positions
/// with equal keys in rising order.
pub open spec fn ordered(keys: Seq<SortKeyView>, n: int) -> Seq<usize>
    decreases n,
{
    if n <= 0 {
        Seq::empty()
    } else {
        placed(keys, ordered(keys, n - 1), (n - 1) as usize)
    }
}

/// Whether the key `a` comes before the key `b`.
pub fn comes_before(a: &SortKey, b: &SortKey) -> (before: bool)
    ensures
        before == key_before(a@, b@),
{
    a.first < b.first || (a.first == b.first && (a.second < b.second || (a.second == b.second
        && text_before(a.text, b.text))))
}

/// The positions of `keys` in the order of their keys, positions with equal
/// keys in rising order.
pub fn sorted_order(keys: &Vec<SortKey>) -> (order: Vec<usize>)
    ensures
        order@ == ordered(key_views(keys@), keys@.len() as int),
        order@.len() == keys@.len(),
        forall|k: int| 0 <= k < order@.len() ==> (#[trigger] order@[k]) < keys@.len(),
{
    let ghost views = key_views(keys@);
    let mut order: Vec<usize> = Vec::new();
    let mut i: usize = 0;
    while i < keys.len()
        invariant
            i <= keys@.len(),
            views == key_views(keys@),
            order@ == ordered(views, i as int),
            order@.len() == i,
            forall|k: int| 0 <= k < order@.len() ==> (#[trigger] order@[k]) < i,
        decreases keys@.len() - i,
    {
        let ghost held = order@;
        let mut j: usize = order.len();
        assert(held.take(j as int) =~= held);
        assert(held.skip(j as int) =~= Seq::empty());
        assert(placed(views, held, i) =~= placed(views, held.take(j as int), i) + held.skip(
            j as int,
        ));
        while j > 0 && comes_before(&keys[i], &keys[order[j - 1]])
            invariant
                j <= order@.len(),
                i < keys@.len(),
                order@ == held,
                views == key_views(keys@),
                forall|k: int| 0 <= k < order@.len() ==> (#[trigger] order@[k]) < i,
                placed(views, held, i) == placed(views, held.take(j as int), i) + held.skip(
                    j as int,
                ),
            decreases j,
        {
            proof {
                let front = held.take(j as int);
                assert(front.last() == held[j - 1]);
                assert(front.drop_last() =~= held.take(j - 1));
                assert(placed(views, front, i) == placed(views, held.take(j - 1), i).push(
                    held[j - 1],
                ));
                assert(placed(views, held.take(j - 1), i).push(held[j - 1]) + held.skip(j as int)
                    =~= placed(views, held.take(j - 1), i) + held.skip(j - 1));
            }
            j = j - 1;
        }
        proof {
            let front = held.take(j as int);
            if j > 0 {
                assert(front.last() == held[j - 1]);
            }
            assert(placed(views, front, i) == front.push(i));
            assert(held.insert(j as int, i) =~= front.push(i) + held.skip(j as int));
        }
        order.insert(j, i);
        i = i + 1;
    }
    order
}

/// Whether the positions `order` stand in the order of their keys, positions
/// with equal keys in rising order.
pub open spec fn in_key_order(keys: Seq<SortKeyView>, order: Seq<usize>) -> bool {
    forall|i: int, j: int|
        0 <= i < j < order.len() ==> !key_before(
            keys[(#[trigger] order[j]) as int],
            keys[(#[trigger] order[i]) as int],
        ) && (key_before(keys[order[i] as int], keys[order[j] as int]) || order[i] < order[j])
}

/// Of three keys of which the second does not come before the first, and the
/// third not before the second, the third does not come before the first.
pub proof fn lemma_key_order(a: SortKeyView, b: SortKeyView, c: SortKeyView)
    requires
        !key_before(b, a),
        !key_before(c, b),
    ensures
        !key_before(c, a),
{
    if a.first == b.first && b.first == c.first && a.second == b.second && b.second == c.second {
        lemma_lexical_order(a.text, b.text, c.text);
    }
}

/// Of two keys, not each comes before the other.
pub proof fn lemma_key_one_way(a: SortKeyView, b: SortKeyView)
    requires
        key_before(a, b),
    ensures
        !key_before(b, a),
{
    if a.first == b.first && a.second == b.second {
        lemma_lexical_one_way(a.text, b.text);
    }
}

/// Putting a position in keeps the others, adds that one, and keeps the
/// order, provided the position is greater than those already there.
pub proof fn lemma_placed(keys: Seq<SortKeyView>, order: Seq<usize>, x: usize)
    requires
        in_key_order(keys, order),
        forall|k: int| 0 <= k < order.len() ==> (#[trigger] order[k]) < x,
    ensures
        in_key_order(keys, placed(keys, order, x)),
        placed(keys, order, x).len() == order.len() + 1,
        placed(keys, order, x).contains(x),
        forall|k: int| 0 <= k < order.len() ==> placed(keys, order, x).contains(#[trigger] order[k]),
        forall|k: int|
            0 <= k < placed(keys, order, x).len() ==> (#[trigger] placed(keys, order, x)[k]) == x
                || order.contains(placed(keys, order, x)[k]),
    decreases order.len(),
{
    let result = placed(keys, order, x);
    if order.len() == 0 {
        assert(result[0] == x);
    } else if key_before(keys[x as int], keys[order.last() as int]) {
        let front = order.drop_last();
        let last = order.last();
        let inner = placed(keys, front, x);
        assert forall|i: int, j: int| 0 <= i < j < front.len() implies !key_before(
            keys[(#[trigger] front[j]) as int],
            keys[(#[trigger] front[i]) as int],
        ) && (key_before(keys[front[i] as int], keys[front[j] as int]) || front[i] < front[j]) by {
            assert(front[i] == order[i] && front[j] == order[j]);
        }
        lemma_placed(keys, front, x);
        assert(result =~= inner.push(last));
        assert(result[inner.len() as int] == last);
        assert forall|k: int| 0 <= k < inner.len() implies result[k] == inner[k] by {}
        assert(result.contains(x)) by {
            let k = choose|k: int| 0 <= k < inner.len() && inner[k] == x;
            assert(result[k] == x);
        }
        assert forall|k: int| 0 <= k < order.len() implies result.contains(#[trigger] order[k]) by {
            if k < front.len() {
                assert(front[k] == order[k]);
                let m = choose|m: int| 0 <= m < inner.len() && inner[m] == front[k];
                assert(result[m] == order[k]);
            } else {
                assert(result[inner.len() as int] == order[k]);
            }
        }
        assert forall|k: int| 0 <= k < result.len() implies (#[trigger] result[k]) == x
            || order.contains(result[k]) by {
            if k < inner.len() {
                if inner[k] != x {
                    let m = choose|m: int| 0 <= m < front.len() && front[m] == inner[k];
                    assert(order[m] == inner[k]);
                }
            } else {
                assert(order[order.len() - 1] == last);
            }
        }
        assert forall|i: int, j: int| 0 <= i < j < result.len() implies !key_before(
            keys[(#[trigger] result[j]) as int],
            keys[(#[trigger] result[i]) as int],
        ) && (key_before(keys[result[i] as int], keys[result[j] as int]) || result[i]
            < result[j]) by {
            if j == inner.len() {
                assert(result[j] == last);
                assert(result[i] == inner[i]);
                if inner[i] != x {
                    let m = choose|m: int| 0 <= m < front.len() && front[m] == inner[i];
                    assert(order[m] == inner[i]);
                    assert(order[order.len() - 1] == last);
                } else {
                    lemma_key_one_way(keys[x as int], keys[last as int]);
                }
            } else {
                assert(result[i] == inner[i] && result[j] == inner[j]);
            }
        }
    } else {
        assert(result =~= order.push(x));
        assert(result[order.len() as int] == x);
        assert forall|k: int| 0 <= k < order.len() implies result.contains(#[trigger] order[k]) by {
            assert(result[k] == order[k]);
        }
        assert forall|k: int| 0 <= k < result.len() implies (#[trigger] result[k]) == x
            || order.contains(result[k]) by {
            if k < order.len() {
                assert(order[k] == result[k]);
            }
        }
        assert forall|i: int, j: int| 0 <= i < j < result.len() implies !key_before(
            keys[(#[trigger] result[j]) as int],
            keys[(#[trigger] result[i]) as int],
        ) && (key_before(keys[result[i] as int], keys[result[j] as int]) || result[i]
            < result[j]) by {
            if j == order.len() {
                assert(result[i] == order[i]);
                if i < order.len() - 1 {
                    assert(!key_before(
                        keys[order[order.len() - 1] as int],
                        keys[order[i] as int],
                    ));
                    lemma_key_order(
                        keys[order[i] as int],
                        keys[order.last() as int],
                        keys[x as int],
                    );
                }
            } else {
                assert(result[i] == order[i] && result[j] == order[j]);
            }
        }
    }
}

/// The order of the first `n` positions holds each of them, holds nothing
/// else, and is the order of their keys, positions with equal keys rising.
pub proof fn lemma_ordered(keys: Seq<SortKeyView>, n: int)
    requires
        0 <= n <= usize::MAX,
    ensures
        ordered(keys, n).len() == n,
        forall|x: usize| 0 <= x < n ==> ordered(keys, n).contains(x),
        forall|k: int| 0 <= k < n ==> (#[trigger] ordered(keys, n)[k]) < n,
        in_key_order(keys, ordered(keys, n)),
    decreases n,
{
    if n > 0 {
        lemma_ordered(keys, n - 1);
        let before = ordered(keys, n - 1);
        let x = (n - 1) as usize;
        lemma_placed(keys, before, x);
        let after = ordered(keys, n);
        assert forall|y: usize| 0 <= y < n implies after.contains(y) by {
            if y < n - 1 {
                assert(before.contains(y));
                let k = choose|k: int| 0 <= k < before.len() && before[k] == y;
                assert(after.contains(before[k]));
            }
        }
        assert forall|k: int| 0 <= k < n implies (#[trigger] after[k]) < n by {
            if after[k] != x {
                let m = choose|m: int| 0 <= m < before.len() && before[m] == after[k];
                assert(before[m] < n - 1);
            }
        }
    }
}

} // verus!
