//! A stable order by rank and text.

use crate::text::{comes_before, text_before, text_order_is_total, text_order_is_transitive};
use vstd::prelude::*;

verus! {

/// What things are ordered by: first a rank, then a text.
pub struct SortKey {
    pub rank: u64,
    pub text: Vec<char>,
}

/// What a key holds.
pub struct Key {
    pub rank: int,
    pub text: Seq<char>,
}

impl View for SortKey {
    type V = Key;

    open spec fn view(&self) -> Key {
        Key { rank: self.rank as int, text: self.text@ }
    }
}

/// What the keys of a list hold.
pub open spec fn keys_of(list: Seq<SortKey>) -> Seq<Key> {
    Seq::new(list.len(), |i: int| list[i]@)
}

/// Whether a key comes before another.
pub open spec fn key_before(a: Key, b: Key) -> bool {
    a.rank < b.rank || (a.rank == b.rank && text_before(a.text, b.text))
}

/// Where the thing with number `i` is put into an order: behind all that it does not come before.
pub open spec fn slot(order: Seq<int>, keys: Seq<Key>, i: int) -> int
    decreases order.len(),
{
    if order.len() > 0 && key_before(keys[i], keys[order.last()]) {
        slot(order.drop_last(), keys, i)
    } else {
        order.len() as int
    }
}

/// The numbers of the first `n` things in the order of their keys; of things with equal keys the
/// one that came first stays first.
pub open spec fn order_upto(keys: Seq<Key>, n: int) -> Seq<int>
    decreases n,
{
    if n <= 0 {
        Seq::empty()
    } else {
        let before = order_upto(keys, n - 1);
        before.insert(slot(before, keys, n - 1), n - 1)
    }
}

/// The numbers of all things in the order of their keys.
pub open spec fn stable_order(keys: Seq<Key>) -> Seq<int> {
    order_upto(keys, keys.len() as int)
}

/// Whether an order holds each of the numbers below `n` exactly once, by rising keys, and by
/// rising numbers where the keys are equal.
pub open spec fn is_stable_order(order: Seq<int>, keys: Seq<Key>, n: int) -> bool {
    &&& order.len() == n
    &&& forall|k: int| 0 <= k < order.len() ==> 0 <= #[trigger] order[k] < n
    &&& forall|i: int| 0 <= i < n ==> #[trigger] order.contains(i)
    &&& forall|a: int, b: int|
        #![trigger order[a], order[b]]
        0 <= a < b < order.len() ==> !key_before(keys[order[b]], keys[order[a]]) && order[a]
            != order[b] && (key_before(keys[order[a]], keys[order[b]]) || order[a] < order[b])
}

proof fn lemma_key_order(a: Key, b: Key, c: Key)
    ensures
        !(key_before(a, b) && key_before(b, a)),
        key_before(a, b) || key_before(b, a) || a == b,
        key_before(a, b) && key_before(b, c) ==> key_before(a, c),
        key_before(a, b) && !key_before(c, b) ==> key_before(a, c),
{
    text_order_is_total(a.text, b.text);
    text_order_is_total(c.text, b.text);
    text_order_is_total(b.text, c.text);
    if key_before(a, b) && key_before(b, c) && a.rank == b.rank && b.rank == c.rank {
        text_order_is_transitive(a.text, b.text, c.text);
    }
    if key_before(a, b) && !key_before(c, b) && a.rank == b.rank && b.rank == c.rank {
        if b.text != c.text {
            text_order_is_transitive(a.text, b.text, c.text);
        }
    }
}

proof fn lemma_slot(order: Seq<int>, keys: Seq<Key>, i: int)
    ensures
        0 <= slot(order, keys, i) <= order.len(),
        forall|k: int|
            slot(order, keys, i) <= k < order.len() ==> key_before(
                keys[i],
                keys[#[trigger] order[k]],
            ),
        slot(order, keys, i) > 0 ==> !key_before(keys[i], keys[order[slot(order, keys, i) - 1]]),
    decreases order.len(),
{
    if order.len() > 0 && key_before(keys[i], keys[order.last()]) {
        let front = order.drop_last();
        lemma_slot(front, keys, i);
        assert forall|k: int| slot(order, keys, i) <= k < order.len() implies key_before(
            keys[i],
            keys[#[trigger] order[k]],
        ) by {
            if k < front.len() {
                assert(front[k] == order[k]);
            }
        }
        if slot(order, keys, i) > 0 {
            assert(front[slot(order, keys, i) - 1] == order[slot(order, keys, i) - 1]);
        }
    }
}

/// The order is stable: it holds every number once, by rising keys, and equal keys keep their
/// order.
pub proof fn the_order_is_stable(keys: Seq<Key>, n: int)
    requires
        0 <= n <= keys.len(),
    ensures
        is_stable_order(order_upto(keys, n), keys, n),
    decreases n,
{
    if n > 0 {
        the_order_is_stable(keys, n - 1);
        let before = order_upto(keys, n - 1);
        let at = slot(before, keys, n - 1);
        let order = order_upto(keys, n);
        lemma_slot(before, keys, n - 1);
        assert(order == before.insert(at, n - 1));
        assert forall|k: int| 0 <= k < order.len() implies 0 <= #[trigger] order[k] < n by {
            if k < at {
                assert(order[k] == before[k]);
            } else if k > at {
                assert(order[k] == before[k - 1]);
            }
        }
        assert forall|i: int| 0 <= i < n implies #[trigger] order.contains(i) by {
            if i == n - 1 {
                assert(order[at] == i);
            } else {
                assert(before.contains(i));
                let k = choose|k: int| 0 <= k < before.len() && before[k] == i;
                if k < at {
                    assert(order[k] == i);
                } else {
                    assert(order[k + 1] == i);
                }
            }
        }
        assert forall|a: int, b: int|
            #![trigger order[a], order[b]]
            0 <= a < b < order.len() implies !key_before(keys[order[b]], keys[order[a]]) && order[a]
            != order[b] && (key_before(keys[order[a]], keys[order[b]]) || order[a] < order[b]) by {
            let ka = if a < at { a } else { a - 1 };
            let kb = if b < at { b } else { b - 1 };
            if a != at && b != at {
                assert(order[a] == before[ka] && order[b] == before[kb]);
            } else if a == at {
                assert(order[b] == before[kb]);
                lemma_key_order(keys[n - 1], keys[before[kb]], keys[n - 1]);
            } else {
                assert(order[a] == before[ka]);
                let last = before[at - 1];
                lemma_key_order(keys[n - 1], keys[before[ka]], keys[last]);
                if ka < at - 1 {
                    assert(!key_before(keys[before[at - 1]], keys[before[ka]]));
                }
                lemma_key_order(keys[before[ka]], keys[n - 1], keys[last]);
            }
        }
    }
}

fn comes_first(a: &SortKey, b: &SortKey) -> (r: bool)
    ensures
        r == key_before(a@, b@),
{
    a.rank < b.rank || (a.rank == b.rank && comes_before(&a.text, &b.text))
}

/// The numbers of a list as integers.
pub open spec fn numbers(list: Seq<usize>) -> Seq<int> {
    Seq::new(list.len(), |i: int| list[i] as int)
}

/// The numbers of all things in the order of their keys.
pub fn sorted_order(keys: &Vec<SortKey>) -> (r: Vec<usize>)
    ensures
        numbers(r@) == stable_order(keys_of(keys@)),
        r@.len() == keys@.len(),
        forall|k: int| 0 <= k < r@.len() ==> #[trigger] r@[k] < keys@.len(),
{
    let ghost all = keys_of(keys@);
    let mut order: Vec<usize> = Vec::new();
    let mut i: usize = 0;
    assert(numbers(order@) =~= order_upto(all, 0));
    while i < keys.len()
        invariant
            all == keys_of(keys@),
            0 <= i <= keys@.len(),
            order@.len() == i,
            numbers(order@) == order_upto(all, i as int),
            forall|k: int| 0 <= k < order@.len() ==> #[trigger] order@[k] < i,
        decreases keys@.len() - i,
    {
        let ghost before = numbers(order@);
        let mut at: usize = order.len();
        assert(before.take(before.len() as int) =~= before);
        while at > 0 && comes_first(&keys[i], &keys[order[at - 1]])
            invariant
                all == keys_of(keys@),
                i < keys@.len(),
                order@.len() == i,
                before == numbers(order@),
                0 <= at <= order@.len(),
                slot(before, all, i as int) == slot(before.take(at as int), all, i as int),
                forall|k: int| 0 <= k < order@.len() ==> #[trigger] order@[k] < i,
            decreases at,
        {
            proof {
                assert(before.take(at as int).last() == order@[at - 1] as int);
                assert(all[order@[at - 1] as int] == keys@[order@[at - 1] as int]@);
                assert(before.take(at as int).drop_last() =~= before.take(at - 1));
            }
            at -= 1;
        }
        proof {
            if at > 0 {
                assert(before.take(at as int).last() == order@[at - 1] as int);
                assert(all[order@[at - 1] as int] == keys@[order@[at - 1] as int]@);
            }
        }
        let ghost old_order = order@;
        order.insert(at, i);
        proof {
            assert(numbers(order@) =~= before.insert(at as int, i as int));
            assert forall|k: int| 0 <= k < order@.len() implies #[trigger] order@[k] < i + 1 by {
                if k < at {
                    assert(order@[k] == old_order[k]);
                } else if k > at {
                    assert(order@[k] == old_order[k - 1]);
                }
            }
        }
        i += 1;
    }
    order
}

/// A lower rank comes first whatever the texts are; the texts decide between equal ranks.
pub proof fn the_rank_decides_first(a: Key, b: Key)
    ensures
        a.rank < b.rank ==> key_before(a, b) && !key_before(b, a),
        a.rank == b.rank ==> (key_before(a, b) <==> text_before(a.text, b.text)),
{
}

}
