//! Stable sorting of places by integer keys.

use vstd::prelude::*;
use itertools::Itertools;

verus! {

/// Whether place `x` is put before place `y`: by the smaller key, and by the
/// earlier place in the list where the keys are equal.
pub open spec fn comes_before(keys: Seq<i128>, x: int, y: int) -> bool {
    keys[x] < keys[y] || (keys[x] == keys[y] && x < y)
}

/// Whether `order` lists the places `0..keys.len()`, each of them, so that
/// the keys ascend and places with equal keys keep their order.
pub open spec fn is_stable_order(keys: Seq<i128>, order: Seq<usize>) -> bool {
    &&& order.len() == keys.len()
    &&& forall|i: int| 0 <= i < order.len() ==> 0 <= #[trigger] order[i] < keys.len()
    &&& forall|place: usize| place < keys.len() ==> #[trigger] order.contains(place)
    &&& forall|i: int, j: int|
        0 <= i < j < order.len() ==> comes_before(
            keys,
            #[trigger] order[i] as int,
            #[trigger] order[j] as int,
        )
}

/// Sorts the places `0..keys.len()` by their keys with itertools'
/// `Itertools::sorted_by_key`. Trusted: what comes back holds each place
/// once, in ascending order of the keys, and, the sort being stable, places
/// with equal keys in ascending order.
#[verifier::external_body]
pub(crate) fn stable_order(keys: &Vec<i128>) -> (order: Vec<usize>)
    ensures
        is_stable_order(keys@, order@),
{
    (0..keys.len()).sorted_by_key(|place| keys[*place]).collect()
}

/// There is one stable order of given keys, and no other.
pub proof fn lemma_stable_order_unique(keys: Seq<i128>, a: Seq<usize>, b: Seq<usize>)
    requires
        is_stable_order(keys, a),
        is_stable_order(keys, b),
    ensures
        a == b,
{
    assert forall|i: int| 0 <= i < a.len() implies a[i] == b[i] by {
        lemma_orders_agree(keys, a, b, i);
    }
    assert(a =~= b);
}

proof fn lemma_orders_agree(keys: Seq<i128>, a: Seq<usize>, b: Seq<usize>, upto: int)
    requires
        is_stable_order(keys, a),
        is_stable_order(keys, b),
        0 <= upto < a.len(),
    ensures
        forall|i: int| 0 <= i <= upto ==> a[i] == b[i],
    decreases upto,
{
    if upto > 0 {
        lemma_orders_agree(keys, a, b, upto - 1);
    }
    let x = a[upto];
    let y = b[upto];
    if x != y {
        assert(b.contains(x));
        assert(a.contains(y));
        let p = choose|p: int| 0 <= p < b.len() && b[p] == x;
        let q = choose|q: int| 0 <= q < a.len() && a[q] == y;
        if p < upto {
            assert(a[p] == b[p]);
            assert(comes_before(keys, a[p] as int, a[upto] as int));
        }
        if q < upto {
            assert(a[q] == b[q]);
            assert(comes_before(keys, b[q] as int, b[upto] as int));
        }
        assert(comes_before(keys, b[upto] as int, b[p] as int));
        assert(comes_before(keys, a[upto] as int, a[q] as int));
    }
}

/// The number of places at the front of `order` whose keys are no greater
/// than `key`, where `order` lists places by ascending keys.
spec fn split_point(keys: Seq<i128>, order: Seq<usize>, key: i128) -> int
    decreases order.len(),
{
    if order.len() == 0 {
        0
    } else if keys[order.last() as int] <= key {
        order.len() as int
    } else {
        split_point(keys, order.drop_last(), key)
    }
}

/// The split point parts the places with keys up to `key` from those with
/// greater keys.
proof fn lemma_split_point(keys: Seq<i128>, order: Seq<usize>, key: i128)
    requires
        forall|i: int, j: int|
            0 <= i < j < order.len() ==> keys[#[trigger] order[i] as int]
                <= keys[#[trigger] order[j] as int],
    ensures
        0 <= split_point(keys, order, key) <= order.len(),
        forall|i: int|
            0 <= i < split_point(keys, order, key) ==> keys[#[trigger] order[i] as int] <= key,
        forall|i: int|
            split_point(keys, order, key) <= i < order.len() ==> keys[#[trigger] order[i] as int]
                > key,
    decreases order.len(),
{
    if order.len() > 0 && keys[order.last() as int] > key {
        let front = order.drop_last();
        assert forall|i: int, j: int| 0 <= i < j < front.len() implies keys[
            #[trigger] front[i] as int
        ] <= keys[#[trigger] front[j] as int] by {
            assert(front[i] == order[i] && front[j] == order[j]);
        }
        lemma_split_point(keys, front, key);
        let at = split_point(keys, front, key);
        assert forall|i: int| 0 <= i < at implies keys[#[trigger] order[i] as int] <= key by {
            assert(front[i] == order[i]);
        }
        assert forall|i: int| at <= i < order.len() implies keys[#[trigger] order[i] as int]
            > key by {
            if i < front.len() {
                assert(front[i] == order[i]);
            }
        }
    } else if order.len() > 0 {
        let last = order.len() - 1;
        assert forall|i: int| 0 <= i < order.len() implies keys[#[trigger] order[i] as int]
            <= key by {
            if i < last {
                assert(keys[order[i] as int] <= keys[order[last] as int]);
            }
        }
    }
}

/// Keys that a vector can hold have a stable order.
pub proof fn lemma_stable_order_exists(keys: Seq<i128>)
    requires
        keys.len() <= usize::MAX,
    ensures
        is_stable_order(keys, stable_order_of(keys)),
    decreases keys.len(),
{
    if keys.len() == 0 {
        assert(is_stable_order(keys, Seq::<usize>::empty()));
    } else {
        let front = keys.drop_last();
        lemma_stable_order_exists(front);
        let order = stable_order_of(front);
        let last = (keys.len() - 1) as usize;
        let key = keys[last as int];
        assert forall|i: int, j: int| 0 <= i < j < order.len() implies comes_before(
            keys,
            #[trigger] order[i] as int,
            #[trigger] order[j] as int,
        ) by {
            assert(comes_before(front, order[i] as int, order[j] as int));
            assert(front[order[i] as int] == keys[order[i] as int]);
            assert(front[order[j] as int] == keys[order[j] as int]);
        }
        lemma_split_point(keys, order, key);
        let at = split_point(keys, order, key);
        let after = order.insert(at, last);
        assert forall|place: usize| place < keys.len() implies #[trigger] after.contains(place) by {
            if place == last {
                assert(after[at] == place);
            } else {
                assert(order.contains(place));
                let found = choose|found: int| 0 <= found < order.len() && order[found] == place;
                if found < at {
                    assert(after[found] == place);
                } else {
                    assert(after[found + 1] == place);
                }
            }
        }
        assert forall|i: int, j: int| 0 <= i < j < after.len() implies comes_before(
            keys,
            #[trigger] after[i] as int,
            #[trigger] after[j] as int,
        ) by {
            if j < at {
                assert(after[i] == order[i] && after[j] == order[j]);
            } else if j == at {
                assert(after[i] == order[i]);
                assert(keys[order[i] as int] <= key);
            } else if i == at {
                assert(after[j] == order[j - 1]);
                assert(keys[order[j - 1] as int] > key);
            } else if i < at {
                assert(after[i] == order[i] && after[j] == order[j - 1]);
            } else {
                assert(after[i] == order[i - 1] && after[j] == order[j - 1]);
            }
        }
        assert(is_stable_order(keys, after));
    }
}

/// The stable order of given keys.
pub open spec fn stable_order_of(keys: Seq<i128>) -> Seq<usize> {
    choose|order: Seq<usize>| is_stable_order(keys, order)
}

/// Sorts the places `0..keys.len()` by their keys, places with equal keys in
/// ascending order.
pub fn sort_places(keys: &Vec<i128>) -> (order: Vec<usize>)
    ensures
        is_stable_order(keys@, order@),
        order@ == stable_order_of(keys@),
{
    let order = stable_order(keys);
    proof {
        lemma_stable_order_unique(keys@, order@, stable_order_of(keys@));
    }
    order
}

} // verus!
