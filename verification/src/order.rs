//! Stable ordering of items by an integer key.
//!
//! Results are ranked by a score, a date or an importance. The order is
//! given as a list of positions: the item that comes first, the item that
//! comes second, and so on. Items with equal keys keep the order in which
//! they came.

use vstd::prelude::*;

verus! {

/// Whether an item with key `a` goes strictly before one with key `b`.
pub open spec fn goes_before(a: i64, b: i64, descending: bool) -> bool {
    if descending {
        a > b
    } else {
        a < b
    }
}

/// The ordered list `order` with the position `x` put in: behind every
/// position that it does not go strictly before.
pub open spec fn inserted(order: Seq<usize>, keys: Seq<i64>, x: usize, descending: bool) -> Seq<
    usize,
>
    decreases order.len(),
{
    if order.len() > 0 && goes_before(keys[x as int], keys[order.last() as int], descending) {
        inserted(order.drop_last(), keys, x, descending).push(order.last())
    } else {
        order.push(x)
    }
}

/// The first `n` positions in the stable order of their keys.
pub open spec fn stable_order_upto(keys: Seq<i64>, n: nat, descending: bool) -> Seq<usize>
    decreases n,
{
    if n == 0 {
        Seq::empty()
    } else {
        inserted(stable_order_upto(keys, (n - 1) as nat, descending), keys, (n - 1) as usize, descending)
    }
}

/// All positions of `keys` in the stable order of their keys.
pub open spec fn stable_order(keys: Seq<i64>, descending: bool) -> Seq<usize> {
    stable_order_upto(keys, keys.len(), descending)
}

/// Whether no position of `order` goes strictly before one that stands
/// earlier in it.
pub open spec fn is_ordered(order: Seq<usize>, keys: Seq<i64>, descending: bool) -> bool {
    forall|a: int, b: int|
        0 <= a < b < order.len() ==> !goes_before(
            keys[#[trigger] order[b] as int],
            keys[#[trigger] order[a] as int],
            descending,
        )
}

/// Whether `order` holds each of the positions `0..n` exactly once.
pub open spec fn is_arrangement(order: Seq<usize>, n: nat) -> bool {
    &&& order.len() == n
    &&& forall|a: int| 0 <= a < order.len() ==> (#[trigger] order[a]) < n
    &&& forall|a: int, b: int| 0 <= a < b < order.len() ==> #[trigger] order[a] != #[trigger] order[b]
}

/// Whether the position `i` stands somewhere in `order`.
pub open spec fn stands_in(order: Seq<usize>, i: int) -> bool {
    exists|a: int| 0 <= a < order.len() && #[trigger] order[a] == i
}

/// Whether each of the positions `0..n` stands somewhere in `order`.
pub open spec fn covers(order: Seq<usize>, n: nat) -> bool {
    forall|i: int| 0 <= i < n ==> #[trigger] stands_in(order, i)
}

/// Whether positions with equal keys stand in `order` as they came.
pub open spec fn keeps_ties(order: Seq<usize>, keys: Seq<i64>) -> bool {
    forall|a: int, b: int|
        0 <= a < b < order.len() && keys[#[trigger] order[a] as int] == keys[#[trigger] order[b] as int]
            ==> order[a] < order[b]
}

/// Putting a position in splits the list in two and leaves both parts as
/// they were.
pub proof fn lemma_inserted_shape(order: Seq<usize>, keys: Seq<i64>, x: usize, descending: bool)
    ensures
        exists|j: int|
            {
                &&& 0 <= j <= order.len()
                &&& #[trigger] inserted(order, keys, x, descending) == order.take(j).push(x)
                    + order.skip(j)
                &&& (j > 0 ==> !goes_before(keys[x as int], keys[order[j - 1] as int], descending))
                &&& forall|k: int|
                    j <= k < order.len() ==> goes_before(
                        keys[x as int],
                        keys[#[trigger] order[k] as int],
                        descending,
                    )
            },
    decreases order.len(),
{
    if order.len() > 0 && goes_before(keys[x as int], keys[order.last() as int], descending) {
        let rest = order.drop_last();
        lemma_inserted_shape(rest, keys, x, descending);
        let j = choose|j: int|
            {
                &&& 0 <= j <= rest.len()
                &&& #[trigger] inserted(rest, keys, x, descending) == rest.take(j).push(x)
                    + rest.skip(j)
                &&& (j > 0 ==> !goes_before(keys[x as int], keys[rest[j - 1] as int], descending))
                &&& forall|k: int|
                    j <= k < rest.len() ==> goes_before(
                        keys[x as int],
                        keys[#[trigger] rest[k] as int],
                        descending,
                    )
            };
        assert(rest.take(j) =~= order.take(j));
        assert((rest.take(j).push(x) + rest.skip(j)).push(order.last()) =~= order.take(j).push(x)
            + order.skip(j));
        assert forall|k: int| j <= k < order.len() implies goes_before(
            keys[x as int],
            keys[#[trigger] order[k] as int],
            descending,
        ) by {
            if k < rest.len() {
                assert(order[k] == rest[k]);
            }
        }
        if j > 0 {
            assert(rest[j - 1] == order[j - 1]);
        }
    } else {
        let j = order.len() as int;
        assert(order.take(j) =~= order);
        assert(order.push(x) =~= order.take(j).push(x) + order.skip(j));
    }
}

/// Putting a new position into an ordered arrangement gives an ordered
/// arrangement that keeps ties.
pub proof fn lemma_inserted_keeps(order: Seq<usize>, keys: Seq<i64>, n: nat, descending: bool)
    requires
        n < keys.len(),
        n <= usize::MAX,
        is_arrangement(order, n),
        is_ordered(order, keys, descending),
        keeps_ties(order, keys),
        covers(order, n),
    ensures
        is_arrangement(inserted(order, keys, n as usize, descending), n + 1),
        is_ordered(inserted(order, keys, n as usize, descending), keys, descending),
        keeps_ties(inserted(order, keys, n as usize, descending), keys),
        covers(inserted(order, keys, n as usize, descending), n + 1),
{
    let x = n as usize;
    let out = inserted(order, keys, x, descending);
    lemma_inserted_shape(order, keys, x, descending);
    let j = choose|j: int|
        {
            &&& 0 <= j <= order.len()
            &&& #[trigger] inserted(order, keys, x, descending) == order.take(j).push(x)
                + order.skip(j)
            &&& (j > 0 ==> !goes_before(keys[x as int], keys[order[j - 1] as int], descending))
            &&& forall|k: int|
                j <= k < order.len() ==> goes_before(
                    keys[x as int],
                    keys[#[trigger] order[k] as int],
                    descending,
                )
        };
    assert(out.len() == n + 1);
    assert forall|a: int| 0 <= a < out.len() implies out[a] == (if a < j {
        order[a]
    } else if a == j {
        x
    } else {
        order[a - 1]
    }) by {}
    assert forall|a: int, b: int| 0 <= a < b < out.len() implies !goes_before(
        keys[#[trigger] out[b] as int],
        keys[#[trigger] out[a] as int],
        descending,
    ) by {
        if b == j {
            // out[a] = order[a], a < j: x does not go before order[j-1], and
            // order[j-1] does not go before order[a].
            if a < j - 1 {
                assert(!goes_before(
                    keys[order[j - 1] as int],
                    keys[order[a] as int],
                    descending,
                ));
            }
        } else if a == j {
            assert(goes_before(keys[x as int], keys[order[b - 1] as int], descending));
        } else {
            let a0 = if a < j {
                a
            } else {
                a - 1
            };
            let b0 = if b < j {
                b
            } else {
                b - 1
            };
            assert(!goes_before(keys[order[b0] as int], keys[order[a0] as int], descending));
        }
    }
    assert forall|a: int, b: int|
        0 <= a < b < out.len() && keys[#[trigger] out[a] as int] == keys[#[trigger] out[b] as int]
        implies out[a] < out[b] by {
        if b == j {
        } else if a == j {
            assert(goes_before(keys[x as int], keys[order[b - 1] as int], descending));
        } else {
            let a0 = if a < j {
                a
            } else {
                a - 1
            };
            let b0 = if b < j {
                b
            } else {
                b - 1
            };
            assert(keys[order[a0] as int] == keys[order[b0] as int] ==> order[a0] < order[b0]);
        }
    }
    assert forall|i: int| 0 <= i < n + 1 implies #[trigger] stands_in(out, i) by {
        if i == n {
            assert(out[j] == i);
        } else {
            assert(stands_in(order, i));
            let a0 = choose|a: int| 0 <= a < order.len() && #[trigger] order[a] == i;
            let a1 = if a0 < j {
                a0
            } else {
                a0 + 1
            };
            assert(out[a1] == i);
        }
    }
    assert forall|a: int, b: int| 0 <= a < b < out.len() implies #[trigger] out[a]
        != #[trigger] out[b] by {
        if a != j && b != j {
            let a0 = if a < j {
                a
            } else {
                a - 1
            };
            let b0 = if b < j {
                b
            } else {
                b - 1
            };
            assert(order[a0] != order[b0]);
        }
    }
}

/// The stable order holds every position once, never puts a position
/// before one that it does not go before, and keeps ties as they came.
pub proof fn lemma_stable_order_upto(keys: Seq<i64>, n: nat, descending: bool)
    requires
        n <= keys.len(),
        keys.len() <= usize::MAX,
    ensures
        is_arrangement(stable_order_upto(keys, n, descending), n),
        is_ordered(stable_order_upto(keys, n, descending), keys, descending),
        keeps_ties(stable_order_upto(keys, n, descending), keys),
        covers(stable_order_upto(keys, n, descending), n),
    decreases n,
{
    if n > 0 {
        lemma_stable_order_upto(keys, (n - 1) as nat, descending);
        lemma_inserted_keeps(
            stable_order_upto(keys, (n - 1) as nat, descending),
            keys,
            (n - 1) as nat,
            descending,
        );
    }
}

/// The stable order is an ordered arrangement of all positions that keeps
/// ties as they came.
pub proof fn lemma_stable_order(keys: Seq<i64>, descending: bool)
    requires
        keys.len() <= usize::MAX,
    ensures
        is_arrangement(stable_order(keys, descending), keys.len()),
        is_ordered(stable_order(keys, descending), keys, descending),
        keeps_ties(stable_order(keys, descending), keys),
        covers(stable_order(keys, descending), keys.len()),
{
    lemma_stable_order_upto(keys, keys.len(), descending);
}

/// Whether an item with key `a` goes strictly before one with key `b`.
pub fn before(a: i64, b: i64, descending: bool) -> (r: bool)
    ensures
        r == goes_before(a, b, descending),
{
    if descending {
        a > b
    } else {
        a < b
    }
}

/// The positions of `keys` in the stable order of their keys.
pub fn sort_order(keys: &Vec<i64>, descending: bool) -> (order: Vec<usize>)
    ensures
        order@ == stable_order(keys@, descending),
        is_arrangement(order@, keys@.len()),
{
    let mut order: Vec<usize> = Vec::new();
    let mut n: usize = 0;
    while n < keys.len()
        invariant
            n <= keys.len(),
            order@ == stable_order_upto(keys@, n as nat, descending),
            is_arrangement(order@, n as nat),
        decreases keys.len() - n,
    {
        let ghost prev = order@;
        proof {
            lemma_stable_order_upto(keys@, n as nat, descending);
            lemma_stable_order_upto(keys@, (n + 1) as nat, descending);
        }
        order.push(n);
        let mut j: usize = n;
        proof {
            assert(prev.take(n as int) =~= prev);
            assert(inserted(prev, keys@, n, descending) + prev.skip(n as int) =~= inserted(
                prev,
                keys@,
                n,
                descending,
            ));
        }
        while j > 0 && before(keys[n], keys[order[j - 1]], descending)
            invariant
                0 <= j <= n < keys.len(),
                order.len() == n + 1,
                prev.len() == n,
                is_arrangement(prev, n as nat),
                forall|k: int| 0 <= k < j ==> order@[k] == prev[k],
                forall|k: int| j < k <= n ==> order@[k] == prev[k - 1],
                inserted(prev, keys@, n, descending) == inserted(
                    prev.take(j as int),
                    keys@,
                    n,
                    descending,
                ) + prev.skip(j as int),
            decreases j,
        {
            let moved = order[j - 1];
            order.set(j, moved);
            proof {
                let head = prev.take(j as int);
                assert(head.last() == prev[j - 1]);
                assert(head.drop_last() =~= prev.take(j - 1));
                assert(inserted(head, keys@, n, descending) == inserted(
                    prev.take(j - 1),
                    keys@,
                    n,
                    descending,
                ).push(prev[j - 1]));
                assert(inserted(prev.take(j - 1), keys@, n, descending).push(prev[j - 1])
                    + prev.skip(j as int) =~= inserted(prev.take(j - 1), keys@, n, descending)
                    + prev.skip(j - 1));
            }
            j -= 1;
        }
        order.set(j, n);
        proof {
            let head = prev.take(j as int);
            if j > 0 {
                assert(head.last() == prev[j - 1]);
            }
            assert(inserted(head, keys@, n, descending) == head.push(n));
            assert(order@ =~= head.push(n) + prev.skip(j as int));
        }
        n += 1;
    }
    proof {
        lemma_stable_order_upto(keys@, keys@.len(), descending);
    }
    order
}

} // verus!
