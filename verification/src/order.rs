//! Stable sorting: what sorts alike stays in the order it came in.
use vstd::prelude::*;
use crate::text::{precedes, sorts_before, text_order_is_total, text_order_is_transitive};

verus! {

/// Something to sort by.
pub trait SortKey: Sized {
    /// Whether `a` goes before `b`.
    spec fn before(a: Self, b: Self) -> bool;

    /// Keys that neither goes before the other sort alike, and that is transitive.
    proof fn is_order(a: Self, b: Self, c: Self)
        ensures
            !Self::before(a, a),
            Self::before(a, b) && Self::before(b, c) ==> Self::before(a, c),
            !Self::before(a, b) && !Self::before(b, c) ==> !Self::before(a, c),
    ;

    fn goes_before(&self, other: &Self) -> (r: bool)
        ensures
            r == Self::before(*self, *other),
    ;
}

/// Smaller numbers first.
#[derive(Debug)]
pub struct Ascending(pub i64);

impl SortKey for Ascending {
    open spec fn before(a: Self, b: Self) -> bool {
        a.0 < b.0
    }

    proof fn is_order(a: Self, b: Self, c: Self) {
    }

    fn goes_before(&self, other: &Self) -> (r: bool) {
        self.0 < other.0
    }
}

/// Later times first, written so that they sort as texts; no time at all goes last.
#[derive(Debug)]
pub struct Newest(pub Option<String>);

pub open spec fn later(a: Option<String>, b: Option<String>) -> bool {
    match (a, b) {
        (Some(x), Some(y)) => precedes(y@, x@),
        (Some(_), None) => true,
        (None, _) => false,
    }
}

impl SortKey for Newest {
    open spec fn before(a: Self, b: Self) -> bool {
        later(a.0, b.0)
    }

    proof fn is_order(a: Self, b: Self, c: Self) {
        if let Some(x) = a.0 {
            text_order_is_total(x@, x@);
            if let Some(y) = b.0 {
                text_order_is_total(x@, y@);
                if let Some(z) = c.0 {
                    text_order_is_total(y@, z@);
                    text_order_is_total(x@, z@);
                    if precedes(y@, x@) && precedes(z@, y@) {
                        text_order_is_transitive(z@, y@, x@);
                    }
                    if precedes(x@, y@) && precedes(y@, z@) {
                        text_order_is_transitive(x@, y@, z@);
                    }
                }
            }
        }
    }

    fn goes_before(&self, other: &Self) -> (r: bool) {
        match (&self.0, &other.0) {
            (Some(x), Some(y)) => sorts_before(y.as_str(), x.as_str()),
            (Some(_), None) => true,
            (None, _) => false,
        }
    }
}

/// Where a key goes among sorted ones: behind those that sort alike.
pub open spec fn slot<K: SortKey>(order: Seq<int>, keys: Seq<K>, key: K) -> int
    decreases order.len(),
{
    if order.len() == 0 || !K::before(key, keys[order.last()]) {
        order.len() as int
    } else {
        slot(order.drop_last(), keys, key)
    }
}

/// The places of the keys in sorted order.
pub open spec fn stable_order<K: SortKey>(keys: Seq<K>) -> Seq<int>
    decreases keys.len(),
{
    if keys.len() == 0 {
        Seq::empty()
    } else {
        let before = stable_order(keys.drop_last());
        before.insert(slot(before, keys, keys.last()), keys.len() - 1)
    }
}

/// What a list becomes when its places are taken in an order.
pub open spec fn arranged<T>(items: Seq<T>, order: Seq<int>) -> Seq<T> {
    order.map_values(|i: int| items[i])
}

proof fn lemma_slot<K: SortKey>(order: Seq<int>, keys: Seq<K>, key: K)
    ensures
        0 <= slot(order, keys, key) <= order.len(),
        slot(order, keys, key) > 0 ==> !K::before(
            key,
            keys[order[slot(order, keys, key) - 1]],
        ),
        forall|j: int|
            slot(order, keys, key) <= j < order.len() ==> K::before(
                key,
                keys[#[trigger] order[j]],
            ),
    decreases order.len(),
{
    if order.len() > 0 && K::before(key, keys[order.last()]) {
        let rest = order.drop_last();
        lemma_slot(rest, keys, key);
        assert forall|j: int| slot(order, keys, key) <= j < order.len() implies K::before(
            key,
            keys[#[trigger] order[j]],
        ) by {
            if j < rest.len() {
                assert(rest[j] == order[j]);
            }
        }
    }
}

proof fn lemma_slot_is<K: SortKey>(order: Seq<int>, keys: Seq<K>, key: K, at: int)
    requires
        0 <= at <= order.len(),
        at > 0 ==> !K::before(key, keys[order[at - 1]]),
        forall|j: int| at <= j < order.len() ==> K::before(key, keys[#[trigger] order[j]]),
    ensures
        slot(order, keys, key) == at,
    decreases order.len(),
{
    if at < order.len() {
        let rest = order.drop_last();
        assert(K::before(key, keys[order[order.len() - 1]]));
        assert forall|j: int| at <= j < rest.len() implies K::before(
            key,
            keys[#[trigger] rest[j]],
        ) by {
            assert(rest[j] == order[j]);
        }
        lemma_slot_is(rest, keys, key, at);
    }
}

/// The order only looks at the keys it has placed.
proof fn lemma_slot_prefix<K: SortKey>(order: Seq<int>, keys: Seq<K>, more: Seq<K>, key: K)
    requires
        forall|j: int| 0 <= j < order.len() ==> 0 <= (#[trigger] order[j]) < keys.len(),
        keys.len() <= more.len(),
        forall|j: int| 0 <= j < keys.len() ==> keys[j] == more[j],
    ensures
        slot(order, keys, key) == slot(order, more, key),
    decreases order.len(),
{
    if order.len() > 0 {
        assert(0 <= order[order.len() - 1] < keys.len());
        let rest = order.drop_last();
        assert forall|j: int| 0 <= j < rest.len() implies 0 <= (#[trigger] rest[j])
            < keys.len() by {
            assert(rest[j] == order[j]);
        }
        lemma_slot_prefix(rest, keys, more, key);
    }
}

/// Sorting keeps every item, once each; it puts none behind one that it goes before; and
/// items that sort alike keep the order they came in.
pub proof fn sorting_is_stable<K: SortKey>(keys: Seq<K>)
    ensures
        stable_order(keys).len() == keys.len(),
        forall|i: int|
            0 <= i < keys.len() ==> 0 <= (#[trigger] stable_order(keys)[i]) < keys.len(),
        stable_order(keys).no_duplicates(),
        forall|i: int, j: int|
            0 <= i < j < keys.len() ==> {
                let a = #[trigger] stable_order(keys)[i];
                let b = #[trigger] stable_order(keys)[j];
                !K::before(keys[b], keys[a]) && (K::before(keys[a], keys[b]) || a < b)
            },
    decreases keys.len(),
{
    if keys.len() > 0 {
        let rest = keys.drop_last();
        let order = stable_order(rest);
        let key = keys.last();
        sorting_is_stable(rest);
        lemma_slot(order, keys, key);
        let at = slot(order, keys, key);
        let n = keys.len() - 1;
        let all = order.insert(at, n);
        assert(all == stable_order(keys));
        assert forall|i: int| 0 <= i < all.len() implies 0 <= #[trigger] all[i] < keys.len() by {
            if i < at {
                assert(all[i] == order[i]);
            } else if i > at {
                assert(all[i] == order[i - 1]);
            }
        }
        assert forall|i: int, j: int| 0 <= i < j < all.len() implies {
            let a = #[trigger] all[i];
            let b = #[trigger] all[j];
            a != b && !K::before(keys[b], keys[a]) && (K::before(keys[a], keys[b]) || a < b)
        } by {
            let a = all[i];
            let b = all[j];
            let x = if i < at {
                i
            } else {
                i - 1
            };
            let y = if j < at {
                j
            } else {
                j - 1
            };
            if i != at {
                assert(a == order[x] && keys[a] == rest[a]);
            }
            if j != at {
                assert(b == order[y] && keys[b] == rest[b]);
            }
            if i == at {
                // The new item against one behind it.
                assert(K::before(key, keys[order[y]]));
                K::is_order(key, keys[b], key);
            } else if j == at {
                // The new item against one in front of it.
                assert(a == order[x]);
                if x < at - 1 {
                    let close = keys[order[at - 1]];
                    assert(order[at - 1] != order[x]);
                    assert(!K::before(rest[order[at - 1]], rest[order[x]]));
                    assert(close == rest[order[at - 1]]);
                    K::is_order(key, close, keys[a]);
                }
            } else {
                assert(order[x] != order[y]);
            }
        }
        assert(all.no_duplicates()) by {
            assert forall|i: int, j: int|
                0 <= i < all.len() && 0 <= j < all.len() && i != j implies all[i] != all[j] by {
                if i < j {
                    let a = all[i];
                    let b = all[j];
                    assert(a != b);
                } else {
                    let a = all[j];
                    let b = all[i];
                    assert(a != b);
                }
            }
        }
    }
}

/// The places of the keys in sorted order, those that sort alike in the order they came in.
pub fn sorted<K: SortKey>(keys: &Vec<K>) -> (r: Vec<usize>)
    ensures
        r@.map_values(|i: usize| i as int) == stable_order(keys@),
        r@.len() == keys@.len(),
        forall|i: int| 0 <= i < r@.len() ==> (#[trigger] r@[i]) < keys@.len(),
{
    let mut r: Vec<usize> = Vec::new();
    let mut n: usize = 0;
    assert(r@.map_values(|i: usize| i as int) =~= stable_order(keys@.take(0)));
    while n < keys.len()
        invariant
            n <= keys@.len(),
            r@.map_values(|i: usize| i as int) == stable_order(keys@.take(n as int)),
            r@.len() == n,
            forall|i: int| 0 <= i < r@.len() ==> (#[trigger] r@[i]) < n,
        decreases keys@.len() - n,
    {
        let ghost order = r@.map_values(|i: usize| i as int);
        let mut at: usize = r.len();
        while at > 0 && keys[n].goes_before(&keys[r[at - 1]])
            invariant
                n < keys@.len(),
                at <= r@.len() == n,
                order == r@.map_values(|i: usize| i as int),
                forall|i: int| 0 <= i < r@.len() ==> (#[trigger] r@[i]) < n,
                forall|j: int|
                    at <= j < r@.len() ==> K::before(
                        keys@[n as int],
                        keys@[#[trigger] order[j]],
                    ),
            decreases at,
        {
            at -= 1;
        }
        proof {
            let now = keys@.take(n + 1);
            assert(now.drop_last() =~= keys@.take(n as int));
            assert(now.last() == keys@[n as int]);
            lemma_slot_is(order, keys@, keys@[n as int], at as int);
            assert forall|j: int| 0 <= j < order.len() implies 0 <= (#[trigger] order[j])
                < now.len() by {
                assert(r@[j] < n);
            }
            lemma_slot_prefix(order, now, keys@, keys@[n as int]);
        }
        let ghost placed = r@;
        r.insert(at, n);
        proof {
            assert(r@.map_values(|i: usize| i as int) =~= order.insert(at as int, n as int));
            assert forall|i: int| 0 <= i < r@.len() implies (#[trigger] r@[i]) < n + 1 by {
                if i < at {
                    assert(r@[i] == placed[i]);
                } else if i > at {
                    assert(r@[i] == placed[i - 1]);
                }
            }
        }
        n += 1;
    }
    assert(keys@.take(n as int) =~= keys@);
    r
}

/// Sorting loses nothing: every item of a list stands somewhere in the sorted one, and what
/// stands there is an item of the list.
pub proof fn sorting_loses_nothing<T, K: SortKey>(items: Seq<T>, keys: Seq<K>)
    requires
        items.len() == keys.len(),
    ensures
        arranged(items, stable_order(keys)).len() == items.len(),
        forall|x: T| #[trigger]
            arranged(items, stable_order(keys)).contains(x) <==> items.contains(x),
        forall|i: int|
            0 <= i < items.len() ==> stable_order(keys).contains(i) && (#[trigger] arranged(
                items,
                stable_order(keys),
            )[i]) == items[stable_order(keys)[i]],
{
    sorting_is_stable(keys);
    let order = stable_order(keys);
    let all = arranged(items, order);
    assert forall|i: int| 0 <= i < items.len() implies #[trigger] order.contains(i) by {
        lemma_every_place(keys, i);
    }
    assert forall|x: T| #[trigger] all.contains(x) <==> items.contains(x) by {
        if all.contains(x) {
            let k = choose|k: int| 0 <= k < all.len() && all[k] == x;
            assert(0 <= order[k] < keys.len());
            assert(items[order[k]] == x);
        }
        if items.contains(x) {
            let i = choose|i: int| 0 <= i < items.len() && items[i] == x;
            assert(order.contains(i));
            let k = choose|k: int| 0 <= k < order.len() && order[k] == i;
            assert(all[k] == x);
        }
    }
    assert forall|i: int| 0 <= i < items.len() implies order.contains(i) && (#[trigger] all[i])
        == items[order[i]] by {
        assert(order.contains(i));
    }
}

proof fn lemma_every_place<K: SortKey>(keys: Seq<K>, i: int)
    requires
        0 <= i < keys.len(),
    ensures
        stable_order(keys).contains(i),
    decreases keys.len(),
{
    let rest = keys.drop_last();
    let order = stable_order(rest);
    lemma_slot(order, keys, keys.last());
    let at = slot(order, keys, keys.last());
    let all = stable_order(keys);
    assert(all == order.insert(at, keys.len() - 1));
    if i < rest.len() {
        lemma_every_place(rest, i);
        let k = choose|k: int| 0 <= k < order.len() && order[k] == i;
        if k < at {
            assert(all[k] == i);
        } else {
            assert(all[k + 1] == i);
        }
    } else {
        assert(all[at] == i);
    }
}

/// Smaller positions go first. Of two times the later one goes first, and any time before
/// none at all.
pub proof fn keys_sort_as_they_say(x: i64, y: i64, a: String, b: String)
    ensures
        Ascending::before(Ascending(x), Ascending(y)) <==> x < y,
        precedes(a@, b@) ==> Newest::before(Newest(Some(b)), Newest(Some(a))),
        Newest::before(Newest(Some(a)), Newest(None)),
        !Newest::before(Newest(None), Newest(Some(a))),
        Newest::before(Newest(Some(b)), Newest(Some(a))) ==> precedes(a@, b@),
{
}

} // verus!
