//! What holds of a list of which only some items are kept.
use vstd::prelude::*;

verus! {

/// Places in a list of that length, from front to back, none twice.
pub open spec fn increasing(places: Seq<int>, len: nat) -> bool {
    &&& forall|i: int| 0 <= i < places.len() ==> 0 <= (#[trigger] places[i]) < len
    &&& forall|i: int, j: int|
        0 <= i < j < places.len() ==> (#[trigger] places[i]) < (#[trigger] places[j])
}

/// One list holds what stands at the given places of another.
pub open spec fn taken_from<T>(part: Seq<T>, all: Seq<T>, places: Seq<int>) -> bool {
    &&& part.len() == places.len()
    &&& increasing(places, all.len())
    &&& forall|k: int| 0 <= k < part.len() ==> (#[trigger] part[k]) == all[places[k]]
}

/// One list holds items of another in the order they have there, none taken twice.
pub open spec fn in_order_of<T>(part: Seq<T>, all: Seq<T>) -> bool {
    exists|places: Seq<int>| taken_from(part, all, places)
}

/// Filtering a list takes the items that pass from their places, and no others.
pub proof fn filtering_takes_what_passes<T>(all: Seq<T>, keep: spec_fn(T) -> bool) -> (places: Seq<int>)
    ensures
        taken_from(all.filter(keep), all, places),
        forall|i: int| 0 <= i < all.len() ==> (#[trigger] places.contains(i) <==> keep(all[i])),
        forall|i: int| 0 <= i < all.len() && keep(all[i]) ==> exists|k: int|
            0 <= k < places.len() && #[trigger] places[k] == i && all.filter(keep)[k] == all[i],
    decreases all.len(),
{
    reveal(Seq::filter);
    if all.len() == 0 {
        Seq::empty()
    } else {
        let rest = all.drop_last();
        let before = filtering_takes_what_passes(rest, keep);
        let last = all.len() - 1;
        let part = all.filter(keep);
        let places = if keep(all.last()) {
            before.push(last)
        } else {
            before
        };
        assert(taken_from(part, all, places)) by {
            assert forall|k: int| 0 <= k < part.len() implies (#[trigger] part[k])
                == all[places[k]] by {
                if k < before.len() {
                    assert(rest.filter(keep)[k] == rest[before[k]]);
                    assert(part[k] == rest.filter(keep)[k]);
                }
            }
        }
        assert forall|i: int| 0 <= i < all.len() implies (#[trigger] places.contains(i) <==> keep(
            all[i],
        )) by {
            if i < last {
                assert(before.contains(i) <==> keep(rest[i]));
                if before.contains(i) {
                    let k = choose|k: int| 0 <= k < before.len() && before[k] == i;
                    assert(places[k] == i);
                }
                if places.contains(i) {
                    let k = choose|k: int| 0 <= k < places.len() && places[k] == i;
                    assert(k < before.len());
                    assert(before[k] == i);
                }
            } else {
                if keep(all[i]) {
                    assert(places[places.len() - 1] == i);
                } else {
                    if before.contains(i) {
                        let k = choose|k: int| 0 <= k < before.len() && before[k] == i;
                        assert(before[k] < rest.len());
                    }
                }
            }
        }
        assert forall|i: int| 0 <= i < all.len() && keep(all[i]) implies exists|k: int|
            0 <= k < places.len() && #[trigger] places[k] == i && all.filter(keep)[k] == all[i] by {
            assert(places.contains(i));
            let k = choose|k: int| 0 <= k < places.len() && places[k] == i;
            assert(part[k] == all[places[k]]);
        }
        places
    }
}

/// Filtering a list keeps exactly the items that pass.
pub proof fn filtering_keeps_what_passes<T>(all: Seq<T>, keep: spec_fn(T) -> bool)
    ensures
        forall|x: T| #[trigger] all.filter(keep).contains(x) <==> all.contains(x) && keep(x),
        in_order_of(all.filter(keep), all),
{
    let places = filtering_takes_what_passes(all, keep);
    let part = all.filter(keep);
    assert forall|x: T| #[trigger] part.contains(x) <==> all.contains(x) && keep(x) by {
        if part.contains(x) {
            let k = choose|k: int| 0 <= k < part.len() && part[k] == x;
            assert(part[k] == all[places[k]]);
            assert(places.contains(places[k]));
        }
        if all.contains(x) && keep(x) {
            let i = choose|i: int| 0 <= i < all.len() && all[i] == x;
            assert(keep(all[i]));
            let k = choose|k: int| 0 <= k < places.len() && places[k] == i && part[k] == all[i];
            assert(part[k] == x);
        }
    }
    assert(taken_from(part, all, places));
}

/// What is longer than a list without holding anything else holds something twice.
pub proof fn lists_without_repeats_are_short<T>(part: Seq<T>, all: Seq<T>)
    requires
        part.no_duplicates(),
        forall|x: T| part.contains(x) ==> all.contains(x),
    ensures
        part.len() <= all.len(),
{
    part.unique_seq_to_set();
    all.lemma_cardinality_of_set();
    assert(part.to_set().subset_of(all.to_set()));
    vstd::set_lib::lemma_len_subset(part.to_set(), all.to_set());
}

} // verus!
