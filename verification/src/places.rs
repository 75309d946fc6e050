//! Places of a sequence at which something holds.

use crate::linked::{last_entries, lemma_last_entries_push, lemma_without_push, without};
use vstd::prelude::*;

verus! {

/// The places below `count` at which something holds, in their order.
pub open spec fn places(count: nat, holds: spec_fn(int) -> bool) -> Seq<int>
    decreases count,
{
    if count == 0 {
        Seq::empty()
    } else {
        let before = places((count - 1) as nat, holds);
        if holds(count - 1) {
            before.push(count - 1)
        } else {
            before
        }
    }
}

/// The places are those at which it holds, each once, in rising order.
pub proof fn law_places(count: nat, holds: spec_fn(int) -> bool)
    ensures
        forall|k: int|
            0 <= k < places(count, holds).len() ==> 0 <= #[trigger] places(count, holds)[k] < count
                && holds(places(count, holds)[k]),
        forall|k: int, l: int|
            0 <= k < l < places(count, holds).len() ==> #[trigger] places(count, holds)[k]
                < #[trigger] places(count, holds)[l],
        forall|i: int|
            0 <= i < count && #[trigger] holds(i) ==> places(count, holds).contains(i),
    decreases count,
{
    if count > 0 {
        let before = places((count - 1) as nat, holds);
        let after = places(count, holds);
        law_places((count - 1) as nat, holds);
        assert forall|i: int| 0 <= i < count && #[trigger] holds(i) implies after.contains(i) by {
            if i < count - 1 {
                assert(before.contains(i));
                let k = choose|k: int| 0 <= k < before.len() && before[k] == i;
                assert(after[k] == i);
            } else {
                assert(after[before.len() as int] == i);
            }
        }
    }
}

/// What holds at the same places has the same places.
pub proof fn lemma_places_agree(count: nat, a: spec_fn(int) -> bool, b: spec_fn(int) -> bool)
    requires
        forall|i: int| 0 <= i < count ==> #[trigger] a(i) == b(i),
    ensures
        places(count, a) == places(count, b),
    decreases count,
{
    if count > 0 {
        lemma_places_agree((count - 1) as nat, a, b);
        assert(a(count - 1) == b(count - 1));
    }
}

/// The entry at a place.
pub open spec fn entry_at<V>(key: spec_fn(int) -> u64, value: spec_fn(int) -> V) -> spec_fn(
    int,
) -> (u64, V) {
    |i: int| (key(i), value(i))
}

/// Holds at a place under another key.
pub open spec fn under_another(
    holds: spec_fn(int) -> bool,
    key: spec_fn(int) -> u64,
    other: u64,
) -> spec_fn(int) -> bool {
    |i: int| holds(i) && key(i) != other
}

/// Holds at a place behind which no other is under its key.
pub open spec fn last_of_its_key(
    count: nat,
    holds: spec_fn(int) -> bool,
    key: spec_fn(int) -> u64,
) -> spec_fn(int) -> bool {
    |i: int|
        holds(i) && forall|j: int| i < j < count ==> !(#[trigger] holds(j) && key(j) == key(i))
}

proof fn lemma_without_of_places<V>(
    count: nat,
    holds: spec_fn(int) -> bool,
    key: spec_fn(int) -> u64,
    value: spec_fn(int) -> V,
    other: u64,
)
    ensures
        without(places(count, holds).map_values(entry_at(key, value)), other) == places(
            count,
            under_another(holds, key, other),
        ).map_values(entry_at(key, value)),
    decreases count,
{
    let entry = entry_at(key, value);
    let kept = under_another(holds, key, other);
    if count == 0 {
        reveal(Seq::filter);
        assert(without(places(count, holds).map_values(entry), other) =~= places(
            count,
            kept,
        ).map_values(entry));
    } else {
        let last = count - 1;
        let before = places(last as nat, holds);
        lemma_without_of_places(last as nat, holds, key, value, other);
        if holds(last) {
            lemma_without_push(before.map_values(entry), entry(last), other);
            assert(before.push(last).map_values(entry) =~= before.map_values(entry).push(
                entry(last),
            ));
            if kept(last) {
                assert(places(last as nat, kept).push(last).map_values(entry) =~= places(
                    last as nat,
                    kept,
                ).map_values(entry).push(entry(last)));
            }
        }
    }
}

/// The last entries of what stands at some places are the entries behind whose places no other is
/// under their key.
pub proof fn lemma_last_entries_at_places<V>(
    count: nat,
    holds: spec_fn(int) -> bool,
    key: spec_fn(int) -> u64,
    value: spec_fn(int) -> V,
)
    ensures
        last_entries(places(count, holds).map_values(entry_at(key, value))) == places(
            count,
            last_of_its_key(count, holds, key),
        ).map_values(entry_at(key, value)),
    decreases count,
{
    let entry = entry_at(key, value);
    let is_last = last_of_its_key(count, holds, key);
    if count == 0 {
        assert(places(count, holds).map_values(entry) =~= Seq::empty());
        assert(places(count, is_last).map_values(entry) =~= Seq::empty());
    } else {
        let last = count - 1;
        let before = places(last as nat, holds);
        let was_last = last_of_its_key(last as nat, holds, key);
        lemma_last_entries_at_places(last as nat, holds, key, value);
        if holds(last) {
            let still = under_another(was_last, key, key(last));
            lemma_last_entries_push(before.map_values(entry), entry(last));
            assert(before.push(last).map_values(entry) =~= before.map_values(entry).push(
                entry(last),
            ));
            lemma_without_of_places(last as nat, was_last, key, value, key(last));
            assert forall|i: int| 0 <= i < last implies #[trigger] still(i) == is_last(i) by {
                if still(i) {
                    assert forall|j: int| i < j < count implies !(#[trigger] holds(j) && key(j)
                        == key(i)) by {}
                }
                if is_last(i) {
                    assert(!(holds(last) && key(last) == key(i)));
                }
            }
            lemma_places_agree(last as nat, still, is_last);
            assert(is_last(last));
            assert(places(count, is_last).map_values(entry) =~= places(
                last as nat,
                is_last,
            ).map_values(entry).push(entry(last)));
        } else {
            assert forall|i: int| 0 <= i < last implies #[trigger] was_last(i) == is_last(i) by {
                if was_last(i) {
                    assert forall|j: int| i < j < count implies !(#[trigger] holds(j) && key(j)
                        == key(i)) by {}
                }
            }
            lemma_places_agree(last as nat, was_last, is_last);
            assert(!is_last(last));
        }
    }
}

} // verus!
