//! Keyed sequences: the model of a map that keeps its entries in an order.

use vstd::prelude::*;

verus! {

/// Whether `key` has an entry.
pub open spec fn has_key<V>(entries: Seq<(u64, V)>, key: u64) -> bool {
    exists|i: int| 0 <= i < entries.len() && (#[trigger] entries[i]).0 == key
}

/// The value under `key`, if there is one.
pub open spec fn lookup<V>(entries: Seq<(u64, V)>, key: u64) -> Option<V> {
    if has_key(entries, key) {
        Some(entries[choose|i: int| 0 <= i < entries.len() && (#[trigger] entries[i]).0 == key].1)
    } else {
        None
    }
}

/// Picks the entries under other keys than `key`.
pub open spec fn under_other_key<V>(key: u64) -> spec_fn((u64, V)) -> bool {
    |entry: (u64, V)| entry.0 != key
}

/// The entries under other keys, in their order.
pub open spec fn without<V>(entries: Seq<(u64, V)>, key: u64) -> Seq<(u64, V)> {
    entries.filter(under_other_key(key))
}

/// The entries with `value` under `key` at the back.
pub open spec fn put_back<V>(entries: Seq<(u64, V)>, key: u64, value: V) -> Seq<(u64, V)> {
    without(entries, key).push((key, value))
}

/// No key has two entries.
pub open spec fn unique_keys<V>(entries: Seq<(u64, V)>) -> bool {
    forall|i: int, j: int|
        0 <= i < j < entries.len() ==> (#[trigger] entries[i]).0 != (#[trigger] entries[j]).0
}

/// The values, in the order of the entries.
pub open spec fn values<V>(entries: Seq<(u64, V)>) -> Seq<V> {
    entries.map_values(|entry: (u64, V)| entry.1)
}

/// With unique keys, an entry's value is what its key is looked up as.
pub proof fn lemma_lookup_entry<V>(entries: Seq<(u64, V)>, i: int)
    requires
        unique_keys(entries),
        0 <= i < entries.len(),
    ensures
        has_key(entries, entries[i].0),
        lookup(entries, entries[i].0) == Some(entries[i].1),
{
    let key = entries[i].0;
    let j = choose|j: int| 0 <= j < entries.len() && (#[trigger] entries[j]).0 == key;
    if i < j {
        assert(entries[i].0 != entries[j].0);
    } else if j < i {
        assert(entries[j].0 != entries[i].0);
    }
}

/// A key that was taken out has no entry.
pub proof fn lemma_without_has_no_key<V>(entries: Seq<(u64, V)>, key: u64)
    ensures
        !has_key(without(entries, key), key),
{
    let kept = under_other_key::<V>(key);
    assert forall|i: int| 0 <= i < without(entries, key).len() implies (#[trigger] without(
        entries,
        key,
    )[i]).0 != key by {
        entries.lemma_filter_pred(kept, i);
    }
}

/// Every entry that is left was there before.
pub proof fn lemma_without_from<V>(entries: Seq<(u64, V)>, key: u64, i: int)
    requires
        0 <= i < without(entries, key).len(),
    ensures
        entries.contains(without(entries, key)[i]),
        without(entries, key)[i].0 != key,
{
    let kept = under_other_key::<V>(key);
    entries.lemma_filter_pred(kept, i);
    entries.lemma_filter_contains_rev(kept, without(entries, key)[i]);
}

/// With one more entry at the back, that entry is left too unless it is under the key.
pub proof fn lemma_without_push<V>(entries: Seq<(u64, V)>, entry: (u64, V), key: u64)
    ensures
        entry.0 == key ==> without(entries.push(entry), key) == without(entries, key),
        entry.0 != key ==> without(entries.push(entry), key) == without(entries, key).push(entry),
{
    reveal(Seq::filter);
    assert(entries.push(entry).drop_last() =~= entries);
}

/// Taking a key out keeps keys unique.
pub proof fn lemma_without_unique<V>(entries: Seq<(u64, V)>, key: u64)
    requires
        unique_keys(entries),
    ensures
        unique_keys(without(entries, key)),
    decreases entries.len(),
{
    if entries.len() == 0 {
        reveal(Seq::filter);
    } else {
        let front = entries.drop_last();
        let last = entries.last();
        lemma_without_unique(front, key);
        lemma_without_push(front, last, key);
        assert(front.push(last) =~= entries);
        assert forall|i: int| 0 <= i < without(front, key).len() implies (#[trigger] without(
            front,
            key,
        )[i]).0 != last.0 by {
            lemma_without_from(front, key, i);
            let j = choose|j: int| 0 <= j < front.len() && front[j] == without(front, key)[i];
            assert(entries[j].0 != entries[entries.len() - 1].0);
        }
    }
}

/// Putting a value back keeps keys unique.
pub proof fn lemma_put_back_unique<V>(entries: Seq<(u64, V)>, key: u64, value: V)
    requires
        unique_keys(entries),
    ensures
        unique_keys(put_back(entries, key, value)),
{
    lemma_without_unique(entries, key);
    lemma_without_has_no_key(entries, key);
}

/// Taking out a key that has no entry changes nothing.
pub proof fn lemma_without_absent<V>(entries: Seq<(u64, V)>, key: u64)
    requires
        !has_key(entries, key),
    ensures
        without(entries, key) == entries,
    decreases entries.len(),
{
    if entries.len() == 0 {
        reveal(Seq::filter);
    } else {
        let front = entries.drop_last();
        let last = entries.last();
        assert(entries[entries.len() - 1].0 != key);
        assert forall|i: int| 0 <= i < front.len() implies (#[trigger] front[i]).0 != key by {
            assert(entries[i].0 != key);
        }
        lemma_without_absent(front, key);
        lemma_without_push(front, last, key);
        assert(front.push(last) =~= entries);
    }
}

/// A value that was put back gives way to the next one under its key.
pub proof fn lemma_put_back_twice<V>(entries: Seq<(u64, V)>, key: u64, first: V, second: V)
    ensures
        put_back(put_back(entries, key, first), key, second) == put_back(entries, key, second),
{
    lemma_without_push(without(entries, key), (key, first), key);
    lemma_without_has_no_key(entries, key);
    lemma_without_absent(without(entries, key), key);
}

/// Taking out a key that has an entry takes out one entry.
pub proof fn lemma_without_len<V>(entries: Seq<(u64, V)>, key: u64)
    requires
        unique_keys(entries),
    ensures
        without(entries, key).len() == entries.len() - (if has_key(entries, key) {
            1int
        } else {
            0int
        }),
    decreases entries.len(),
{
    if entries.len() == 0 {
        reveal(Seq::filter);
    } else {
        let front = entries.drop_last();
        let last = entries.last();
        lemma_without_push(front, last, key);
        lemma_without_len(front, key);
        assert(front.push(last) =~= entries);
        if last.0 == key {
            assert(entries[entries.len() - 1].0 == key);
            assert forall|i: int| 0 <= i < front.len() implies (#[trigger] front[i]).0 != key by {
                assert(entries[i].0 != entries[entries.len() - 1].0);
            }
        } else if has_key(front, key) {
            let j = choose|j: int| 0 <= j < front.len() && (#[trigger] front[j]).0 == key;
            assert(entries[j].0 == key);
        } else if has_key(entries, key) {
            let j = choose|j: int| 0 <= j < entries.len() && (#[trigger] entries[j]).0 == key;
            assert(front[j].0 == key);
        }
    }
}

/// Putting a value back leaves the lookup of every other key as it was.
pub proof fn lemma_put_back_lookup<V>(entries: Seq<(u64, V)>, key: u64, value: V, other: u64)
    requires
        unique_keys(entries),
    ensures
        lookup(put_back(entries, key, value), key) == Some(value),
        other != key ==> lookup(put_back(entries, key, value), other) == lookup(entries, other),
{
    let after = put_back(entries, key, value);
    lemma_put_back_unique(entries, key, value);
    lemma_lookup_entry(after, after.len() - 1);
    if other != key {
        if has_key(entries, other) {
            let i = choose|i: int| 0 <= i < entries.len() && (#[trigger] entries[i]).0 == other;
            lemma_lookup_entry(entries, i);
            let kept = under_other_key::<V>(key);
            entries.lemma_filter_contains(kept, i);
            let j = choose|j: int|
                0 <= j < without(entries, key).len() && without(entries, key)[j] == entries[i];
            assert(after[j] == entries[i]);
            lemma_lookup_entry(after, j);
        } else if has_key(after, other) {
            let j = choose|j: int| 0 <= j < after.len() && (#[trigger] after[j]).0 == other;
            assert(after[j] == without(entries, key)[j]);
            lemma_without_from(entries, key, j);
            let i = choose|i: int| 0 <= i < entries.len() && entries[i] == after[j];
            assert(entries[i].0 == other);
        }
    }
}

/// After a value was put back, its key has an entry, and so has every key that had one.
pub proof fn lemma_put_back_has_key<V>(entries: Seq<(u64, V)>, key: u64, value: V, other: u64)
    requires
        unique_keys(entries),
    ensures
        has_key(put_back(entries, key, value), other) <==> other == key || has_key(entries, other),
{
    lemma_put_back_lookup(entries, key, value, other);
}

/// Whether two sequences have the same keys at the same places.
pub open spec fn same_keys<V, W>(a: Seq<(u64, V)>, b: Seq<(u64, W)>) -> bool {
    &&& a.len() == b.len()
    &&& forall|i: int| 0 <= i < a.len() ==> (#[trigger] a[i]).0 == (#[trigger] b[i]).0
}

proof fn lemma_without_same_keys<V, W>(a: Seq<(u64, V)>, b: Seq<(u64, W)>, key: u64)
    requires
        same_keys(a, b),
    ensures
        same_keys(without(a, key), without(b, key)),
    decreases a.len(),
{
    if a.len() == 0 {
        reveal(Seq::filter);
    } else {
        let last = a.len() - 1;
        lemma_without_same_keys(a.drop_last(), b.drop_last(), key);
        lemma_without_push(a.drop_last(), a[last], key);
        lemma_without_push(b.drop_last(), b[last], key);
        assert(a.drop_last().push(a[last]) =~= a);
        assert(b.drop_last().push(b[last]) =~= b);
    }
}

/// Which key stands where after a value was put back depends on the keys alone.
pub proof fn lemma_put_back_same_keys<V, W>(
    a: Seq<(u64, V)>,
    b: Seq<(u64, W)>,
    key: u64,
    value: V,
    other: W,
)
    requires
        same_keys(a, b),
    ensures
        same_keys(put_back(a, key, value), put_back(b, key, other)),
{
    lemma_without_same_keys(a, b, key);
}

/// The entries behind which no other stands under their key, in their order.
pub open spec fn last_entries<V>(entries: Seq<(u64, V)>) -> Seq<(u64, V)>
    decreases entries.len(),
{
    if entries.len() == 0 {
        Seq::empty()
    } else {
        let rest = entries.drop_first();
        if has_key(rest, entries[0].0) {
            last_entries(rest)
        } else {
            seq![entries[0]] + last_entries(rest)
        }
    }
}

proof fn lemma_without_prepend<V>(first: (u64, V), entries: Seq<(u64, V)>, key: u64)
    ensures
        first.0 == key ==> without(seq![first] + entries, key) == without(entries, key),
        first.0 != key ==> without(seq![first] + entries, key) == seq![first] + without(
            entries,
            key,
        ),
{
    entries.lemma_filter_prepend(first, under_other_key(key));
    assert(Seq::empty() + without(entries, key) =~= without(entries, key));
}

/// With one more entry at the back, that entry takes the place of the one under its key.
pub proof fn lemma_last_entries_push<V>(entries: Seq<(u64, V)>, entry: (u64, V))
    ensures
        last_entries(entries.push(entry)) == put_back(last_entries(entries), entry.0, entry.1),
    decreases entries.len(),
{
    let longer = entries.push(entry);
    if entries.len() == 0 {
        reveal(Seq::filter);
        reveal_with_fuel(last_entries, 2);
        assert(longer.drop_first() =~= Seq::empty());
        assert(last_entries(longer) =~= put_back(last_entries(entries), entry.0, entry.1));
    } else {
        let first = entries[0];
        let rest = entries.drop_first();
        assert(longer.drop_first() =~= rest.push(entry));
        assert(longer[0] == first);
        lemma_last_entries_push(rest, entry);
        lemma_without_prepend(first, last_entries(rest), entry.0);
        if has_key(rest, first.0) {
            let i = choose|i: int| 0 <= i < rest.len() && (#[trigger] rest[i]).0 == first.0;
            assert(rest.push(entry)[i].0 == first.0);
        } else if first.0 == entry.0 {
            assert(rest.push(entry)[rest.len() as int].0 == first.0);
        } else {
            assert forall|i: int| 0 <= i < rest.push(entry).len() implies (#[trigger] rest.push(
                entry,
            )[i]).0 != first.0 by {
                if i < rest.len() {
                    assert(rest[i].0 != first.0);
                }
            }
            assert(last_entries(longer) =~= put_back(last_entries(entries), entry.0, entry.1));
        }
    }
}

/// Among the last entries every key that occurs has one entry.
pub proof fn lemma_last_entries_keys<V>(entries: Seq<(u64, V)>)
    ensures
        unique_keys(last_entries(entries)),
        forall|key: u64| #[trigger] has_key(last_entries(entries), key) <==> has_key(entries, key),
    decreases entries.len(),
{
    if entries.len() > 0 {
        let front = entries.drop_last();
        let last = entries.last();
        assert(front.push(last) =~= entries);
        lemma_last_entries_keys(front);
        lemma_last_entries_push(front, last);
        lemma_put_back_unique(last_entries(front), last.0, last.1);
        assert forall|key: u64| #[trigger]
            has_key(last_entries(entries), key) <==> has_key(entries, key) by {
            lemma_put_back_has_key(last_entries(front), last.0, last.1, key);
            if has_key(front, key) {
                let i = choose|i: int| 0 <= i < front.len() && (#[trigger] front[i]).0 == key;
                assert(entries[i].0 == key);
            } else if has_key(entries, key) {
                let i = choose|i: int| 0 <= i < entries.len() && (#[trigger] entries[i]).0 == key;
                if i < front.len() {
                    assert(front[i].0 == key);
                }
            }
            if key == last.0 {
                assert(entries[entries.len() - 1].0 == key);
            }
        }
    }
}

/// Whether the entry at a place is the last one under its key.
pub open spec fn is_last_at<V>(entries: Seq<(u64, V)>, key: u64, place: int) -> bool {
    &&& 0 <= place < entries.len()
    &&& entries[place].0 == key
    &&& forall|i: int| place < i < entries.len() ==> (#[trigger] entries[i]).0 != key
}

/// The place of the last entry under a key.
pub open spec fn last_place<V>(entries: Seq<(u64, V)>, key: u64) -> int {
    choose|place: int| is_last_at(entries, key, place)
}

proof fn lemma_last_place<V>(entries: Seq<(u64, V)>, key: u64, place: int)
    requires
        is_last_at(entries, key, place),
    ensures
        last_place(entries, key) == place,
{
    let chosen = last_place(entries, key);
    assert(is_last_at(entries, key, chosen));
    if chosen < place {
        assert(entries[place].0 != key);
    } else if place < chosen {
        assert(entries[chosen].0 != key);
    }
}

/// The last entries stand at the last places of their keys, one behind the other.
pub proof fn lemma_last_entries_places<V>(entries: Seq<(u64, V)>)
    ensures
        forall|i: int|
            #![trigger last_entries(entries)[i]]
            0 <= i < last_entries(entries).len() ==> is_last_at(
                entries,
                last_entries(entries)[i].0,
                last_place(entries, last_entries(entries)[i].0),
            ) && entries[last_place(entries, last_entries(entries)[i].0)] == last_entries(
                entries,
            )[i],
        forall|i: int, j: int|
            #![trigger last_entries(entries)[i], last_entries(entries)[j]]
            0 <= i < j < last_entries(entries).len() ==> last_place(
                entries,
                last_entries(entries)[i].0,
            ) < last_place(entries, last_entries(entries)[j].0),
    decreases entries.len(),
{
    if entries.len() > 0 {
        let first = entries[0];
        let rest = entries.drop_first();
        let kept = last_entries(rest);
        lemma_last_entries_places(rest);
        assert forall|i: int| 0 <= i < kept.len() implies is_last_at(
            entries,
            (#[trigger] kept[i]).0,
            last_place(rest, kept[i].0) + 1,
        ) && last_place(entries, kept[i].0) == last_place(rest, kept[i].0) + 1 by {
            let key = kept[i].0;
            let place = last_place(rest, key);
            assert(is_last_at(rest, key, place));
            assert forall|j: int| place + 1 < j < entries.len() implies (
            #[trigger] entries[j]).0 != key by {
                assert(rest[j - 1].0 != key);
            }
            lemma_last_place(entries, key, place + 1);
        }
        if !has_key(rest, first.0) {
            assert forall|j: int| 0 < j < entries.len() implies (
            #[trigger] entries[j]).0 != first.0 by {
                assert(rest[j - 1].0 != first.0);
            }
            lemma_last_place(entries, first.0, 0);
            let all = last_entries(entries);
            assert forall|i: int| 0 < i < all.len() implies #[trigger] all[i] == kept[i - 1] by {}
        }
    }
}

} // verus!
