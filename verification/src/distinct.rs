//! Lists in which nothing occurs twice.

use crate::events::Felt;
use crate::selector::same_felt;
use vstd::prelude::*;

verus! {

/// The items of a list, each at its first place only.
pub open spec fn distinct<T>(items: Seq<T>) -> Seq<T>
    decreases items.len(),
{
    if items.len() == 0 {
        Seq::empty()
    } else {
        let front = distinct(items.drop_last());
        if front.contains(items.last()) {
            front
        } else {
            front.push(items.last())
        }
    }
}

/// The texts of a list.
pub open spec fn texts(items: Seq<String>) -> Seq<Seq<char>> {
    items.map_values(|item: String| item@)
}

/// The numbers of a list.
pub open spec fn numbers(items: Seq<Felt>) -> Seq<Seq<u8>> {
    items.map_values(|item: Felt| item@)
}

/// A list without repetitions holds what the list holds, and nothing twice.
pub proof fn law_distinct<T>(items: Seq<T>)
    ensures
        distinct(items).no_duplicates(),
        forall|item: T| #[trigger] distinct(items).contains(item) <==> items.contains(item),
    decreases items.len(),
{
    if items.len() > 0 {
        let front = items.drop_last();
        let last = items.last();
        law_distinct(front);
        assert(items =~= front.push(last));
        assert forall|item: T| #[trigger] distinct(items).contains(item) <==> items.contains(
            item,
        ) by {
            if items.contains(item) {
                let i = choose|i: int| 0 <= i < items.len() && items[i] == item;
                if i < front.len() {
                    assert(front[i] == item);
                    assert(front.contains(item));
                    assert(distinct(front).contains(item));
                    let j = choose|j: int|
                        0 <= j < distinct(front).len() && distinct(front)[j] == item;
                    assert(distinct(items)[j] == item);
                } else if !distinct(front).contains(last) {
                    assert(distinct(items)[distinct(front).len() as int] == item);
                }
            }
            if distinct(items).contains(item) {
                let j = choose|j: int|
                    0 <= j < distinct(items).len() && distinct(items)[j] == item;
                if j < distinct(front).len() {
                    assert(distinct(front)[j] == item);
                    assert(distinct(front).contains(item));
                    let i = choose|i: int| 0 <= i < front.len() && front[i] == item;
                    assert(items[i] == item);
                } else {
                    assert(items[items.len() - 1] == item);
                }
            }
        }
    }
}

fn holds_text(items: &Vec<String>, text: &String) -> (holds: bool)
    ensures
        holds == texts(items@).contains(text@),
{
    let mut i: usize = 0;
    while i < items.len()
        invariant
            i <= items@.len(),
            forall|j: int| 0 <= j < i ==> texts(items@)[j] != text@,
        decreases items@.len() - i,
    {
        if items[i] == *text {
            assert(texts(items@)[i as int] == text@);
            return true;
        }
        i = i + 1;
    }
    false
}

fn holds_felt(items: &Vec<Felt>, felt: &Felt) -> (holds: bool)
    ensures
        holds == numbers(items@).contains(felt@),
{
    let mut i: usize = 0;
    while i < items.len()
        invariant
            i <= items@.len(),
            forall|j: int| 0 <= j < i ==> numbers(items@)[j] != felt@,
        decreases items@.len() - i,
    {
        if same_felt(&items[i], felt) {
            assert(numbers(items@)[i as int] == felt@);
            return true;
        }
        i = i + 1;
    }
    false
}

/// Adds a number to a list unless it is there.
pub fn add_felt(items: &mut Vec<Felt>, felt: Felt)
    ensures
        numbers(final(items)@) == (if numbers(old(items)@).contains(felt@) {
            numbers(old(items)@)
        } else {
            numbers(old(items)@).push(felt@)
        }),
{
    if !holds_felt(items, &felt) {
        items.push(felt);
        assert(numbers(items@) =~= numbers(old(items)@).push(felt@));
    }
}

/// The texts of a list, each at its first place only.
pub fn distinct_texts(items: &Vec<String>) -> (result: Vec<String>)
    ensures
        texts(result@) == distinct(texts(items@)),
{
    let mut result: Vec<String> = Vec::new();
    let mut i: usize = 0;
    assert(texts(result@) =~= distinct(texts(items@).take(0)));
    while i < items.len()
        invariant
            i <= items@.len(),
            texts(result@) == distinct(texts(items@).take(i as int)),
        decreases items@.len() - i,
    {
        let ghost before = result@;
        proof {
            assert(texts(items@).take(i + 1).drop_last() =~= texts(items@).take(i as int));
        }
        if !holds_text(&result, &items[i]) {
            result.push(items[i].clone());
            assert(texts(result@) =~= texts(before).push(items@[i as int]@));
        }
        i = i + 1;
    }
    assert(texts(items@).take(items@.len() as int) =~= texts(items@));
    result
}

/// Whether a list holds the texts that occur among some items, each once, and no other.
#[verifier::opaque]
pub open spec fn holds_each_once(list: Seq<String>, items: Seq<String>) -> bool {
    &&& forall|i: int|
        0 <= i < items.len() ==> exists|j: int|
            0 <= j < list.len() && (#[trigger] list[j])@ == (#[trigger] items[i])@
    &&& forall|j: int|
        0 <= j < list.len() ==> exists|i: int|
            0 <= i < items.len() && (#[trigger] list[j])@ == (#[trigger] items[i])@
    &&& forall|j: int, k: int|
        0 <= j < k < list.len() ==> (#[trigger] list[j])@ != (#[trigger] list[k])@
}

/// A list without the repetitions of another holds each of its texts once.
pub proof fn lemma_distinct_holds_each_once(list: Seq<String>, items: Seq<String>)
    requires
        texts(list) == distinct(texts(items)),
    ensures
        holds_each_once(list, items),
{
    reveal(holds_each_once);
    let all = texts(items);
    let kept = texts(list);
    law_distinct(all);
    assert forall|i: int| 0 <= i < items.len() implies exists|j: int|
        0 <= j < list.len() && (#[trigger] list[j])@ == (#[trigger] items[i])@ by {
        assert(all[i] == items[i]@);
        assert(all.contains(all[i]));
        assert(kept.contains(all[i]));
        let j = choose|j: int| 0 <= j < kept.len() && kept[j] == all[i];
        assert(list[j]@ == items[i]@);
    }
    assert forall|j: int| 0 <= j < list.len() implies exists|i: int|
        0 <= i < items.len() && (#[trigger] list[j])@ == (#[trigger] items[i])@ by {
        assert(kept[j] == list[j]@);
        assert(kept.contains(kept[j]));
        assert(all.contains(kept[j]));
        let i = choose|i: int| 0 <= i < all.len() && all[i] == kept[j];
        assert(list[j]@ == items[i]@);
    }
    assert forall|j: int, k: int| 0 <= j < k < list.len() implies (#[trigger] list[j])@ != (
    #[trigger] list[k])@ by {
        assert(kept[j] != kept[k]);
    }
}

/// A list that has lost its repetitions holds each of its texts once, and no other.
pub proof fn law_repetitions_are_lost(items: Vec<String>, result: Vec<String>)
    requires
        call_ensures(distinct_texts, (&items,), result),
    ensures
        forall|i: int|
            0 <= i < items@.len() ==> exists|j: int|
                0 <= j < result@.len() && (#[trigger] result@[j])@ == (#[trigger] items@[i])@,
        forall|j: int|
            0 <= j < result@.len() ==> exists|i: int|
                0 <= i < items@.len() && (#[trigger] result@[j])@ == (#[trigger] items@[i])@,
        forall|j: int, k: int|
            0 <= j < k < result@.len() ==> (#[trigger] result@[j])@ != (#[trigger] result@[k])@,
{
    lemma_distinct_holds_each_once(result@, items@);
    reveal(holds_each_once);
}

/// A number that is added is in the list, which keeps its numbers at their places and grows by
/// one exactly if the number was not there.
pub proof fn law_number_is_added_once()
    ensures
        forall|items: &mut Vec<Felt>, felt: Felt| #[trigger]
            call_ensures(add_felt, (items, felt), ()) ==> adds_once(
                items@,
                felt,
                final(items)@,
            ),
{
    assert forall|items: &mut Vec<Felt>, felt: Felt| #[trigger]
        call_ensures(add_felt, (items, felt), ()) implies adds_once(
        items@,
        felt,
        final(items)@,
    ) by {
        let before = numbers(items@);
        let after = numbers(final(items)@);
        assert(after.len() == final(items)@.len() && before.len() == items@.len());
        let after_items = final(items)@;
        assert forall|i: int| 0 <= i < items@.len() implies (#[trigger] items@[i])@
            == after_items[i]@ by {
            assert(before[i] == after[i]);
        }
        if before.contains(felt@) {
            let i = choose|i: int| 0 <= i < before.len() && before[i] == felt@;
            assert(final(items)@[i]@ == felt@);
            assert(items@[i]@ == felt@);
        } else {
            assert forall|i: int| 0 <= i < items@.len() implies (#[trigger] items@[i])@ != felt@ by {
                assert(before.contains(before[i]));
            }
            assert(after[before.len() as int] == felt@);
            assert(final(items)@[items@.len() as int]@ == felt@);
        }
    }
}

/// Whether a list holds a number that was added to it, once if it was not there.
pub open spec fn adds_once(before: Seq<Felt>, felt: Felt, after: Seq<Felt>) -> bool {
    &&& forall|i: int| 0 <= i < before.len() ==> (#[trigger] before[i])@ == after[i]@
    &&& exists|i: int| 0 <= i < after.len() && (#[trigger] after[i])@ == felt@
    &&& after.len() == before.len() + (if exists|i: int|
        0 <= i < before.len() && (#[trigger] before[i])@ == felt@ {
        0int
    } else {
        1int
    })
}

} // verus!
