//! Selectors: the numbers by which models are known on chain.

use crate::events::{Felt, TaskId};
use std::collections::hash_map::DefaultHasher;
use std::hash::Hash;
use std::hash::Hasher;
use vstd::prelude::*;
use vstd::std_specs::hash::DefaultHasherAdditionalSpecFns;

verus! {

/// The selector of a model, by its namespace and its name: the 32 bytes of the number that
/// `dojo_types::naming::compute_selector_from_names` gives.
pub uninterp spec fn selector_of_names(namespace: Seq<char>, name: Seq<char>) -> Seq<u8>;

/// What the hash of a field element feeds to a hasher, write by write. As everything that `Hash`
/// feeds, the bytes belong to the target that the library is built for: they tell tasks apart
/// within a process, and nothing keeps them.
pub uninterp spec fn felt_writes(felt: Seq<u8>) -> Seq<Seq<u8>>;

/// `anyhow::Error`: an error of any kind.
#[verifier::external_type_specification]
#[verifier::external_body]
pub struct ExAnyhowError(anyhow::Error);

/// Calls `dojo_types::naming::compute_selector_from_names`, a Poseidon hash over the two texts,
/// and takes the bytes of the result. The contract names the result and says nothing more of it.
#[verifier::external_body]
pub(crate) fn compute_selector_from_names(namespace: &str, name: &str) -> (selector: Felt)
    ensures
        selector@ == selector_of_names(namespace@, name@),
{
    Felt { bytes: dojo_types::naming::compute_selector_from_names(namespace, name).to_bytes_be() }
}

/// Whether the one dash of a tag is at `i`.
pub open spec fn dash_at(tag: Seq<char>, i: int) -> bool {
    &&& 0 <= i < tag.len()
    &&& tag[i] == '-'
    &&& forall|j: int| 0 <= j < tag.len() && j != i ==> tag[j] != '-'
}

/// Whether a tag has the form `namespace-name`: it holds one dash.
pub open spec fn valid_tag(tag: Seq<char>) -> bool {
    exists|i: int| dash_at(tag, i)
}

/// The selector of the model that a tag names.
pub open spec fn tag_selector(tag: Seq<char>) -> Seq<u8> {
    let i = choose|i: int| dash_at(tag, i);
    selector_of_names(tag.take(i), tag.skip(i + 1))
}

/// Calls `dojo_types::naming::try_compute_selector_from_tag` and takes the bytes of the result.
/// It splits the tag at its dashes, fails unless this gives two parts, and computes the selector
/// of the first part as the namespace and the second as the name.
#[verifier::external_body]
pub(crate) fn try_compute_selector_from_tag(tag: &str) -> (selector: Result<Felt, anyhow::Error>)
    ensures
        match selector {
            Ok(selector) => valid_tag(tag@) && selector@ == tag_selector(tag@),
            Err(_) => !valid_tag(tag@),
        },
{
    let selector = dojo_types::naming::try_compute_selector_from_tag(tag)?;
    Ok(Felt { bytes: selector.to_bytes_be() })
}

/// Calls the derived `Hash` of `starknet_crypto::Felt`, which feeds the number to the hasher behind
/// what it was fed before. Which bytes these are is not stated.
#[verifier::external_body]
fn write_felt(hasher: &mut DefaultHasher, felt: &Felt)
    ensures
        final(hasher)@ == old(hasher)@ + felt_writes(felt@),
{
    starknet_crypto::Felt::from_bytes_be(&felt.bytes).hash(hasher)
}

/// The task of the events that concern a selector: its hash.
pub open spec fn selector_task(selector: Seq<u8>) -> TaskId {
    DefaultHasher::spec_finish(felt_writes(selector))
}

/// The task of the events that concern a selector.
pub fn hash_selector(selector: &Felt) -> (task: TaskId)
    ensures
        task == selector_task(selector@),
{
    let mut hasher = DefaultHasher::new();
    write_felt(&mut hasher, selector);
    assert(hasher@ =~= felt_writes(selector@));
    hasher.finish()
}

/// Whether two field elements are the same number.
pub fn same_felt(a: &Felt, b: &Felt) -> (same: bool)
    ensures
        same == (a@ == b@),
{
    let mut i: usize = 0;
    while i < 32
        invariant
            i <= 32,
            a@.len() == 32,
            b@.len() == 32,
            forall|j: int| 0 <= j < i ==> a@[j] == b@[j],
        decreases 32 - i,
    {
        if a.bytes[i] != b.bytes[i] {
            return false;
        }
        i = i + 1;
    }
    assert(a@ =~= b@);
    true
}

/// The tag of a model is valid and has the model's selector, if neither the namespace nor the
/// name holds a dash.
pub proof fn law_tag_names_model(namespace: Seq<char>, name: Seq<char>)
    requires
        !namespace.contains('-'),
        !name.contains('-'),
    ensures
        valid_tag(namespace + seq!['-'] + name),
        tag_selector(namespace + seq!['-'] + name) == selector_of_names(namespace, name),
{
    let tag = namespace + seq!['-'] + name;
    let dash = namespace.len() as int;
    assert forall|j: int| 0 <= j < tag.len() && j != dash implies tag[j] != '-' by {
        if j < dash {
            assert(namespace.contains(namespace[j]));
        } else {
            assert(name.contains(name[j - dash - 1]));
        }
    }
    assert(dash_at(tag, dash));
    let i = choose|i: int| dash_at(tag, i);
    assert(i == dash);
    assert(tag.take(dash) =~= namespace);
    assert(tag.skip(dash + 1) =~= name);
}

/// Picks the dashes of a text.
pub open spec fn is_dash() -> spec_fn(char) -> bool {
    |c: char| c == '-'
}

/// How many dashes a text holds.
pub open spec fn dashes(text: Seq<char>) -> nat {
    text.filter(is_dash()).len()
}

proof fn lemma_no_dashes(text: Seq<char>)
    ensures
        dashes(text) == 0 <==> forall|i: int| 0 <= i < text.len() ==> text[i] != '-',
    decreases text.len(),
{
    reveal(Seq::filter);
    if text.len() > 0 {
        let front = text.drop_last();
        lemma_no_dashes(front);
        assert(forall|i: int| 0 <= i < front.len() ==> front[i] == text[i]);
        if text.last() == '-' {
            assert(text[text.len() - 1] == '-');
        } else if dashes(front) == 0 {
            assert forall|i: int| 0 <= i < text.len() implies text[i] != '-' by {
                if i < front.len() {
                    assert(front[i] != '-');
                }
            }
        }
    }
}

/// A tag is valid exactly if it holds one dash: there is a dash, and no other.
pub proof fn law_valid_tags_hold_one_dash(tag: Seq<char>)
    ensures
        valid_tag(tag) <==> dashes(tag) == 1,
        dashes(tag) == 1 <==> exists|i: int|
            0 <= i < tag.len() && #[trigger] tag[i] == '-' && forall|j: int|
                0 <= j < tag.len() && j != i ==> #[trigger] tag[j] != '-',
    decreases tag.len(),
{
    reveal(Seq::filter);
    if tag.len() > 0 {
        let front = tag.drop_last();
        let last = tag.len() - 1;
        law_valid_tags_hold_one_dash(front);
        lemma_no_dashes(front);
        assert(forall|i: int| 0 <= i < front.len() ==> front[i] == tag[i]);
        if tag[last] == '-' {
            if dashes(front) == 0 {
                assert(dash_at(tag, last));
            } else if valid_tag(tag) {
                let i = choose|i: int| dash_at(tag, i);
                assert(i == last);
                assert forall|j: int| 0 <= j < front.len() implies front[j] != '-' by {
                    assert(tag[j] != '-');
                }
            }
        } else {
            if valid_tag(front) {
                let i = choose|i: int| dash_at(front, i);
                assert(dash_at(tag, i));
            }
            if valid_tag(tag) {
                let i = choose|i: int| dash_at(tag, i);
                assert(dash_at(front, i));
            }
        }
    }
    if valid_tag(tag) {
        let i = choose|i: int| dash_at(tag, i);
        assert(tag[i] == '-');
    }
    if exists|i: int|
        0 <= i < tag.len() && #[trigger] tag[i] == '-' && forall|j: int|
            0 <= j < tag.len() && j != i ==> #[trigger] tag[j] != '-' {
        let i = choose|i: int|
            0 <= i < tag.len() && #[trigger] tag[i] == '-' && forall|j: int|
                0 <= j < tag.len() && j != i ==> #[trigger] tag[j] != '-';
        assert(dash_at(tag, i));
    }
}

/// A valid tag is a namespace, a dash and a name, and has the selector of the two.
pub proof fn law_valid_tag_splits(tag: Seq<char>) -> (parts: (Seq<char>, Seq<char>))
    requires
        dashes(tag) == 1,
    ensures
        tag == parts.0 + seq!['-'] + parts.1,
        !parts.0.contains('-'),
        !parts.1.contains('-'),
        tag_selector(tag) == selector_of_names(parts.0, parts.1),
{
    law_valid_tags_hold_one_dash(tag);
    let i = choose|i: int| dash_at(tag, i);
    let parts = (tag.take(i), tag.skip(i + 1));
    assert(tag =~= parts.0 + seq!['-'] + parts.1);
    parts
}

/// The task of a selector is the hash of what the selector feeds to a new hasher.
pub proof fn law_task_is_the_hash(selector: Felt, task: TaskId)
    requires
        call_ensures(hash_selector, (&selector,), task),
    ensures
        task == DefaultHasher::spec_finish(felt_writes(selector.bytes@)),
{
}

/// Field elements are the same exactly if all their bytes are.
pub proof fn law_same_felt(a: Felt, b: Felt, same: bool)
    requires
        call_ensures(same_felt, (&a, &b), same),
    ensures
        same <==> forall|i: int| 0 <= i < 32 ==> a.bytes@[i] == b.bytes@[i],
{
    if forall|i: int| 0 <= i < 32 ==> a.bytes@[i] == b.bytes@[i] {
        assert(a.bytes@ =~= b.bytes@);
    }
}

} // verus!
