//! Text helpers: comparison, prefixes, decimal numbers and lower case.

use vstd::prelude::*;
use vstd::string::StringExecFns;
use vstd::string::StrSliceExecFns;

verus! {

/// The character that writes the digit `d`.
pub open spec fn digit_char(d: int) -> char
    recommends
        0 <= d < 10,
{
    (d + 48) as char
}

/// `n` in decimal notation, without leading zeros.
pub open spec fn decimal(n: int) -> Seq<char>
    decreases n,
{
    if n < 10 {
        seq![digit_char(n)]
    } else {
        decimal(n / 10).push(digit_char(n % 10))
    }
}

/// The lower case form of a text, by the Unicode rules that `str::to_lowercase` follows.
pub uninterp spec fn lowercase(text: Seq<char>) -> Seq<char>;

/// Calls `str::to_lowercase`, whose result is a function of the text alone: the contract names
/// it and says nothing more of it.
#[verifier::external_body]
pub(crate) fn to_lowercase(text: &str) -> (lower: String)
    ensures
        lower@ == lowercase(text@),
{
    text.to_lowercase()
}

/// Whether two texts hold the same characters.
pub fn same_text(a: &str, b: &str) -> (same: bool)
    ensures
        same == (a@ == b@),
{
    let len: usize = a.unicode_len();
    if len != b.unicode_len() {
        return false;
    }
    let mut i: usize = 0;
    while i < len
        invariant
            i <= len,
            len == a@.len(),
            len == b@.len(),
            forall|j: int| 0 <= j < i ==> a@[j] == b@[j],
        decreases len - i,
    {
        if a.get_char(i) != b.get_char(i) {
            return false;
        }
        i = i + 1;
    }
    assert(a@ =~= b@);
    true
}

/// Whether `text` begins with `prefix`.
pub fn has_prefix(text: &str, prefix: &str) -> (has: bool)
    ensures
        has == prefix@.is_prefix_of(text@),
{
    let len: usize = prefix.unicode_len();
    if text.unicode_len() < len {
        return false;
    }
    let mut i: usize = 0;
    while i < len
        invariant
            i <= len,
            len == prefix@.len(),
            len <= text@.len(),
            forall|j: int| 0 <= j < i ==> prefix@[j] == text@[j],
        decreases len - i,
    {
        if text.get_char(i) != prefix.get_char(i) {
            assert(text@.subrange(0, len as int)[i as int] == text@[i as int]);
            return false;
        }
        i = i + 1;
    }
    assert(text@.subrange(0, len as int) =~= prefix@);
    true
}

fn digit_text(d: u64) -> (text: &'static str)
    requires
        d < 10,
    ensures
        text@ == seq![digit_char(d as int)],
{
    proof {
        reveal_strlit("0");
        reveal_strlit("1");
        reveal_strlit("2");
        reveal_strlit("3");
        reveal_strlit("4");
        reveal_strlit("5");
        reveal_strlit("6");
        reveal_strlit("7");
        reveal_strlit("8");
        reveal_strlit("9");
    }
    let text: &'static str = match d {
        0 => "0",
        1 => "1",
        2 => "2",
        3 => "3",
        4 => "4",
        5 => "5",
        6 => "6",
        7 => "7",
        8 => "8",
        _ => "9",
    };
    assert(text@ =~= seq![digit_char(d as int)]);
    text
}

/// Writes `n` in decimal notation.
pub fn decimal_text(n: u64) -> (text: String)
    ensures
        text@ == decimal(n as int),
    decreases n,
{
    if n < 10 {
        let text: String = String::from_str(digit_text(n));
        text
    } else {
        let mut text: String = decimal_text(n / 10);
        text.append(digit_text(n % 10));
        assert(text@ =~= decimal(n as int));
        text
    }
}

/// The number that a text of decimal digits stands for.
pub open spec fn digits_value(text: Seq<char>) -> int
    decreases text.len(),
{
    if text.len() == 0 {
        0
    } else {
        digits_value(text.drop_last()) * 10 + (text.last() as int - '0' as int)
    }
}

/// Whether a text writes a number: in decimal digits, without a zero in front.
pub open spec fn writes_number(text: Seq<char>, n: int) -> bool {
    &&& text.len() > 0
    &&& forall|i: int| 0 <= i < text.len() ==> '0' as int <= #[trigger] text[i] as int <= '9' as int
    &&& text.len() > 1 ==> text[0] != '0'
    &&& digits_value(text) == n
}

/// The decimal notation of a number reads back as the number.
pub proof fn lemma_decimal_writes(n: int)
    requires
        n >= 0,
    ensures
        writes_number(decimal(n), n),
    decreases n,
{
    let text = decimal(n);
    if n < 10 {
        reveal_with_fuel(digits_value, 2);
        assert(text.drop_last() =~= Seq::empty());
    } else {
        let front = decimal(n / 10);
        lemma_decimal_writes(n / 10);
        assert(text.drop_last() =~= front);
        assert(front[0] != '0') by {
            if front.len() == 1 {
                reveal_with_fuel(digits_value, 2);
                assert(front.drop_last() =~= Seq::empty());
            }
        }
    }
}

/// A number is written so that its digits read back as the number.
pub proof fn law_numbers_read_back(n: u64, text: String)
    requires
        call_ensures(decimal_text, (n,), text),
    ensures
        writes_number(text@, n as int),
{
    lemma_decimal_writes(n as int);
}

/// A number below ten is written as its digit. Any other is written as its tenth, and then its last
/// digit.
pub proof fn law_numbers_are_written_digit_by_digit(n: u64, text: String, shorter: String)
    requires
        call_ensures(decimal_text, (n,), text),
        call_ensures(decimal_text, ((n / 10) as u64,), shorter),
    ensures
        n < 10 ==> text@.len() == 1 && text@[0] as int == '0' as int + n,
        n >= 10 ==> text@.len() == shorter@.len() + 1 && text@.last() as int == '0' as int + n % 10
            && forall|i: int| 0 <= i < shorter@.len() ==> text@[i] == shorter@[i],
{
}

/// Texts are the same exactly if they have the same characters at the same places.
pub proof fn law_same_text(a: &str, b: &str, same: bool)
    requires
        call_ensures(same_text, (a, b), same),
    ensures
        same <==> a@.len() == b@.len() && forall|i: int| 0 <= i < a@.len() ==> a@[i] == b@[i],
{
    if a@.len() == b@.len() && forall|i: int| 0 <= i < a@.len() ==> a@[i] == b@[i] {
        assert(a@ =~= b@);
    }
}

/// A text begins with a prefix exactly if something behind the prefix makes it the text.
pub proof fn law_prefix(text: &str, prefix: &str, has: bool)
    requires
        call_ensures(has_prefix, (text, prefix), has),
    ensures
        has <==> exists|rest: Seq<char>| text@ == #[trigger] (prefix@ + rest),
{
    if has {
        assert(text@ =~= prefix@ + text@.skip(prefix@.len() as int));
    }
    if exists|rest: Seq<char>| text@ == #[trigger] (prefix@ + rest) {
        assert(text@.subrange(0, prefix@.len() as int) =~= prefix@);
    }
}

} // verus!
