//! Text: decimal numbers, and the few operations of the standard library on
//! strings that the rest needs.

use vstd::prelude::*;

verus! {

/// The character of the digit `d`.
pub open spec fn digit_char(d: nat) -> char {
    (0x30 + d) as char
}

/// `n` in decimal, without leading zeros.
pub open spec fn decimal_digits(n: nat) -> Seq<char>
    decreases n,
{
    if n < 10 {
        seq![digit_char(n)]
    } else {
        decimal_digits(n / 10).push(digit_char(n % 10))
    }
}

fn digit_text(d: u64) -> (text: &'static str)
    requires
        d < 10,
    ensures
        text@ == seq![digit_char(d as nat)],
{
    proof {
        reveal_strlit("0");
        reveal_strlit("1");
        reveal_strlit("2");
        reveal_strlit("3");
        reveal_strlit("4");
        reveal_strlit("5");
        reveal_strlit("6");
        reveal_strlit("7");
        reveal_strlit("8");
        reveal_strlit("9");
    }
    match d {
        0 => "0",
        1 => "1",
        2 => "2",
        3 => "3",
        4 => "4",
        5 => "5",
        6 => "6",
        7 => "7",
        8 => "8",
        _ => "9",
    }
}

/// Writes `n` in decimal.
pub fn decimal(n: u64) -> (text: String)
    ensures
        text@ == decimal_digits(n as nat),
    decreases n,
{
    if n < 10 {
        digit_text(n).to_owned()
    } else {
        let mut text = decimal(n / 10);
        text.append(digit_text(n % 10));
        assert(text@ =~= decimal_digits(n as nat));
        text
    }
}

/// Whether two texts are the same.
pub(crate) fn same_text(a: &str, b: &str) -> (same: bool)
    ensures
        same == (a@ == b@),
{
    a.to_owned() == b.to_owned()
}

/// Whether `c` has the Unicode property `White_Space`.
pub open spec fn is_white_space(c: char) -> bool {
    ||| '\u{9}' <= c <= '\u{d}'
    ||| c == '\u{20}'
    ||| c == '\u{85}'
    ||| c == '\u{a0}'
    ||| c == '\u{1680}'
    ||| '\u{2000}' <= c <= '\u{200a}'
    ||| c == '\u{2028}'
    ||| c == '\u{2029}'
    ||| c == '\u{202f}'
    ||| c == '\u{205f}'
    ||| c == '\u{3000}'
}

/// `text` without the white space at its two ends.
pub open spec fn trimmed(text: Seq<char>) -> Seq<char>
    decreases text.len(),
{
    if text.len() > 0 && is_white_space(text[0]) {
        trimmed(text.drop_first())
    } else if text.len() > 0 && is_white_space(text.last()) {
        trimmed(text.drop_last())
    } else {
        text
    }
}

/// `str::trim`: drops the leading and the trailing characters that have the
/// Unicode property `White_Space`.
#[verifier::external_body]
pub(crate) fn trim(text: &str) -> (r: &str)
    ensures
        r@ == trimmed(text@),
{
    text.trim()
}

/// Whether `text` is a non-empty string of decimal digits.
pub open spec fn is_number(text: Seq<char>) -> bool {
    text.len() > 0 && forall|i: int| 0 <= i < text.len() ==> '0' <= #[trigger] text[i] <= '9'
}

/// The number that a string of decimal digits stands for.
pub open spec fn number(text: Seq<char>) -> nat
    decreases text.len(),
{
    if text.len() == 0 {
        0
    } else {
        number(text.drop_last()) * 10 + (text.last() as u32 - 0x30) as nat
    }
}

/// `text` without the plus sign that a number may begin with.
pub open spec fn without_plus(text: Seq<char>) -> Seq<char> {
    if text.len() > 0 && text[0] == '+' {
        text.drop_first()
    } else {
        text
    }
}

/// The `u64` that `text` is the decimal notation of, if it is that of one.
pub open spec fn parsed_u64(text: Seq<char>) -> Option<u64> {
    let digits = without_plus(text);
    if is_number(digits) && number(digits) <= u64::MAX {
        Some(number(digits) as u64)
    } else {
        None
    }
}

/// The message of the error that `str::parse::<u64>` gives for `text`.
pub uninterp spec fn parse_u64_message(text: Seq<char>) -> Seq<char>;

/// `str::parse::<u64>`: accepts decimal digits, with an optional plus sign
/// before them, that stand for a number that fits, and nothing else. Of the
/// error only the message is kept; what it says is not stated, only that it
/// depends on the text alone.
#[verifier::external_body]
pub(crate) fn parse_u64(text: &str) -> (r: Result<u64, String>)
    ensures
        match r {
            Ok(n) => parsed_u64(text@) == Some(n),
            Err(message) => parsed_u64(text@) is None && message@ == parse_u64_message(text@),
        },
{
    text.parse::<u64>().map_err(|e| e.to_string())
}

/// `text` in lower case, as Unicode maps it.
pub uninterp spec fn lowercase(text: Seq<char>) -> Seq<char>;

/// The lower case of an ASCII character.
pub open spec fn ascii_lower(c: char) -> char {
    if 'A' <= c <= 'Z' {
        (c as u32 + 0x20) as char
    } else {
        c
    }
}

/// `str::to_lowercase`: replaces each character by its lower case as Unicode
/// has it. On ASCII text that turns `A` to `Z` into `a` to `z` and leaves the
/// rest; of other text only that the result depends on the text alone is said.
#[verifier::external_body]
pub(crate) fn to_lowercase(text: &str) -> (r: String)
    ensures
        r@ == lowercase(text@),
        (forall|i: int| 0 <= i < text@.len() ==> text@[i] < '\u{80}') ==> r@
            == text@.map_values(|c: char| ascii_lower(c)),
{
    text.to_lowercase()
}

/// A number that is written in decimal is read as that number, and it does not
/// begin with a zero unless it is zero.
pub proof fn decimals_read_back(n: nat)
    ensures
        is_number(decimal_digits(n)),
        number(decimal_digits(n)) == n,
        decimal_digits(n)[0] == '0' ==> decimal_digits(n).len() == 1,
    decreases n,
{
    reveal_with_fuel(number, 2);
    let text = decimal_digits(n);
    if n >= 10 {
        let prior = decimal_digits(n / 10);
        decimals_read_back(n / 10);
        assert(text.drop_last() =~= prior);
        assert forall|i: int| 0 <= i < text.len() implies '0' <= #[trigger] text[i] <= '9' by {
            if i < prior.len() {
                assert(text[i] == prior[i]);
            }
        }
        assert(text[0] == prior[0]);
        if prior[0] == '0' {
            assert(number(prior.drop_last()) == 0);
        }
    } else {
        assert(text.drop_last() =~= Seq::<char>::empty());
    }
}

/// A number that is written in decimal, with or without a plus sign before it, is
/// accepted where it fits.
pub proof fn decimals_are_accepted(n: nat)
    ensures
        parsed_u64(decimal_digits(n)) == if n <= u64::MAX {
            Some(n as u64)
        } else {
            None
        },
        parsed_u64(seq!['+'] + decimal_digits(n)) == parsed_u64(decimal_digits(n)),
{
    decimals_read_back(n);
    assert((seq!['+'] + decimal_digits(n)).drop_first() =~= decimal_digits(n));
}

/// Trimming takes white space off the two ends and nothing else, until something
/// else stands there.
pub proof fn trimming_takes_white_space_alone(text: Seq<char>) -> (from: int)
    ensures
        0 <= from <= from + trimmed(text).len() <= text.len(),
        trimmed(text) == text.subrange(from, from + trimmed(text).len()),
        forall|i: int| 0 <= i < from ==> is_white_space(#[trigger] text[i]),
        forall|i: int|
            from + trimmed(text).len() <= i < text.len() ==> is_white_space(#[trigger] text[i]),
        trimmed(text).len() > 0 ==> !is_white_space(trimmed(text)[0]) && !is_white_space(
            trimmed(text).last(),
        ),
    decreases text.len(),
{
    if text.len() > 0 && is_white_space(text[0]) {
        let rest = text.drop_first();
        let from = trimming_takes_white_space_alone(rest);
        assert forall|i: int| 0 <= i < from + 1 implies is_white_space(#[trigger] text[i]) by {
            if i > 0 {
                assert(rest[i - 1] == text[i]);
            }
        }
        assert forall|i: int| from + 1 + trimmed(text).len() <= i < text.len() implies
            is_white_space(#[trigger] text[i]) by {
            assert(rest[i - 1] == text[i]);
        }
        assert(rest.subrange(from, from + trimmed(rest).len()) =~= text.subrange(
            from + 1,
            from + 1 + trimmed(text).len(),
        ));
        from + 1
    } else if text.len() > 0 && is_white_space(text.last()) {
        let rest = text.drop_last();
        let from = trimming_takes_white_space_alone(rest);
        assert forall|i: int| 0 <= i < from implies is_white_space(#[trigger] text[i]) by {
            assert(rest[i] == text[i]);
        }
        assert forall|i: int| from + trimmed(text).len() <= i < text.len() implies is_white_space(
            #[trigger] text[i],
        ) by {
            if i < rest.len() {
                assert(rest[i] == text[i]);
            }
        }
        assert(rest.subrange(from, from + trimmed(rest).len()) =~= text.subrange(
            from,
            from + trimmed(text).len(),
        ));
        from
    } else {
        assert(text.subrange(0, text.len() as int) =~= text);
        0
    }
}

/// White space around a text makes no difference once it is trimmed.
pub proof fn white_space_around_a_text_is_trimmed(
    before: Seq<char>,
    text: Seq<char>,
    after: Seq<char>,
)
    requires
        forall|i: int| 0 <= i < before.len() ==> is_white_space(#[trigger] before[i]),
        forall|i: int| 0 <= i < after.len() ==> is_white_space(#[trigger] after[i]),
        text.len() > 0,
        !is_white_space(text[0]),
        !is_white_space(text.last()),
    ensures
        trimmed(before + text + after) == text,
    decreases before.len() + after.len(),
{
    let whole = before + text + after;
    if before.len() > 0 {
        assert(whole[0] == before[0]);
        white_space_around_a_text_is_trimmed(before.drop_first(), text, after);
        assert(whole.drop_first() =~= before.drop_first() + text + after);
    } else if after.len() > 0 {
        assert(whole[0] == text[0]);
        assert(whole.last() == after.last());
        white_space_around_a_text_is_trimmed(before, text, after.drop_last());
        assert(whole.drop_last() =~= before + text + after.drop_last());
    } else {
        assert(whole =~= text);
    }
}

} // verus!
