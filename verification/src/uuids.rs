//! The UUID of a swap area: reading one that the user gives, drawing a random
//! one, and writing one out.

use vstd::prelude::*;

verus! {

/// The value of a hexadecimal digit of either case.
pub open spec fn hex_value(c: char) -> Option<u8> {
    if '0' <= c <= '9' {
        Some((c as u32 - 0x30) as u8)
    } else if 'a' <= c <= 'f' {
        Some((c as u32 - 0x61 + 10) as u8)
    } else if 'A' <= c <= 'F' {
        Some((c as u32 - 0x41 + 10) as u8)
    } else {
        None
    }
}

/// The hexadecimal digit of the value `v`, in lower case.
pub open spec fn hex_digit(v: u8) -> char {
    if v < 10 {
        (0x30 + v) as char
    } else {
        (0x61 + v - 10) as char
    }
}

/// Where the hyphens stand in the hyphenated form.
pub open spec fn is_hyphen_place(i: int) -> bool {
    i == 8 || i == 13 || i == 18 || i == 23
}

/// Where the digit number `k` of the 32 stands in the hyphenated form.
pub open spec fn digit_place(k: int) -> int {
    if k < 8 {
        k
    } else if k < 12 {
        k + 1
    } else if k < 16 {
        k + 2
    } else if k < 20 {
        k + 3
    } else {
        k + 4
    }
}

/// The 16 bytes that 32 hexadecimal digits stand for.
pub open spec fn bytes_of_digits(digits: Seq<char>) -> Option<Seq<u8>> {
    if digits.len() == 32 && forall|k: int|
        0 <= k < 32 ==> hex_value(#[trigger] digits[k]) is Some {
        Some(
            Seq::new(
                16,
                |i: int| (hex_value(digits[2 * i])->0 * 16 + hex_value(digits[2 * i + 1])->0) as u8,
            ),
        )
    } else {
        None
    }
}

/// The 16 bytes that a UUID in the hyphenated form stands for.
pub open spec fn bytes_of_hyphenated(text: Seq<char>) -> Option<Seq<u8>> {
    if text.len() == 36 && forall|i: int| is_hyphen_place(i) ==> #[trigger] text[i] == '-' {
        bytes_of_digits(Seq::new(32, |k: int| text[digit_place(k)]))
    } else {
        None
    }
}

/// Whether `text` begins with `urn:uuid:`, whatever the case of its letters.
pub open spec fn has_urn_prefix(text: Seq<char>) -> bool {
    &&& text.len() >= 9
    &&& text.take(9).map_values(|c: char| crate::text::ascii_lower(c)) == "urn:uuid:"@
}

/// The bytes of the UUID that `text` is a notation of: 32 hexadecimal digits,
/// the hyphenated form, or the hyphenated form in braces or after `urn:uuid:`.
pub open spec fn uuid_of_text(text: Seq<char>) -> Option<Seq<u8>> {
    if text.len() == 32 {
        bytes_of_digits(text)
    } else if text.len() == 36 {
        bytes_of_hyphenated(text)
    } else if text.len() == 38 && text[0] == '{' && text[37] == '}' {
        bytes_of_hyphenated(text.subrange(1, 37))
    } else if text.len() == 45 && has_urn_prefix(text) {
        bytes_of_hyphenated(text.skip(9))
    } else {
        None
    }
}

/// The hyphenated form of a UUID, in lower case.
pub open spec fn hyphenated(bytes: Seq<u8>) -> Seq<char> {
    Seq::new(36, |i: int| hyphenated_at(bytes, i))
}

/// The character at `i` of the hyphenated form.
pub open spec fn hyphenated_at(bytes: Seq<u8>, i: int) -> char {
    if is_hyphen_place(i) {
        '-'
    } else {
        let k = if i < 8 {
            i
        } else if i < 13 {
            i - 1
        } else if i < 18 {
            i - 2
        } else if i < 23 {
            i - 3
        } else {
            i - 4
        };
        if k % 2 == 0 {
            hex_digit((bytes[k / 2] / 16) as u8)
        } else {
            hex_digit((bytes[k / 2] % 16) as u8)
        }
    }
}

/// The message of the error that `uuid::Uuid::from_str` gives for `text`.
pub uninterp spec fn uuid_error_message(text: Seq<char>) -> Seq<char>;

/// `uuid::Uuid::from_str`: reads a UUID in one of the four notations of
/// `uuid_of_text` and refuses every other text. Of the error only the message
/// is kept; what it says is not stated, only that it depends on the text alone.
#[verifier::external_body]
pub(crate) fn parse_uuid(text: &str) -> (r: Result<[u8; 16], String>)
    ensures
        match r {
            Ok(bytes) => uuid_of_text(text@) == Some(bytes@),
            Err(message) => uuid_of_text(text@) is None && message@ == uuid_error_message(text@),
        },
{
    match <uuid::Uuid as std::str::FromStr>::from_str(text) {
        Ok(uuid) => Ok(uuid.into_bytes()),
        Err(e) => Err(e.to_string()),
    }
}

/// Whether a UUID carries the version 4 and the variant of RFC 9562.
pub open spec fn is_random_uuid(bytes: Seq<u8>) -> bool {
    bytes[6] / 16 == 4 && bytes[8] / 64 == 2
}

/// `uuid::Uuid::new_v4`: a random UUID. Whatever the draw, it carries the
/// version 4 and the variant of RFC 9562; the other bits are not stated. It
/// relies on the random numbers of the operating system being there.
#[verifier::external_body]
pub(crate) fn random_uuid() -> (bytes: [u8; 16])
    ensures
        is_random_uuid(bytes@),
{
    uuid::Uuid::new_v4().into_bytes()
}

/// `Display` of `uuid::Uuid`: the hyphenated form in lower case.
#[verifier::external_body]
pub(crate) fn uuid_text(bytes: [u8; 16]) -> (text: String)
    ensures
        text@ == hyphenated(bytes@),
{
    uuid::Uuid::from_bytes(bytes).to_string()
}

/// The hyphenated form of a UUID reads back as that UUID.
pub proof fn hyphenated_form_reads_back(bytes: Seq<u8>)
    requires
        bytes.len() == 16,
    ensures
        uuid_of_text(hyphenated(bytes)) == Some(bytes),
{
    let text = hyphenated(bytes);
    let digits = Seq::new(32, |k: int| text[digit_place(k)]);
    assert forall|k: int| 0 <= k < 32 implies hex_value(#[trigger] digits[k]) == Some(
        if k % 2 == 0 {
            (bytes[k / 2] / 16) as u8
        } else {
            (bytes[k / 2] % 16) as u8
        },
    ) by {
        assert(digits[k] == hyphenated_at(bytes, digit_place(k)));
    }
    assert(bytes_of_digits(digits) is Some);
    assert(bytes_of_digits(digits)->0 =~= bytes) by {
        assert forall|i: int| 0 <= i < 16 implies #[trigger] bytes_of_digits(digits)->0[i]
            == bytes[i] by {
            assert(hex_value(digits[2 * i]) == Some((bytes[i] / 16) as u8));
            assert(hex_value(digits[2 * i + 1]) == Some((bytes[i] % 16) as u8));
        }
    }
}

/// A text in lower case, as far as its letters are ASCII.
pub open spec fn lower(text: Seq<char>) -> Seq<char> {
    text.map_values(|c: char| crate::text::ascii_lower(c))
}

/// The hyphenated form of a UUID without its hyphens.
pub open spec fn without_hyphens(bytes: Seq<u8>) -> Seq<char> {
    Seq::new(32, |k: int| hyphenated(bytes)[digit_place(k)])
}

proof fn lemma_digit(c: char, v: u8)
    requires
        v < 16,
    ensures
        hex_value(c) == Some(v) <==> crate::text::ascii_lower(c) == hex_digit(v),
{
}

/// The value of the digit number `k` of the 32.
spec fn nibble(bytes: Seq<u8>, k: int) -> u8 {
    if k % 2 == 0 {
        (bytes[k / 2] / 16) as u8
    } else {
        (bytes[k / 2] % 16) as u8
    }
}

proof fn lemma_nibble(bytes: Seq<u8>, k: int)
    requires
        bytes.len() == 16,
        0 <= k < 32,
    ensures
        nibble(bytes, k) < 16,
        without_hyphens(bytes)[k] == hex_digit(nibble(bytes, k)),
{
    assert(without_hyphens(bytes)[k] == hyphenated_at(bytes, digit_place(k)));
}

proof fn lemma_byte(high: u8, low: u8)
    requires
        high < 16,
        low < 16,
    ensures
        ((high * 16 + low) as u8) / 16 == high,
        ((high * 16 + low) as u8) % 16 == low,
{
}

proof fn lemma_digits_read(digits: Seq<char>, bytes: Seq<u8>)
    requires
        bytes.len() == 16,
        bytes_of_digits(digits) == Some(bytes),
    ensures
        lower(digits) == without_hyphens(bytes),
{
    assert forall|k: int| 0 <= k < 32 implies #[trigger] lower(digits)[k] == without_hyphens(
        bytes,
    )[k] by {
        let i = k / 2;
        let high = hex_value(digits[2 * i]);
        let low = hex_value(digits[2 * i + 1]);
        assert(high is Some && low is Some);
        assert(bytes[i] == (high->0 * 16 + low->0) as u8);
        lemma_byte(high->0, low->0);
        lemma_nibble(bytes, k);
        lemma_digit(digits[k], nibble(bytes, k));
        assert(k == 2 * i || k == 2 * i + 1);
    }
    assert(lower(digits) =~= without_hyphens(bytes));
}

proof fn lemma_digits_written(digits: Seq<char>, bytes: Seq<u8>)
    requires
        bytes.len() == 16,
        lower(digits) == without_hyphens(bytes),
    ensures
        bytes_of_digits(digits) == Some(bytes),
{
    assert(lower(digits).len() == digits.len());
    assert forall|k: int| 0 <= k < 32 implies hex_value(#[trigger] digits[k]) == Some(
        nibble(bytes, k),
    ) by {
        assert(lower(digits)[k] == without_hyphens(bytes)[k]);
        lemma_nibble(bytes, k);
        lemma_digit(digits[k], nibble(bytes, k));
    }
    let read = bytes_of_digits(digits)->0;
    assert forall|i: int| 0 <= i < 16 implies #[trigger] read[i] == bytes[i] by {
        assert(hex_value(digits[2 * i]) == Some(nibble(bytes, 2 * i)));
        assert(hex_value(digits[2 * i + 1]) == Some(nibble(bytes, 2 * i + 1)));
    }
    assert(read =~= bytes);
}

proof fn lemma_digits(digits: Seq<char>, bytes: Seq<u8>)
    requires
        bytes.len() == 16,
    ensures
        bytes_of_digits(digits) == Some(bytes) <==> lower(digits) == without_hyphens(bytes),
{
    if bytes_of_digits(digits) == Some(bytes) {
        lemma_digits_read(digits, bytes);
    }
    if lower(digits) == without_hyphens(bytes) {
        lemma_digits_written(digits, bytes);
    }
}

proof fn lemma_hyphenated(text: Seq<char>, bytes: Seq<u8>)
    requires
        bytes.len() == 16,
    ensures
        bytes_of_hyphenated(text) == Some(bytes) <==> lower(text) == hyphenated(bytes),
{
    let form = hyphenated(bytes);
    let digits = Seq::new(32, |k: int| text[digit_place(k)]);
    let plain = without_hyphens(bytes);
    lemma_digits(digits, bytes);
    if bytes_of_hyphenated(text) == Some(bytes) {
        assert(lower(digits) == plain);
        assert forall|i: int| 0 <= i < 36 implies #[trigger] lower(text)[i] == form[i] by {
            if is_hyphen_place(i) {
                assert(text[i] == '-');
            } else {
                let k = if i < 8 {
                    i
                } else if i < 13 {
                    i - 1
                } else if i < 18 {
                    i - 2
                } else if i < 23 {
                    i - 3
                } else {
                    i - 4
                };
                assert(digit_place(k) == i);
                assert(lower(digits)[k] == plain[k]);
            }
        }
        assert(lower(text) =~= form);
    }
    if lower(text) == form {
        assert(lower(text).len() == text.len());
        assert forall|i: int| is_hyphen_place(i) implies #[trigger] text[i] == '-' by {
            assert(lower(text)[i] == form[i]);
        }
        assert forall|k: int| 0 <= k < 32 implies #[trigger] lower(digits)[k] == plain[k] by {
            assert(lower(text)[digit_place(k)] == form[digit_place(k)]);
        }
        assert(lower(digits) =~= plain);
    }
}

/// A text is read as a UUID exactly where it is that UUID written out, with or
/// without hyphens, or with hyphens in braces or after `urn:uuid:`, whatever the case
/// of its letters. No UUID is refused or changed, whatever its version.
pub proof fn uuids_are_read_in_four_notations(text: Seq<char>, bytes: Seq<u8>)
    requires
        bytes.len() == 16,
    ensures
        uuid_of_text(text) == Some(bytes) <==> {
            ||| lower(text) == hyphenated(bytes)
            ||| lower(text) == without_hyphens(bytes)
            ||| lower(text) == seq!['{'] + hyphenated(bytes) + seq!['}']
            ||| lower(text) == "urn:uuid:"@ + hyphenated(bytes)
        },
{
    reveal_strlit("urn:uuid:");
    let form = hyphenated(bytes);
    let braces = seq!['{'] + form + seq!['}'];
    let urn = "urn:uuid:"@ + form;
    assert(lower(text).len() == text.len());
    if text.len() == 32 {
        lemma_digits(text, bytes);
    } else if text.len() == 36 {
        lemma_hyphenated(text, bytes);
    } else if text.len() == 38 {
        let inner = text.subrange(1, 37);
        lemma_hyphenated(inner, bytes);
        assert(lower(inner) =~= lower(text).subrange(1, 37));
        assert(braces.subrange(1, 37) =~= form);
        assert(lower(text)[0] == '{' <==> text[0] == '{');
        assert(lower(text)[37] == '}' <==> text[37] == '}');
        assert(braces[0] == '{' && braces[37] == '}');
        if text[0] == '{' && text[37] == '}' && lower(inner) == form {
            assert(lower(text) =~= braces);
        }
    } else if text.len() == 45 {
        let inner = text.skip(9);
        lemma_hyphenated(inner, bytes);
        assert(lower(inner) =~= lower(text).skip(9));
        assert(lower(text.take(9)) =~= lower(text).take(9));
        assert(urn.skip(9) =~= form);
        assert(urn.take(9) =~= "urn:uuid:"@);
        if has_urn_prefix(text) && lower(inner) == form {
            assert(lower(text) =~= lower(text).take(9) + lower(text).skip(9));
        }
    }
}

} // verus!
