//! Text building: decimal numerals, concatenation and bounded truncation.

use vstd::prelude::*;
use vstd::string::*;
use vstd::utf8::*;

verus! {

/// The character of one decimal digit.
pub open spec fn digit_char(digit: nat) -> char {
    if digit == 0 {
        '0'
    } else if digit == 1 {
        '1'
    } else if digit == 2 {
        '2'
    } else if digit == 3 {
        '3'
    } else if digit == 4 {
        '4'
    } else if digit == 5 {
        '5'
    } else if digit == 6 {
        '6'
    } else if digit == 7 {
        '7'
    } else if digit == 8 {
        '8'
    } else {
        '9'
    }
}

/// The decimal numeral of a natural number, without leading zeros.
pub open spec fn decimal(value: nat) -> Seq<char>
    decreases value,
{
    if value < 10 {
        seq![digit_char(value)]
    } else {
        decimal(value / 10).push(digit_char(value % 10))
    }
}

/// Whether a character is an ASCII decimal digit.
pub open spec fn is_digit(c: char) -> bool {
    '0' <= c && c <= '9'
}

/// A numeral is never empty and holds digits only.
pub proof fn lemma_decimal_digits(value: nat)
    ensures
        decimal(value).len() > 0,
        forall|i: int| 0 <= i < decimal(value).len() ==> is_digit(#[trigger] decimal(value)[i]),
    decreases value,
{
    if value >= 10 {
        lemma_decimal_digits(value / 10);
    }
}

/// Two numbers with the same numeral are the same number.
pub proof fn lemma_decimal_injective(a: nat, b: nat)
    requires
        decimal(a) == decimal(b),
    ensures
        a == b,
    decreases a,
{
    lemma_decimal_digits(a / 10);
    lemma_decimal_digits(b / 10);
    let da = decimal(a);
    let db = decimal(b);
    assert(da.last() == db.last());
    if a < 10 && b < 10 {
    } else if a >= 10 && b >= 10 {
        assert(da.drop_last() =~= decimal(a / 10));
        assert(db.drop_last() =~= decimal(b / 10));
        lemma_decimal_injective(a / 10, b / 10);
    } else if a < 10 {
        assert(da.len() == 1);
        assert(db.len() == decimal(b / 10).len() + 1);
    } else {
        assert(db.len() == 1);
        assert(da.len() == decimal(a / 10).len() + 1);
    }
}

/// The one-digit numeral of a digit.
fn digit_str(digit: u64) -> (text: &'static str)
    requires
        digit < 10,
    ensures
        text@ == seq![digit_char(digit as nat)],
{
    proof {
        reveal_strlit("0");
        reveal_strlit("1");
        reveal_strlit("2");
        reveal_strlit("3");
        reveal_strlit("4");
        reveal_strlit("5");
        reveal_strlit("6");
        reveal_strlit("7");
        reveal_strlit("8");
        reveal_strlit("9");
    }
    let text = match digit {
        0 => "0",
        1 => "1",
        2 => "2",
        3 => "3",
        4 => "4",
        5 => "5",
        6 => "6",
        7 => "7",
        8 => "8",
        _ => "9",
    };
    assert(text@ =~= seq![digit_char(digit as nat)]);
    text
}

/// Writes a number in decimal.
pub fn decimal_string(value: u64) -> (text: String)
    ensures
        text@ == decimal(value as nat),
    decreases value,
{
    if value < 10 {
        digit_str(value).to_owned()
    } else {
        let mut text = decimal_string(value / 10);
        text.append(digit_str(value % 10));
        proof {
            assert(text@ =~= decimal(value as nat));
        }
        text
    }
}

/// The decimal numeral of an integer, with a minus sign when it is negative.
pub open spec fn signed_decimal(value: int) -> Seq<char> {
    if value < 0 {
        "-"@ + decimal((-value) as nat)
    } else {
        decimal(value as nat)
    }
}

/// Writes an integer in decimal.
pub fn signed_decimal_string(value: i64) -> (text: String)
    ensures
        text@ == signed_decimal(value as int),
{
    if value < 0 {
        let magnitude: u64 = (-(value + 1)) as u64 + 1;
        let digits = decimal_string(magnitude);
        join2("-", digits.as_str())
    } else {
        decimal_string(value as u64)
    }
}

/// The UTF-8 length of a text, in bytes.
pub open spec fn byte_len(text: Seq<char>) -> nat {
    encode_utf8(text).len()
}

/// Measures the UTF-8 length of a text.
pub fn text_bytes(text: &str) -> (bytes: usize)
    ensures
        bytes == byte_len(text@),
{
    text.as_bytes().len()
}

/// Joins two texts.
pub fn join2(a: &str, b: &str) -> (text: String)
    ensures
        text@ == a@ + b@,
{
    let mut text = a.to_owned();
    text.append(b);
    text
}

/// Joins three texts.
pub fn join3(a: &str, b: &str, c: &str) -> (text: String)
    ensures
        text@ == a@ + b@ + c@,
{
    let mut text = join2(a, b);
    text.append(c);
    text
}

/// Joins four texts.
pub fn join4(a: &str, b: &str, c: &str, d: &str) -> (text: String)
    ensures
        text@ == a@ + b@ + c@ + d@,
{
    let mut text = join3(a, b, c);
    text.append(d);
    text
}

/// Joins five texts.
pub fn join5(a: &str, b: &str, c: &str, d: &str, e: &str) -> (text: String)
    ensures
        text@ == a@ + b@ + c@ + d@ + e@,
{
    let mut text = join3(a, b, c);
    text.append(d);
    text.append(e);
    text
}

/// Joins seven texts.
pub fn join7(a: &str, b: &str, c: &str, d: &str, e: &str, f: &str, g: &str) -> (text: String)
    ensures
        text@ == a@ + b@ + c@ + d@ + e@ + f@ + g@,
{
    let mut text = join5(a, b, c, d, e);
    text.append(f);
    text.append(g);
    text
}

/// Whether two texts are the same.
pub fn same_text(a: &str, b: &str) -> (result: bool)
    ensures
        result == (a@ == b@),
{
    a.to_owned() == b.to_owned()
}

/// Whether a text starts with another.
pub open spec fn starts_with(text: Seq<char>, prefix: Seq<char>) -> bool {
    prefix.len() <= text.len() && text.subrange(0, prefix.len() as int) == prefix
}

/// Whether one text starts with another.
pub fn has_prefix(text: &str, prefix: &str) -> (result: bool)
    ensures
        result == starts_with(text@, prefix@),
{
    let length: usize = text.unicode_len();
    let wanted: usize = prefix.unicode_len();
    if length < wanted {
        return false;
    }
    let mut i: usize = 0;
    while i < wanted
        invariant
            i <= wanted,
            wanted == prefix@.len(),
            wanted <= text@.len(),
            forall|k: int| 0 <= k < i ==> text@[k] == prefix@[k],
        decreases wanted - i,
    {
        if text.get_char(i) != prefix.get_char(i) {
            assert(text@.subrange(0, wanted as int)[i as int] != prefix@[i as int]);
            return false;
        }
        i = i + 1;
    }
    assert(text@.subrange(0, wanted as int) =~= prefix@);
    true
}

/// What follows a prefix of a text, when the text starts with it.
pub fn strip_prefix<'a>(text: &'a str, prefix: &str) -> (rest: Option<&'a str>)
    ensures
        rest is Some <==> starts_with(text@, prefix@),
        rest is Some ==> rest->Some_0@ == text@.subrange(
            prefix@.len() as int,
            text@.len() as int,
        ),
{
    if has_prefix(text, prefix) {
        Some(text.substring_char(prefix.unicode_len(), text.unicode_len()))
    } else {
        None
    }
}

/// What keeping at most `limit` bytes of a text leaves: its longest prefix of
/// whole characters whose UTF-8 form fits.
pub open spec fn bounded_text(text: Seq<char>, limit: nat) -> Seq<char>
    decreases text.len(),
{
    if text.len() == 0 || byte_len(text) <= limit {
        text
    } else {
        bounded_text(text.drop_last(), limit)
    }
}

/// The encoding of a concatenation is the concatenation of the encodings.
pub proof fn lemma_encode_concat(a: Seq<char>, b: Seq<char>)
    ensures
        encode_utf8(a + b) == encode_utf8(a) + encode_utf8(b),
    decreases a.len(),
{
    if a.len() == 0 {
        assert(a + b =~= b);
        assert(encode_utf8(a) + encode_utf8(b) =~= encode_utf8(b));
    } else {
        lemma_encode_concat(a.drop_first(), b);
        assert((a + b).drop_first() =~= a.drop_first() + b);
        assert(encode_utf8(a + b) =~= encode_utf8(a) + encode_utf8(b));
    }
}

/// A text shorter than another it starts is no longer in bytes.
pub proof fn lemma_prefix_bytes(text: Seq<char>, shorter: int, longer: int)
    requires
        0 <= shorter <= longer <= text.len(),
    ensures
        byte_len(text.subrange(0, shorter)) <= byte_len(text.subrange(0, longer)),
{
    let a = text.subrange(0, shorter);
    let b = text.subrange(shorter, longer);
    assert(text.subrange(0, longer) =~= a + b);
    lemma_encode_concat(a, b);
}

/// Every whole-character prefix ends on a character boundary.
proof fn lemma_prefix_boundary(text: Seq<char>, kept: int)
    requires
        0 <= kept <= text.len(),
    ensures
        is_char_boundary(encode_utf8(text), byte_len(text.subrange(0, kept)) as int),
    decreases kept,
{
    encode_utf8_valid_utf8(text);
    let bytes = encode_utf8(text);
    if kept == 0 {
        assert(text.subrange(0, 0) =~= Seq::<char>::empty());
    } else {
        encode_utf8_first_scalar(text);
        let rest = text.drop_first();
        assert(pop_first_scalar(bytes) =~= encode_utf8(rest));
        lemma_prefix_boundary(rest, kept - 1);
        let prefix = text.subrange(0, kept);
        assert(prefix.drop_first() =~= rest.subrange(0, kept - 1));
        assert(prefix[0] == text[0]);
        lemma_prefix_bytes(text, kept, text.len() as int);
        assert(text.subrange(0, text.len() as int) =~= text);
    }
}

/// A prefix that fits, and that no longer prefix does, is the bounded text.
proof fn lemma_bounded_text(text: Seq<char>, kept: int, limit: nat)
    requires
        0 <= kept <= text.len(),
        byte_len(text.subrange(0, kept)) <= limit,
        kept < text.len() ==> byte_len(text.subrange(0, kept + 1)) > limit,
    ensures
        bounded_text(text, limit) == text.subrange(0, kept),
    decreases text.len(),
{
    assert(text.subrange(0, text.len() as int) =~= text);
    if kept < text.len() {
        lemma_prefix_bytes(text, kept + 1, text.len() as int);
        let shorter = text.drop_last();
        assert(shorter.subrange(0, kept) =~= text.subrange(0, kept));
        if kept < shorter.len() {
            assert(shorter.subrange(0, kept + 1) =~= text.subrange(0, kept + 1));
        }
        lemma_bounded_text(shorter, kept, limit);
    }
}

/// A bounded text fits its bound and starts the text it came from.
pub proof fn lemma_bounded_text_fits(text: Seq<char>, limit: nat)
    ensures
        byte_len(bounded_text(text, limit)) <= limit,
        bounded_text(text, limit).len() <= text.len(),
        bounded_text(text, limit) == text.subrange(0, bounded_text(text, limit).len() as int),
        bounded_text(bounded_text(text, limit), limit) == bounded_text(text, limit),
    decreases text.len(),
{
    if text.len() == 0 || byte_len(text) <= limit {
        assert(text.subrange(0, text.len() as int) =~= text);
    } else {
        lemma_bounded_text_fits(text.drop_last(), limit);
        let kept = bounded_text(text, limit);
        assert(text.drop_last().subrange(0, kept.len() as int) =~= text.subrange(
            0,
            kept.len() as int,
        ));
    }
}

/// Keeps the longest prefix of whole characters that fits `limit` bytes.
pub fn truncate_text(text: String, limit: usize) -> (kept: String)
    ensures
        kept@ == bounded_text(text@, limit as nat),
{
    let bytes: usize = text_bytes(text.as_str());
    if bytes <= limit {
        return text;
    }
    let ghost encoded = encode_utf8(text@);
    proof {
        encode_utf8_valid_utf8(text@);
    }
    let slice = text.as_str();
    let mut end: usize = limit;
    while !slice.is_char_boundary(end)
        invariant
            slice@ == text@,
            encoded == encode_utf8(text@),
            valid_utf8(encoded),
            end <= limit < encoded.len(),
            forall|k: int| end < k <= limit ==> !is_char_boundary(encoded, k),
        decreases end,
    {
        end = end - 1;
    }
    let parts = slice.split_at(end);
    proof {
        let a = parts.0@;
        let b = parts.1@;
        assert(encode_utf8(a) + encode_utf8(b) =~= encoded);
        lemma_encode_concat(a, b);
        encode_utf8_decode_utf8(a + b);
        encode_utf8_decode_utf8(text@);
        assert(text@ == a + b);
        let kept = a.len() as int;
        assert(text@.subrange(0, kept) =~= a);
        if kept < text@.len() {
            lemma_prefix_boundary(text@, kept + 1);
            let longer = text@.subrange(0, kept + 1);
            let next = text@.subrange(kept, kept + 1);
            assert(longer =~= a + next);
            lemma_encode_concat(a, next);
            assert(encode_utf8(next).len() > 0) by {
                assert(next.len() == 1);
                assert(encode_scalar(next[0] as u32).len() > 0);
            }
        }
        lemma_bounded_text(text@, kept, limit as nat);
    }
    parts.0.to_owned()
}

} // verus!
