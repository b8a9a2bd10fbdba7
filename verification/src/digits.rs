//! Hexadecimal digits: which characters are digits, what they are worth, and
//! how runs of digit pairs correspond to bytes.

use vstd::prelude::*;

verus! {

/// Whether `c` is one of `0`-`9`, `a`-`f` or `A`-`F`.
pub open spec fn is_hex_digit(c: char) -> bool {
    ('0' <= c <= '9') || ('a' <= c <= 'f') || ('A' <= c <= 'F')
}

/// Whether `c` is one of `0`-`9` or `a`-`f`.
pub open spec fn is_lower_hex_digit(c: char) -> bool {
    ('0' <= c <= '9') || ('a' <= c <= 'f')
}

/// The value, 0 to 15, of the hexadecimal digit `c`.
pub open spec fn digit_value(c: char) -> int
    recommends
        is_hex_digit(c),
{
    if '0' <= c <= '9' {
        c as int - '0' as int
    } else if 'a' <= c <= 'f' {
        c as int - 'a' as int + 10
    } else {
        c as int - 'A' as int + 10
    }
}

/// The lowercase hexadecimal digit whose value is `n`.
pub open spec fn lower_digit(n: int) -> char
    recommends
        0 <= n < 16,
{
    if n < 10 {
        ('0' as int + n) as char
    } else {
        ('a' as int + n - 10) as char
    }
}

/// The byte written by the digit `high` followed by the digit `low`.
pub open spec fn pair_value(high: char, low: char) -> u8
    recommends
        is_hex_digit(high),
        is_hex_digit(low),
{
    (16 * digit_value(high) + digit_value(low)) as u8
}

/// Whether `digits` is an even number of hexadecimal digits, of either case.
pub open spec fn is_digit_pairs(digits: Seq<char>) -> bool {
    &&& digits.len() % 2 == 0
    &&& forall|i: int| 0 <= i < digits.len() ==> is_hex_digit(#[trigger] digits[i])
}

/// The bytes that a run of digit pairs writes, one byte for each pair, in order.
pub open spec fn pairs_to_bytes(digits: Seq<char>) -> Seq<u8>
    recommends
        is_digit_pairs(digits),
{
    Seq::new(digits.len() / 2, |i: int| pair_value(digits[2 * i], digits[2 * i + 1]))
}

/// The lowercase digits of `bytes`: two for each byte, the high half first.
pub open spec fn lower_hex(bytes: Seq<u8>) -> Seq<char> {
    Seq::new(
        2 * bytes.len(),
        |i: int|
            if i % 2 == 0 {
                lower_digit(bytes[i / 2] as int / 16)
            } else {
                lower_digit(bytes[i / 2] as int % 16)
            },
    )
}

/// Each byte read as the character with the same number.
pub open spec fn bytes_as_chars(bytes: Seq<u8>) -> Seq<char> {
    Seq::new(bytes.len(), |i: int| bytes[i] as char)
}

/// A lowercase digit is a digit, and its value is the number it was made from.
pub proof fn lemma_lower_digit_value(n: int)
    requires
        0 <= n < 16,
    ensures
        is_lower_hex_digit(lower_digit(n)),
        is_hex_digit(lower_digit(n)),
        digit_value(lower_digit(n)) == n,
{
}

/// The lowercase digits of any bytes are an even number of lowercase digits,
/// and reading them back as pairs gives the bytes again.
pub proof fn lemma_lower_hex_pairs(bytes: Seq<u8>)
    ensures
        lower_hex(bytes).len() == 2 * bytes.len(),
        forall|i: int|
            0 <= i < lower_hex(bytes).len() ==> is_lower_hex_digit(#[trigger] lower_hex(bytes)[i]),
        is_digit_pairs(lower_hex(bytes)),
        pairs_to_bytes(lower_hex(bytes)) == bytes,
{
    let digits = lower_hex(bytes);
    assert forall|i: int| 0 <= i < digits.len() implies is_lower_hex_digit(
        #[trigger] digits[i],
    ) && is_hex_digit(digits[i]) by {
        let b = bytes[i / 2] as int;
        lemma_lower_digit_value(b / 16);
        lemma_lower_digit_value(b % 16);
    }
    assert forall|k: int| 0 <= k < bytes.len() implies pairs_to_bytes(digits)[k] == bytes[k] by {
        let b = bytes[k] as int;
        lemma_lower_digit_value(b / 16);
        lemma_lower_digit_value(b % 16);
        assert(digits[2 * k] == lower_digit(b / 16));
        assert(digits[2 * k + 1] == lower_digit(b % 16));
    }
    assert(pairs_to_bytes(digits) =~= bytes);
}

} // verus!
