//! Colors written as six hexadecimal digits, as X resources hold them.

use vstd::prelude::*;
use vstd::string::StrSliceExecFns;

verus! {

/// `c` is one of `0`-`9`, `a`-`f` and `A`-`F`.
pub open spec fn is_hex_digit(c: char) -> bool {
    ||| '0' as u32 <= c as u32 <= '9' as u32
    ||| 'a' as u32 <= c as u32 <= 'f' as u32
    ||| 'A' as u32 <= c as u32 <= 'F' as u32
}

/// What the hexadecimal digit `c` counts for.
pub open spec fn hex_digit_value(c: char) -> nat {
    if '0' as u32 <= c as u32 <= '9' as u32 {
        (c as u32 - '0' as u32) as nat
    } else if 'a' as u32 <= c as u32 <= 'f' as u32 {
        (c as u32 - 'a' as u32 + 10) as nat
    } else {
        (c as u32 - 'A' as u32 + 10) as nat
    }
}

/// Every character of `text` is a hexadecimal digit.
pub open spec fn all_hex(text: Seq<char>) -> bool {
    forall|i: int| 0 <= i < text.len() ==> is_hex_digit(#[trigger] text[i])
}

/// The number that the hexadecimal digits of `digits` write, the first digit
/// counting most.
pub open spec fn hex_value(digits: Seq<char>) -> nat
    decreases digits.len(),
{
    if digits.len() == 0 {
        0
    } else {
        16 * hex_value(digits.drop_last()) + hex_digit_value(digits.last())
    }
}

/// The digits of a number that may be written with a plus sign in front.
pub open spec fn digits_of(text: Seq<char>) -> Seq<char> {
    if text.len() > 0 && text[0] == '+' {
        text.skip(1)
    } else {
        text
    }
}

/// The number that `text` writes: at least one hexadecimal digit, with
/// nothing around the digits but, possibly, a plus sign in front.
pub open spec fn number_of(text: Seq<char>) -> Option<nat> {
    if digits_of(text).len() > 0 && all_hex(digits_of(text)) {
        Some(hex_value(digits_of(text)))
    } else {
        None
    }
}

/// The six characters of `text` that are to write the color: those behind the
/// `#` where `text` is a `#` and six more, `text` itself where it has six.
pub open spec fn color_digits(text: Seq<char>) -> Option<Seq<char>> {
    if text.len() == 7 && text[0] == '#' {
        Some(text.skip(1))
    } else if text.len() == 6 {
        Some(text)
    } else {
        None
    }
}

/// The color that `text` writes, if it writes one.
pub open spec fn color_of(text: Seq<char>) -> Option<u32> {
    match color_digits(text) {
        Some(body) => match number_of(body) {
            Some(value) => Some(value as u32),
            None => None,
        },
        None => None,
    }
}

/// Sixteen to the power of `exponent`.
pub open spec fn pow16(exponent: nat) -> nat
    decreases exponent,
{
    if exponent == 0 {
        1
    } else {
        16 * pow16((exponent - 1) as nat)
    }
}

/// A number of `digits.len()` hexadecimal digits is below sixteen to that
/// power.
pub proof fn lemma_hex_value_bound(digits: Seq<char>)
    requires
        all_hex(digits),
    ensures
        hex_value(digits) < pow16(digits.len()),
    decreases digits.len(),
{
    if digits.len() > 0 {
        lemma_hex_value_bound(digits.drop_last());
    }
}

/// A color of six digits fits in 24 bits.
pub proof fn lemma_color_fits(text: Seq<char>)
    ensures
        color_of(text) matches Some(value) ==> value <= 0xFF_FFFF && number_of(
            color_digits(text).unwrap(),
        ) == Some(value as nat),
{
    if let Some(body) = color_digits(text) {
        if number_of(body).is_some() {
            let digits = digits_of(body);
            lemma_hex_value_bound(digits);
            assert(pow16(digits.len()) <= 0x100_0000) by {
                reveal_with_fuel(pow16, 8);
            }
        }
    }
}

/// The value of `c` as a hexadecimal digit, if it is one.
pub fn hex_digit(c: char) -> (value: Option<u32>)
    ensures
        value == if is_hex_digit(c) {
            Some(hex_digit_value(c) as u32)
        } else {
            None::<u32>
        },
{
    let code: u32 = c as u32;
    if 48 <= code && code <= 57 {
        Some(code - 48)
    } else if 97 <= code && code <= 102 {
        Some(code - 97 + 10)
    } else if 65 <= code && code <= 70 {
        Some(code - 65 + 10)
    } else {
        None
    }
}

/// Reads the six characters of `text` from `from` on as a number.
fn parse_six(text: &str, from: usize) -> (parsed: Option<u32>)
    requires
        from <= 1,
        from + 6 == text@.len(),
    ensures
        parsed == match number_of(text@.skip(from as int)) {
            Some(value) => Some(value as u32),
            None => None::<u32>,
        },
        parsed matches Some(value) ==> number_of(text@.skip(from as int)) == Some(value as nat),
{
    let end: usize = from + 6;
    let ghost body = text@.skip(from as int);
    let start: usize = if text.get_char(from) == '+' { from + 1 } else { from };
    let ghost digits = digits_of(body);
    let mut value: u32 = 0;
    let mut i: usize = start;
    while i < end
        invariant
            start <= i <= end,
            end == text@.len(),
            end - start <= 6,
            digits == text@.subrange(start as int, end as int),
            digits == digits_of(text@.skip(from as int)),
            all_hex(text@.subrange(start as int, i as int)),
            value == hex_value(text@.subrange(start as int, i as int)),
            value < pow16((i - start) as nat),
        decreases end - i,
    {
        let ghost before = text@.subrange(start as int, i as int);
        let ghost after = text@.subrange(start as int, i + 1);
        assert(after.drop_last() =~= before);
        assert(pow16((i - start) as nat) <= 0x10_0000) by {
            reveal_with_fuel(pow16, 8);
        }
        match hex_digit(text.get_char(i)) {
            Some(digit) => {
                assert(all_hex(after));
                value = value * 16 + digit;
                i += 1;
            },
            None => {
                assert(digits[i - start] == text@[i as int]);
                return None;
            },
        }
    }
    Some(value)
}

/// Reads a color of six hexadecimal digits, with or without a `#` in front,
/// as the number `0xRRGGBB`. Anything else is no color, with one exception:
/// the first of the six digits may be a plus sign.
pub fn parse_hex_color(color: &str) -> (parsed: Option<u32>)
    ensures
        parsed == color_of(color@),
        parsed matches Some(value) ==> value <= 0xFF_FFFF,
{
    proof {
        lemma_color_fits(color@);
    }
    let n: usize = color.unicode_len();
    if n == 7 {
        if color.get_char(0) == '#' {
            parse_six(color, 1)
        } else {
            None
        }
    } else if n == 6 {
        assert(color@.skip(0) =~= color@);
        parse_six(color, 0)
    } else {
        None
    }
}

} // verus!
