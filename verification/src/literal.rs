//! Number literals: decimal digits, or `0x` and hexadecimal digits, with
//! a value that fits a word.
use crate::text::chars_of;
use vstd::prelude::*;

verus! {

/// The value of a digit character, up to 15 for `f` and `F`.
pub open spec fn digit_value(c: char) -> Option<int> {
    if '0' <= c && c <= '9' {
        Some((c as int) - ('0' as int))
    } else if 'a' <= c && c <= 'f' {
        Some((c as int) - ('a' as int) + 10)
    } else if 'A' <= c && c <= 'F' {
        Some((c as int) - ('A' as int) + 10)
    } else {
        None
    }
}

/// Whether `c` is a digit in base `radix`.
pub open spec fn is_digit(c: char, radix: int) -> bool {
    digit_value(c) matches Some(d) && d < radix
}

/// The number that a sequence of digits writes in base `radix`, the
/// first digit counting most.
pub open spec fn value(digits: Seq<char>, radix: int) -> int
    decreases digits.len(),
{
    if digits.len() == 0 {
        0
    } else {
        value(digits.drop_last(), radix) * radix + digit_value(digits.last())->0
    }
}

/// The number that `digits` writes, if it is one digit or more and
/// nothing else.
pub open spec fn number(digits: Seq<char>, radix: int) -> Option<int> {
    if digits.len() > 0 && forall|i: int| 0 <= i < digits.len() ==> is_digit(#[trigger] digits[i], radix) {
        Some(value(digits, radix))
    } else {
        None
    }
}

/// Whether the token starts with `0x` and goes on.
pub open spec fn has_hex_prefix(token: Seq<char>) -> bool {
    token.len() > 2 && token[0] == '0' && token[1] == 'x'
}

/// The word that a token writes: in decimal, or in hexadecimal behind
/// `0x`. A number above 0xffff is no literal.
pub open spec fn literal_of(token: Seq<char>) -> Option<u16> {
    let n = if has_hex_prefix(token) {
        number(token.skip(2), 16)
    } else {
        number(token, 10)
    };
    match n {
        Some(v) => if v <= 0xffff {
            Some(v as u16)
        } else {
            None
        },
        None => None,
    }
}

/// The value of a digit character in base `radix`, if it is a digit.
fn digit_of(c: char, radix: u32) -> (res: Option<u32>)
    requires
        radix <= 16,
    ensures
        res is Some == is_digit(c, radix as int),
        res matches Some(d) ==> digit_value(c) == Some(d as int),
{
    let d: u32 = if '0' <= c && c <= '9' {
        c as u32 - '0' as u32
    } else if 'a' <= c && c <= 'f' {
        c as u32 - 'a' as u32 + 10
    } else if 'A' <= c && c <= 'F' {
        c as u32 - 'A' as u32 + 10
    } else {
        return None;
    };
    if d < radix {
        Some(d)
    } else {
        None
    }
}

/// Reads the digits from index `from` on as a number in base `radix`
/// that fits a word.
fn parse_number(token: &[char], from: usize, radix: u32) -> (res: Option<u16>)
    requires
        from <= token.len(),
        1 <= radix <= 16,
    ensures
        res == match number(token@.skip(from as int), radix as int) {
            Some(v) => if v <= 0xffff {
                Some(v as u16)
            } else {
                None
            },
            None => None,
        },
{
    let ghost digits = token@.skip(from as int);
    let mut acc: u32 = 0;
    let mut too_large = false;
    let mut i = from;
    while i < token.len()
        invariant
            from <= i <= token.len(),
            1 <= radix <= 16,
            digits == token@.skip(from as int),
            forall|j: int| 0 <= j < i - from ==> is_digit(#[trigger] digits[j], radix as int),
            acc <= 0xffff,
            !too_large ==> acc == value(digits.take(i - from), radix as int),
            too_large ==> value(digits.take(i - from), radix as int) > 0xffff,
        decreases token.len() - i,
    {
        let d = match digit_of(token[i], radix) {
            Some(d) => d,
            None => {
                assert(!is_digit(digits[i - from], radix as int));
                return None;
            },
        };
        proof {
            let before = digits.take(i - from);
            let after = digits.take(i - from + 1);
            assert(after.drop_last() =~= before);
            assert(after.last() == token@[i as int]);
            let v = value(before, radix as int);
            assert(v > 0xffff ==> v * radix + d > 0xffff) by (nonlinear_arith)
                requires
                    radix >= 1,
                    d >= 0,
            ;
            assert(acc * radix + d <= 0xffff * 16 + 16) by (nonlinear_arith)
                requires
                    acc <= 0xffff,
                    radix <= 16,
                    d < radix,
            ;
        }
        if !too_large {
            let next = acc * radix + d;
            if next > 0xffff {
                too_large = true;
            } else {
                acc = next;
            }
        }
        i += 1;
    }
    proof {
        assert(digits.take(i - from) =~= digits);
    }
    if i == from || too_large {
        None
    } else {
        Some(acc as u16)
    }
}

/// Reads a token as a number literal.
pub fn parse(token: &[char]) -> (res: Option<u16>)
    ensures
        res == literal_of(token@),
{
    if token.len() > 2 && token[0] == '0' && token[1] == 'x' {
        parse_number(token, 2, 16)
    } else {
        proof {
            assert(token@.skip(0) =~= token@);
        }
        parse_number(token, 0, 10)
    }
}

/// Reads a token as a number literal.
pub fn try_from(token: &str) -> (res: Option<u16>)
    ensures
        res == literal_of(token@),
{
    let chars = chars_of(token);
    parse(chars.as_slice())
}

} // verus!
