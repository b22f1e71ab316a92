//! Arithmetic on 16-bit words.
//!
//! A word is an unsigned 16-bit integer. Signed opcodes read the same bits
//! as a two's complement number; every result is taken modulo 2^16.
use vstd::prelude::*;

verus! {

/// The word that an integer stands for: its residue modulo 2^16.
pub open spec fn wrap(i: int) -> u16 {
    (i % 0x1_0000) as u16
}

/// The two's complement reading of a word, in `-0x8000 ..= 0x7fff`.
pub open spec fn signed(w: u16) -> int {
    if w < 0x8000 {
        w as int
    } else {
        w as int - 0x1_0000
    }
}

/// Quotient of `n` by `d`, rounded towards zero (`d` is not zero).
///
/// The built-in quotient rounds so that the remainder is never negative,
/// which is rounding towards zero exactly when `n` is not negative.
pub open spec fn quot(n: int, d: int) -> int {
    if n >= 0 {
        n / d
    } else {
        -((-n) / d)
    }
}

/// Remainder that goes with `quot`: it has the sign of `n`.
pub open spec fn rem(n: int, d: int) -> int {
    if n >= 0 {
        n % d
    } else {
        -((-n) % d)
    }
}

/// `quot` and `rem` split `n` as a division towards zero does.
pub proof fn lemma_quot_rem(n: int, d: int)
    requires
        d != 0,
    ensures
        n == d * quot(n, d) + rem(n, d),
        n >= 0 ==> 0 <= rem(n, d),
        n <= 0 ==> rem(n, d) <= 0,
        d > 0 ==> -d < rem(n, d) < d,
        d < 0 ==> d < rem(n, d) < -d,
{
    let m = if n >= 0 { n } else { -n };
    vstd::arithmetic::div_mod::lemma_fundamental_div_mod(m, d);
    assert(0 <= m % d && (d > 0 ==> m % d < d) && (d < 0 ==> m % d < -d)) by (nonlinear_arith)
        requires
            d != 0,
    ;
    assert(d * (-(m / d)) == -(d * (m / d))) by (nonlinear_arith);
    assert(0int % d == 0) by (nonlinear_arith)
        requires
            d != 0,
    ;
}

/// Dividing never grows the magnitude.
pub proof fn lemma_quot_bound(n: int, d: int)
    requires
        d != 0,
    ensures
        n >= 0 ==> -n <= quot(n, d) <= n,
        n < 0 ==> n <= quot(n, d) <= -n,
{
    let m = if n >= 0 { n } else { -n };
    assert(-m <= m / d <= m) by (nonlinear_arith)
        requires
            m >= 0,
            d != 0,
    ;
}

/// Reads a word as a two's complement number.
pub fn to_signed(w: u16) -> (i: i32)
    ensures
        i == signed(w),
{
    if w < 0x8000 {
        w as i32
    } else {
        w as i32 - 0x1_0000
    }
}

/// Reduces an integer to the word it stands for.
pub fn to_word(i: i64) -> (w: u16)
    ensures
        w == wrap(i as int),
{
    let m: i64 = i % 0x1_0000;
    if m < 0 {
        (m + 0x1_0000) as u16
    } else {
        m as u16
    }
}

/// Quotient rounded towards zero, as the signed division opcodes need it.
fn quot_exec(n: i64, d: i64) -> (q: i64)
    requires
        d != 0,
        -0x1_0000_0000 <= n <= 0x1_0000_0000,
    ensures
        q == quot(n as int, d as int),
{
    proof {
        lemma_quot_bound(n as int, d as int);
    }
    n / d
}

/// Remainder with the sign of the dividend.
fn rem_exec(n: i64, d: i64) -> (r: i64)
    requires
        d != 0,
        -0x1_0000_0000 <= n <= 0x1_0000_0000,
    ensures
        r == rem(n as int, d as int),
{
    proof {
        lemma_quot_rem(n as int, d as int);
    }
    n % d
}

/// The high word of a left shift: the bits that `b << a` pushes out of
/// the low word, computed in 32 bits.
pub open spec fn shl_excess(b: u16, a: u16) -> u16 {
    ((((b as u32) << a) >> 16u32) & 0xffff) as u16
}

/// The low bits that a right shift pushes out of the word: `b`, placed in
/// the high word of 32 bits, shifted right (zeros coming in), low word.
pub open spec fn shr_excess(b: u16, a: u16) -> u16 {
    ((((b as u32) << 16u32) >> a) & 0xffff) as u16
}

/// The word shifted right with its sign bit coming in from the left.
pub open spec fn asr_word(b: u16, a: u16) -> u16 {
    ((b as i16) >> a) as u16
}

/// Sum of two words and a carry: the word, and 1 if it did not fit.
pub fn add_words(b: u16, a: u16, carry: u16) -> (r: (u16, u16))
    ensures
        r.0 == wrap(b + a + carry),
        r.1 == if b + a + carry > 0xffff { 1int } else { 0int },
{
    let sum: u32 = b as u32 + a as u32 + carry as u32;
    ((sum % 0x1_0000) as u16, if sum > 0xffff { 1 } else { 0 })
}

/// Difference of two words plus a carry: the word, 0xffff if the
/// difference fell below zero, 1 if it rose above the word range.
pub fn sub_words(b: u16, a: u16, carry: u16) -> (r: (u16, u16))
    ensures
        r.0 == wrap(b - a + carry),
        r.1 == if b - a + carry < 0 { 0xffffint } else if b - a + carry > 0xffff { 1int } else { 0int },
{
    let diff: i64 = b as i64 - a as i64 + carry as i64;
    (to_word(diff), if diff < 0 { 0xffff } else if diff > 0xffff { 1 } else { 0 })
}

/// Unsigned product: its low word and its high word.
pub fn mul_words(b: u16, a: u16) -> (r: (u16, u16))
    ensures
        r.0 == wrap(b * a),
        r.1 == wrap(b * a / 0x1_0000),
{
    assert(0 <= b * a <= 0xffff * 0xffff) by (nonlinear_arith)
        requires
            0 <= b <= 0xffff,
            0 <= a <= 0xffff,
    ;
    let product: u32 = b as u32 * a as u32;
    ((product % 0x1_0000) as u16, (product / 0x1_0000) as u16)
}

/// Signed product: its low word and its high word.
pub fn mli_words(b: u16, a: u16) -> (r: (u16, u16))
    ensures
        r.0 == wrap(signed(b) * signed(a)),
        r.1 == wrap(signed(b) * signed(a) / 0x1_0000),
{
    let sb: i64 = to_signed(b) as i64;
    let sa: i64 = to_signed(a) as i64;
    assert(-0x4000_0000 <= sb * sa <= 0x4000_0000) by (nonlinear_arith)
        requires
            -0x8000 <= sb <= 0x7fff,
            -0x8000 <= sa <= 0x7fff,
    ;
    let product: i64 = sb * sa;
    let high: i64 = if product >= 0 {
        product / 0x1_0000
    } else {
        -((0xffff - product) / 0x1_0000)
    };
    (to_word(product), to_word(high))
}

/// Unsigned quotient and the fraction behind it: `b / a`, and the low
/// word of `(b << 16) / a`. Both are 0 when `a` is 0.
pub fn div_words(b: u16, a: u16) -> (r: (u16, u16))
    ensures
        r.0 == if a == 0 { 0int } else { b as int / a as int },
        r.1 == if a == 0 { 0u16 } else { wrap(b * 0x1_0000 / a as int) },
{
    if a == 0 {
        (0, 0)
    } else {
        let scaled: u32 = b as u32 * 0x1_0000;
        (b / a, ((scaled / a as u32) % 0x1_0000) as u16)
    }
}

/// Signed quotient, rounded towards zero, and the fraction behind it.
/// Both are 0 when `a` is 0.
pub fn dvi_words(b: u16, a: u16) -> (r: (u16, u16))
    ensures
        r.0 == if a == 0 { 0u16 } else { wrap(quot(signed(b), signed(a))) },
        r.1 == if a == 0 { 0u16 } else { wrap(quot(signed(b) * 0x1_0000, signed(a))) },
{
    if a == 0 {
        (0, 0)
    } else {
        let sb: i64 = to_signed(b) as i64;
        let sa: i64 = to_signed(a) as i64;
        (to_word(quot_exec(sb, sa)), to_word(quot_exec(sb * 0x1_0000, sa)))
    }
}

/// Unsigned remainder; 0 when `a` is 0.
pub fn mod_words(b: u16, a: u16) -> (r: u16)
    ensures
        r == if a == 0 { 0int } else { b as int % a as int },
{
    if a == 0 {
        0
    } else {
        b % a
    }
}

/// Signed remainder, with the sign of `b`; 0 when `a` is 0.
pub fn mdi_words(b: u16, a: u16) -> (r: u16)
    ensures
        r == if a == 0 { 0u16 } else { wrap(rem(signed(b), signed(a))) },
{
    if a == 0 {
        0
    } else {
        to_word(rem_exec(to_signed(b) as i64, to_signed(a) as i64))
    }
}

/// Logical right shift: the word, and the bits shifted out.
pub fn shr_words(b: u16, a: u16) -> (r: (u16, u16))
    ensures
        r.0 == b >> a,
        r.1 == shr_excess(b, a),
{
    if a < 16 {
        (b >> a, ((((b as u32) << 16u32) >> a) & 0xffff) as u16)
    } else if a < 32 {
        assert(b >> a == 0) by (bit_vector)
            requires
                a >= 16,
        ;
        (0, ((((b as u32) << 16u32) >> a) & 0xffff) as u16)
    } else {
        assert(b >> a == 0 && ((((b as u32) << 16u32) >> a) & 0xffff) as u16 == 0) by (bit_vector)
            requires
                a >= 32,
        ;
        (0, 0)
    }
}

/// Arithmetic right shift: the word, and the bits shifted out.
pub fn asr_words(b: u16, a: u16) -> (r: (u16, u16))
    ensures
        r.0 == asr_word(b, a),
        r.1 == shr_excess(b, a),
{
    let excess = shr_words(b, a).1;
    if a < 16 {
        (((b as i16) >> a) as u16, excess)
    } else {
        assert(((b as i16) >> a) as u16 == (if b >= 0x8000 { 0xffffu16 } else { 0u16 })) by (bit_vector)
            requires
                a >= 16,
        ;
        (if b >= 0x8000 { 0xffff } else { 0 }, excess)
    }
}

/// Left shift: the word, and the bits shifted out.
pub fn shl_words(b: u16, a: u16) -> (r: (u16, u16))
    ensures
        r.0 == b << a,
        r.1 == shl_excess(b, a),
{
    if a < 16 {
        (b << a, ((((b as u32) << a) >> 16u32) & 0xffff) as u16)
    } else if a < 32 {
        assert(b << a == 0) by (bit_vector)
            requires
                a >= 16,
        ;
        (0, ((((b as u32) << a) >> 16u32) & 0xffff) as u16)
    } else {
        assert(b << a == 0 && ((((b as u32) << a) >> 16u32) & 0xffff) as u16 == 0) by (bit_vector)
            requires
                a >= 32,
        ;
        (0, 0)
    }
}

} // verus!
