//! Arithmetic on 32-bit machine words.
//!
//! A word is read either as the number it is or, in two's complement, as a signed number. The
//! functions here compute what the arithmetic instructions of the machine yield, and their
//! contracts say so over the integers.

use vstd::arithmetic::div_mod::*;
use vstd::arithmetic::power2::*;
use vstd::bits::*;
use vstd::prelude::*;

verus! {

/// The number of values that a word can take.
pub open spec fn word_count() -> int {
    0x1_0000_0000
}

/// The number that the word `x` stands for in two's complement.
pub open spec fn signed(x: u32) -> int {
    if x < 0x8000_0000 {
        x as int
    } else {
        x - word_count()
    }
}

/// The word that holds the low 32 bits of `n`.
pub open spec fn low_word(n: int) -> u32 {
    (n % word_count()) as u32
}

/// The word that holds bits 32 to 63 of `n`.
pub open spec fn high_word(n: int) -> u32 {
    low_word(n / word_count())
}

/// Whether `n` can be held by a word in two's complement.
pub open spec fn fits_signed(n: int) -> bool {
    -0x8000_0000 <= n < 0x8000_0000
}

/// The absolute value of `n`.
pub open spec fn magnitude(n: int) -> int {
    if n < 0 {
        -n
    } else {
        n
    }
}

/// The quotient of `a` by `b`, rounded towards zero.
pub open spec fn truncated_quotient(a: int, b: int) -> int
    recommends
        b != 0,
{
    if (a < 0) == (b < 0) {
        magnitude(a) / magnitude(b)
    } else {
        -(magnitude(a) / magnitude(b))
    }
}

/// What the division of `a` by `b` leaves when its quotient is rounded towards zero. It is zero
/// or has the sign of `a`.
pub open spec fn truncated_remainder(a: int, b: int) -> int
    recommends
        b != 0,
{
    if a < 0 {
        -(magnitude(a) % magnitude(b))
    } else {
        magnitude(a) % magnitude(b)
    }
}

/// The number made of four bytes, the most significant one first.
pub open spec fn big_endian(b0: u8, b1: u8, b2: u8, b3: u8) -> u32 {
    (b0 * 0x100_0000 + b1 * 0x1_0000 + b2 * 0x100 + b3) as u32
}

/// A word cast to a signed integer is what it stands for in two's complement.
proof fn lemma_cast_to_signed(x: u32)
    ensures
        (x as i32) == signed(x),
{
    assert(x < 0x8000_0000 ==> (x as i32) == x) by (bit_vector);
    assert(x >= 0x8000_0000 ==> (x as i32) == x - 0x1_0000_0000) by (bit_vector);
}

/// A signed integer cast to a word keeps its low 32 bits.
proof fn lemma_cast_to_word(i: i32)
    ensures
        (i as u32) == low_word(i as int),
        signed(low_word(i as int)) == i,
{
    assert(i >= 0 ==> (i as u32) == i) by (bit_vector);
    assert(i < 0 ==> (i as u32) == i + 0x1_0000_0000) by (bit_vector);
}

/// A natural number divided by a negative one gives the negated quotient and the same remainder
/// as when it is divided by the divisor's absolute value.
proof fn lemma_negative_divisor(a: int, b: int)
    requires
        a >= 0,
        b < 0,
    ensures
        a / b == -(a / (-b)),
        a % b == a % (-b),
{
    let q = a / (-b);
    let r = a % (-b);
    lemma_fundamental_div_mod(a, -b);
    assert(a == b * (-q) + r) by (nonlinear_arith)
        requires
            a == (-b) * q + r,
    ;
    assert(a / b == -q && a % b == r) by (nonlinear_arith)
        requires
            a == b * (-q) + r,
            0 <= r < -b,
            b < 0,
    ;
}

/// Neither the quotient nor the remainder of a division exceeds the dividend.
proof fn lemma_division_shrinks(a: int, b: int)
    requires
        a >= 0,
        b > 0,
    ensures
        0 <= a / b <= a,
        0 <= a % b <= a,
        a % b < b,
{
    assert(0 <= a / b <= a && 0 <= a % b <= a) by (nonlinear_arith)
        requires
            a >= 0,
            b > 0,
    ;
}

/// Joins four bytes, the most significant one first, to a word.
pub fn join_bytes(b0: u8, b1: u8, b2: u8, b3: u8) -> (word: u32)
    ensures
        word == big_endian(b0, b1, b2, b3),
{
    assert(((b0 as u32) << 24 | (b1 as u32) << 16 | (b2 as u32) << 8 | (b3 as u32)) == b0
        * 0x100_0000 + b1 * 0x1_0000 + b2 * 0x100 + b3) by (bit_vector);
    ((b0 as u32) << 24) | ((b1 as u32) << 16) | ((b2 as u32) << 8) | (b3 as u32)
}

/// Bits `lowest_bit` to `highest_bit - 1` of `x`, moved down to bit zero.
pub fn bit_field(x: u32, highest_bit: u32, lowest_bit: u32) -> (bits: u32)
    requires
        lowest_bit <= highest_bit,
        lowest_bit < 32,
        highest_bit - lowest_bit < 32,
    ensures
        bits == (x as nat / pow2(lowest_bit as nat)) % pow2((highest_bit - lowest_bit) as nat),
{
    let width: u32 = highest_bit - lowest_bit;
    let shifted: u32 = x >> lowest_bit;
    proof {
        lemma_u32_shr_is_div(x, lowest_bit);
        lemma_u32_low_bits_mask_is_mod(shifted, width as nat);
        lemma_u32_pow2_no_overflow(width as nat);
        lemma_pow2_pos(width as nat);
        lemma_u32_shl_is_mul(1, width);
    }
    let mask: u32 = (1u32 << width) - 1;
    shifted & mask
}

/// Shifts `x` to the right by `by` bits, copies of the sign bit coming in from the left.
pub fn arithmetic_shift_right(x: u32, by: u32) -> (shifted: u32)
    requires
        by < 32,
    ensures
        shifted == low_word(signed(x) / pow2(by as nat) as int),
{
    let res: u32 = ((x as i32) >> by) as u32;
    proof {
        let d = pow2(by as nat) as int;
        lemma_pow2_pos(by as nat);
        if x < 0x8000_0000 {
            assert(((x as i32) >> by) as u32 == x >> by) by (bit_vector)
                requires
                    x < 0x8000_0000,
                    by < 32,
            ;
            lemma_u32_shr_is_div(x, by);
            assert(0 <= x as int / d <= x) by (nonlinear_arith)
                requires
                    d >= 1,
            ;
        } else {
            let c: u32 = !x;
            assert(((x as i32) >> by) as u32 == !((!x) >> by)) by (bit_vector)
                requires
                    x >= 0x8000_0000,
                    by < 32,
            ;
            assert(!x == 0xffff_ffff - x) by (bit_vector);
            let s: u32 = c >> by;
            assert(!s == 0xffff_ffff - s) by (bit_vector);
            lemma_u32_shr_is_div(c, by);
            assert(0 <= c as int / d <= c) by (nonlinear_arith)
                requires
                    d >= 1,
            ;
            let n = signed(x);
            assert(n == -1 - c);
            assert(n / d == -1 - (c as int / d)) by {
                lemma_fundamental_div_mod(c as int, d);
                let q = c as int / d;
                let r = c as int % d;
                assert(n == d * (-1 - q) + (d - 1 - r)) by (nonlinear_arith)
                    requires
                        n == -1 - c,
                        c as int == d * q + r,
                ;
                lemma_fundamental_div_mod_converse(
                    n,
                    d,
                    -1 - q,
                    d - 1 - r,
                );
            }
        }
    }
    res
}

/// A word shifted to the left is multiplied, and keeps the low 32 bits of the product.
pub proof fn lemma_shift_left(x: u32, by: u32)
    requires
        by < 32,
    ensures
        x << by == low_word(x * pow2(by as nat)),
{
    let (wide, wide_by) = (x as u64, by as u64);
    assert(wide << wide_by <= 0xffff_ffff_ffff_ffff) by (bit_vector);
    lemma_u64_pow2_no_overflow(by as nat);
    lemma_pow2_pos(by as nat);
    assert(pow2(by as nat) <= 0x8000_0000) by {
        lemma2_to64();
        if by < 31 {
            lemma_pow2_strictly_increases(by as nat, 31);
        }
    }
    assert(0 <= x * pow2(by as nat) <= 0xffff_ffff * 0x8000_0000) by (nonlinear_arith)
        requires
            0 <= x <= 0xffff_ffff,
            0 <= pow2(by as nat) <= 0x8000_0000,
    ;
    lemma_u64_shl_is_mul(wide, wide_by);
    assert(x << by == (wide << wide_by) % 0x1_0000_0000) by (bit_vector)
        requires
            by < 32,
            wide == x as u64,
            wide_by == by as u64,
    ;
}

/// Counts the zeros that `x` starts with, from its highest bit.
pub fn leading_zeros(x: u32) -> (count: u32)
    ensures
        count <= 32,
        x == 0 ==> count == 32,
        x < pow2((32 - count) as nat),
        x != 0 ==> count < 32 && pow2((31 - count) as nat) <= x,
{
    let count: u32 = x.leading_zeros();
    proof {
        vstd::std_specs::bits::axiom_u32_leading_zeros(x);
        lemma2_to64();
        if count > 0 {
            let above: u32 = (32 - count) as u32;
            lemma_u32_shr_is_div(x, above);
            lemma_pow2_pos(above as nat);
            lemma_fundamental_div_mod(x as int, pow2(above as nat) as int);
            lemma_mod_bound(x as int, pow2(above as nat) as int);
        }
        if count < 32 {
            let top: u32 = (31 - count) as u32;
            let shifted: u32 = x >> top;
            assert(shifted & 1 != 0 ==> shifted >= 1) by (bit_vector);
            lemma_u32_shr_is_div(x, top);
            lemma_pow2_pos(top as nat);
            let d = pow2(top as nat) as int;
            lemma_fundamental_div_mod(x as int, d);
            assert(d * (x as int / d) >= d) by (nonlinear_arith)
                requires
                    x as int / d >= 1,
                    d >= 0,
            ;
        }
    }
    count
}

/// Whether `x` is less than `y` when both are read in two's complement.
pub fn signed_less_than(x: u32, y: u32) -> (less: bool)
    ensures
        less == (signed(x) < signed(y)),
{
    proof {
        lemma_cast_to_signed(x);
        lemma_cast_to_signed(y);
    }
    (x as i32) < (y as i32)
}

/// The product of `x` and `y` in two's complement, where a word can hold it.
pub fn signed_product(x: u32, y: u32) -> (product: u32)
    requires
        fits_signed(signed(x) * signed(y)),
    ensures
        product == low_word(signed(x) * signed(y)),
        signed(product) == signed(x) * signed(y),
{
    proof {
        lemma_cast_to_signed(x);
        lemma_cast_to_signed(y);
    }
    let product: i32 = (x as i32) * (y as i32);
    proof {
        lemma_cast_to_word(product);
    }
    product as u32
}

/// The high and the low word of a double word.
fn split_double(n: u64) -> (words: (u32, u32))
    ensures
        words.0 == n as int / word_count(),
        words.1 == n as int % word_count(),
{
    assert((n >> 32) as u32 == n / 0x1_0000_0000) by (bit_vector);
    assert((n & 0xffff_ffff) as u32 == n % 0x1_0000_0000) by (bit_vector);
    ((n >> 32) as u32, (n & 0xffff_ffff) as u32)
}

/// The high and the low word of the product of `x` and `y`.
pub fn wide_product(x: u32, y: u32) -> (words: (u32, u32))
    ensures
        words.0 == high_word(x * y),
        words.1 == low_word(x * y),
{
    assert(0 <= x * y <= 0xffff_ffff * 0xffff_ffff) by (nonlinear_arith);
    let product: u64 = (x as u64) * (y as u64);
    split_double(product)
}

/// The high and the low word of the product of `x` and `y`, both read in two's complement.
pub fn signed_wide_product(x: u32, y: u32) -> (words: (u32, u32))
    ensures
        words.0 == high_word(signed(x) * signed(y)),
        words.1 == low_word(signed(x) * signed(y)),
{
    let a: i32 = x as i32;
    let b: i32 = y as i32;
    proof {
        lemma_cast_to_signed(x);
        lemma_cast_to_signed(y);
        assert(-0x8000_0000 * 0x8000_0000 <= a * b <= 0x8000_0000 * 0x8000_0000)
            by (nonlinear_arith)
            requires
                -0x8000_0000 <= a <= 0x7fff_ffff,
                -0x8000_0000 <= b <= 0x7fff_ffff,
        ;
    }
    let product: i64 = (a as i64) * (b as i64);
    proof {
        assert(product >= 0 ==> (product as u64) == product) by (bit_vector);
        assert(product < 0 ==> (product as u64) == product + 0x1_0000_0000_0000_0000)
            by (bit_vector);
    }
    split_double(product as u64)
}

/// The quotient and the remainder of `x` by `y`, both read in two's complement, the quotient
/// rounded towards zero.
pub fn signed_division(x: u32, y: u32) -> (words: (u32, u32))
    requires
        y != 0,
        fits_signed(truncated_quotient(signed(x), signed(y))),
    ensures
        words.0 == low_word(truncated_quotient(signed(x), signed(y))),
        words.1 == low_word(truncated_remainder(signed(x), signed(y))),
        signed(words.0) == truncated_quotient(signed(x), signed(y)),
        signed(words.1) == truncated_remainder(signed(x), signed(y)),
{
    let a: i32 = x as i32;
    let b: i32 = y as i32;
    proof {
        lemma_cast_to_signed(x);
        lemma_cast_to_signed(y);
        if b < 0 {
            lemma_negative_divisor(magnitude(a as int), b as int);
        }
        lemma_division_shrinks(magnitude(a as int), magnitude(b as int));
    }
    let q: i32 = a / b;
    let r: i32 = a % b;
    proof {
        assert(q == truncated_quotient(a as int, b as int));
        assert(r == truncated_remainder(a as int, b as int));
        lemma_cast_to_word(q);
        lemma_cast_to_word(r);
    }
    (q as u32, r as u32)
}

/// The two words of a product make up the product.
pub proof fn law_wide_product(x: u32, y: u32)
    ensures
        high_word(x * y) * word_count() + low_word(x * y) == x * y,
{
    assert(0 <= x * y <= 0xffff_ffff * 0xffff_ffff) by (nonlinear_arith)
        requires
            0 <= x <= 0xffff_ffff,
            0 <= y <= 0xffff_ffff,
    ;
}

/// The two words of a product in two's complement make up the product, its sign being in the high
/// one.
pub proof fn law_signed_wide_product(x: u32, y: u32)
    ensures
        signed(high_word(signed(x) * signed(y))) * word_count() + low_word(signed(x) * signed(y))
            == signed(x) * signed(y),
{
    let (a, b) = (signed(x), signed(y));
    assert(-0x8000_0000 * 0x8000_0000 <= a * b <= 0x8000_0000 * 0x8000_0000) by (nonlinear_arith)
        requires
            -0x8000_0000 <= a <= 0x7fff_ffff,
            -0x8000_0000 <= b <= 0x7fff_ffff,
    ;
}

/// Dividend, divisor, quotient and remainder of a division in two's complement belong together,
/// and the remainder is smaller than the divisor and has the sign of the dividend.
pub proof fn law_signed_division(a: int, b: int)
    requires
        b != 0,
    ensures
        a == truncated_quotient(a, b) * b + truncated_remainder(a, b),
        magnitude(truncated_remainder(a, b)) < magnitude(b),
        a >= 0 ==> truncated_remainder(a, b) >= 0,
        a <= 0 ==> truncated_remainder(a, b) <= 0,
{
    let (m, n) = (magnitude(a), magnitude(b));
    lemma_fundamental_div_mod(m, n);
    lemma_mod_bound(m, n);
    let q = m / n;
    let r = m % n;
    assert(q * b == n * q || q * b == -(n * q)) by (nonlinear_arith)
        requires
            n == b || n == -b,
    ;
    assert((-q) * b == -(q * b)) by (nonlinear_arith);
    assert(b > 0 ==> q * b == n * q) by (nonlinear_arith)
        requires
            b > 0 ==> n == b,
    ;
    assert(b < 0 ==> q * b == -(n * q)) by (nonlinear_arith)
        requires
            b < 0 ==> n == -b,
    ;
}

/// In two's complement a word stands for the one number from `-2^31` to `2^31 - 1` that differs
/// from the word by a multiple of `2^32`. These are the numbers that a word can hold.
pub proof fn law_twos_complement(x: u32, n: int)
    ensures
        -0x8000_0000 <= signed(x) <= 0x7fff_ffff,
        (signed(x) - x) % 0x1_0000_0000 == 0,
        -0x8000_0000 <= n <= 0x7fff_ffff && (n - x) % 0x1_0000_0000 == 0 ==> signed(x) == n,
        fits_signed(n) <==> -0x8000_0000 <= n <= 0x7fff_ffff,
        fits_signed(n) ==> signed(low_word(n)) == n,
{
}

/// The low word of a number differs from it by a multiple of `2^32`, and is the number itself if a
/// word can hold it. The high and the low word together differ from the number by a multiple of
/// `2^64`.
pub proof fn law_words_of_a_number(n: int, k: int)
    ensures
        (n - low_word(n)) % 0x1_0000_0000 == 0,
        low_word(n + k * 0x1_0000_0000) == low_word(n),
        0 <= n <= 0xffff_ffff ==> low_word(n) == n,
        (n - (high_word(n) * 0x1_0000_0000 + low_word(n))) % 0x1_0000_0000_0000_0000 == 0,
        0 <= n <= 0xffff_ffff_ffff_ffff ==> n == high_word(n) * 0x1_0000_0000 + low_word(n),
{
}

/// Four bytes are the digits of a word to the base 256, the first one being worth the most.
pub proof fn law_big_endian(b0: u8, b1: u8, b2: u8, b3: u8)
    ensures
        big_endian(b0, b1, b2, b3) == b0 * 256 * 256 * 256 + b1 * 256 * 256 + b2 * 256 + b3,
{
}

/// Quotient and remainder of a division in two's complement are the only two numbers that make up
/// the dividend with a remainder closer to zero than the divisor and not of the opposite sign of
/// the dividend.
pub proof fn law_signed_division_is_unique(a: int, b: int, q: int, r: int)
    requires
        b != 0,
        a == q * b + r,
        b > 0 ==> -b < r < b,
        b < 0 ==> b < r < -b,
        a >= 0 ==> r >= 0,
        a <= 0 ==> r <= 0,
    ensures
        truncated_quotient(a, b) == q,
        truncated_remainder(a, b) == r,
{
    law_signed_division(a, b);
    let (p, s) = (truncated_quotient(a, b), truncated_remainder(a, b));
    assert((q - p) * b == s - r) by (nonlinear_arith)
        requires
            q * b + r == p * b + s,
    ;
    assert(q == p) by (nonlinear_arith)
        requires
            (q - p) * b == s - r,
            b > 0 ==> -b < s - r < b,
            b < 0 ==> b < s - r < -b,
            b != 0,
    ;
}

} // verus!
