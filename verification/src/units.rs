//! Human-readable quantities.

use vstd::arithmetic::div_mod::*;
use vstd::arithmetic::logarithm::*;
use vstd::arithmetic::power::*;
use vstd::arithmetic::power2::*;
use vstd::prelude::*;

verus! {

/// A kunit of memory is 1024 things (bytes, kilobytes, ...).
pub const KUNIT: usize = 1024;

/// The character of the decimal digit `d`.
pub open spec fn digit(d: nat) -> char
    recommends
        d < 10,
{
    (48 + d) as char
}

/// The decimal digits of `n`, the most significant one first.
pub open spec fn decimal(n: nat) -> Seq<char>
    decreases n,
{
    if n < 10 {
        seq![digit(n)]
    } else {
        decimal(n / 10).push(digit(n % 10))
    }
}

/// The integer nearest to `n / d`; of two that are equally near, the even one.
pub open spec fn nearest(n: nat, d: nat) -> nat
    recommends
        d > 0,
{
    if 2 * (n % d) < d || (2 * (n % d) == d && (n / d) % 2 == 0) {
        n / d
    } else {
        n / d + 1
    }
}

/// The distance between the numbers of 53 significant bits that are next to `n`.
pub open spec fn spacing(n: nat) -> nat
    decreases n,
{
    if n < 0x20_0000_0000_0000 {
        1
    } else {
        2 * spacing(n / 2)
    }
}

/// The number of 53 significant bits that is nearest to `n`.
pub open spec fn double_precision(n: nat) -> nat {
    nearest(n, spacing(n)) * spacing(n)
}

/// How many times a quantity is divided by a kunit to bring it below one.
pub open spec fn unit_index(total: nat) -> nat {
    log(1024, total as int) as nat
}

/// The unit that `total` is given in.
pub open spec fn unit(total: nat) -> nat {
    pow(1024, unit_index(total)) as nat
}

/// `total` in tenths of its unit, to the nearest tenth, after `total` has been brought to double
/// precision.
pub open spec fn tenths(total: nat) -> nat {
    nearest(10 * double_precision(total), unit(total))
}

/// The prefixes of the units from the first kunit on.
pub open spec fn prefixes() -> Seq<char> {
    seq!['K', 'M', 'G', 'T', 'P', 'E']
}

/// The text for a memory size of `total` bytes.
pub open spec fn memory_size_text(total: nat) -> Seq<char> {
    if total < 1024 {
        decimal(total) + seq![' ', 'B']
    } else {
        decimal(tenths(total) / 10) + seq![
            '.',
            digit(tenths(total) % 10),
            ' ',
            prefixes()[unit_index(total) - 1],
            'i',
            'B',
        ]
    }
}

/// The text of the decimal digit `d`.
fn digit_text(d: u64) -> (text: &'static str)
    requires
        d < 10,
    ensures
        text@ == seq![digit(d as nat)],
{
    proof {
        reveal_strlit("0");
        reveal_strlit("1");
        reveal_strlit("2");
        reveal_strlit("3");
        reveal_strlit("4");
        reveal_strlit("5");
        reveal_strlit("6");
        reveal_strlit("7");
        reveal_strlit("8");
        reveal_strlit("9");
    }
    match d {
        0 => "0",
        1 => "1",
        2 => "2",
        3 => "3",
        4 => "4",
        5 => "5",
        6 => "6",
        7 => "7",
        8 => "8",
        _ => "9",
    }
}

/// Writes `n` in decimal.
pub fn decimal_text(n: u64) -> (text: String)
    ensures
        text@ == decimal(n as nat),
    decreases n,
{
    let mut text = if n < 10 {
        String::new()
    } else {
        decimal_text(n / 10)
    };
    text.append(digit_text(n % 10));
    text
}

/// Divides `n` by `d`, to the nearest integer.
fn divide_to_nearest(n: u128, d: u128) -> (q: u128)
    requires
        0 < d,
        d < 0x1_0000_0000_0000_0000,
    ensures
        q == nearest(n as nat, d as nat),
        q <= n / d + 1,
{
    let q: u128 = n / d;
    let r: u128 = n % d;
    if 2 * r < d || (2 * r == d && q % 2 == 0) {
        q
    } else {
        proof {
            if d == 1 {
                assert(n % 1 == 0);
            }
            assert(n / d + 1 <= u128::MAX) by (nonlinear_arith)
                requires
                    d >= 2,
            ;
        }
        q + 1
    }
}

/// The distance between the numbers of 53 significant bits around `n`.
fn compute_spacing(n: u64) -> (s: u128)
    ensures
        s == spacing(n as nat),
        1 <= s <= 0x1000,
{
    let mut rest: u64 = n;
    let mut s: u128 = 1;
    while rest >= 0x20_0000_0000_0000
        invariant
            s * spacing(rest as nat) == spacing(n as nat),
            1 <= s <= 0x1000,
            rest * s <= n,
        decreases rest,
    {
        proof {
            assert(s * (2 * spacing(rest as nat / 2)) == (2 * s) * spacing(rest as nat / 2))
                by (nonlinear_arith);
            assert((rest / 2) * (2 * s) <= rest * s) by (nonlinear_arith);
            assert(s * 0x20_0000_0000_0000 <= rest * s) by (nonlinear_arith)
                requires
                    rest >= 0x20_0000_0000_0000,
            ;
        }
        rest = rest / 2;
        s = 2 * s;
    }
    proof {
        assert(s * 1 == s) by (nonlinear_arith);
    }
    s
}

/// Brings `n` to double precision.
fn to_double_precision(n: u64) -> (m: u128)
    ensures
        m == double_precision(n as nat),
        m <= n + 0x1000,
{
    let s: u128 = compute_spacing(n);
    let q: u128 = divide_to_nearest(n as u128, s);
    proof {
        assert(q * s <= n + s) by (nonlinear_arith)
            requires
                q <= n as u128 / s + 1,
                s >= 1,
        ;
        assert(0 <= q * s) by (nonlinear_arith);
    }
    q * s
}

/// Whether the prefix at `idx` stands for the unit `d`.
spec fn at_prefix(idx: nat, d: nat) -> bool {
    ||| idx == 0 && d == 0x400
    ||| idx == 1 && d == 0x10_0000
    ||| idx == 2 && d == 0x4000_0000
    ||| idx == 3 && d == 0x100_0000_0000
    ||| idx == 4 && d == 0x4_0000_0000_0000
    ||| idx == 5 && d == 0x1000_0000_0000_0000
}

/// Creates a human-readable string representation of a memory size in bytes.
pub fn memory_size(total: usize) -> (text: String)
    ensures
        text@ == memory_size_text(total as nat),
{
    proof {
        reveal_strlit(" B");
        reveal_strlit(".");
        reveal_strlit(" KiB");
        reveal_strlit(" MiB");
        reveal_strlit(" GiB");
        reveal_strlit(" TiB");
        reveal_strlit(" PiB");
        reveal_strlit(" EiB");
    }
    if total < KUNIT {
        let mut text = decimal_text(total as u64);
        text.append(" B");
        assert(text@ =~= memory_size_text(total as nat));
        text
    } else {
        // The index of the prefix, the unit it stands for, and the number of whole units.
        let mut idx: usize = 0;
        let mut d: u64 = 1024;
        let mut n: u64 = total as u64 / 1024;
        proof {
            lemma_log_s(1024, total as int);
            lemma_pow1(1024);
        }
        while n >= 1024
            invariant
                1 <= n,
                n * d <= total,
                at_prefix(idx as nat, d as nat),
                d == pow(1024, (idx + 1) as nat),
                log(1024, total as int) == idx + 1 + log(1024, n as int),
            decreases n,
        {
            proof {
                assert(1024 * d <= n * d) by (nonlinear_arith)
                    requires
                        n >= 1024,
                ;
                lemma_log_s(1024, n as int);
                assert(pow(1024, (idx + 2) as nat) == 1024 * pow(1024, (idx + 1) as nat)) by {
                    reveal(pow);
                }
                assert((n / 1024) * (d * 1024) <= n * d) by (nonlinear_arith)
                    requires
                        d >= 0,
                        n >= 0,
                ;
            }
            d = d * 1024;
            idx = idx + 1;
            n = n / 1024;
        }
        proof {
            lemma_log0(1024, n as int);
        }
        let m: u128 = to_double_precision(total as u64);
        let t: u128 = divide_to_nearest(10 * m, d as u128);
        proof {
            assert((10 * m) / (d as int) <= 10 * m / 1024) by (nonlinear_arith)
                requires
                    d >= 1024,
                    m >= 0,
            ;
        }
        let mut text = decimal_text((t / 10) as u64);
        text.append(".");
        text.append(digit_text((t % 10) as u64));
        text.append(
            match idx {
                0 => " KiB",
                1 => " MiB",
                2 => " GiB",
                3 => " TiB",
                4 => " PiB",
                _ => " EiB",
            },
        );
        assert(text@ =~= memory_size_text(total as nat));
        text
    }
}

/// A quantity has at least one of its units, and less than a kunit of them.
proof fn lemma_unit(total: nat)
    requires
        total >= 1,
    ensures
        unit(total) == pow2(10 * unit_index(total)),
        unit(total) == pow(1024, unit_index(total)),
        1 <= unit(total) <= total < 1024 * unit(total),
        total < 1024 <==> unit_index(total) == 0,
    decreases total,
{
    lemma2_to64();
    if total < 1024 {
        lemma_log0(1024, total as int);
        lemma_pow0(1024);
    } else {
        let part = total / 1024;
        lemma_unit(part);
        lemma_log_s(1024, total as int);
        lemma_log_nonnegative(1024, part as int);
        let k = unit_index(part);
        assert(unit_index(total) == k + 1);
        assert(pow(1024, (k + 1) as nat) == 1024 * pow(1024, k)) by {
            reveal(pow);
        }
        lemma_pow2_adds(10, 10 * k);
        assert(10 + 10 * k == 10 * (k + 1));
    }
}

/// The distance between neighbours of 53 significant bits is a power of two, and small against
/// the numbers themselves.
proof fn lemma_spacing(n: nat) -> (e: nat)
    ensures
        spacing(n) == pow2(e),
        spacing(n) == 1 || spacing(n) * 0x10_0000_0000_0000 <= n,
    decreases n,
{
    lemma2_to64();
    if n < 0x20_0000_0000_0000 {
        0
    } else {
        let e = lemma_spacing(n / 2);
        lemma_pow2_unfold(e + 1);
        e + 1
    }
}

/// The unit of a quantity is a multiple of the distance between neighbours of 53 significant bits.
proof fn lemma_spacing_divides_unit(total: nat) -> (factor: nat)
    requires
        total >= 1,
    ensures
        spacing(total) >= 1,
        unit(total) == spacing(total) * factor,
{
    lemma_unit(total);
    let e = lemma_spacing(total);
    let k = 10 * unit_index(total);
    lemma_pow2_pos(e);
    lemma2_to64();
    if e > k {
        lemma_pow2_strictly_increases(k, e);
        assert(false);
    }
    lemma_pow2_adds(e, (k - e) as nat);
    pow2((k - e) as nat)
}

/// Every quantity from a kunit up to a kunit of the largest unit has a unit with a prefix.
pub proof fn law_unit_has_a_prefix(total: nat)
    requires
        1024 <= total < 0x40_0000_0000_0000_0000,
    ensures
        1 <= unit_index(total) <= prefixes().len(),
        unit(total) <= total < 1024 * unit(total),
{
    lemma_unit(total);
    if unit_index(total) > 6 {
        assert(pow(1024, 7) == 0x40_0000_0000_0000_0000) by {
            reveal_with_fuel(pow, 8);
        }
        lemma_pow_increases(1024, 7, unit_index(total));
    }
}

/// The figure that is shown lies between 1.0 and 1024.0.
pub proof fn law_figure_is_within_a_kunit(total: nat)
    requires
        1024 <= total,
    ensures
        10 <= tenths(total) <= 10240,
{
    lemma_unit(total);
    let factor = lemma_spacing_divides_unit(total);
    let (s, d) = (spacing(total), unit(total));
    let dp = double_precision(total);
    let q = nearest(total, s);
    assert(factor <= total / s < 1024 * factor) by (nonlinear_arith)
        requires
            s >= 1,
            d == s * factor,
            d <= total < 1024 * d,
    ;
    assert(d <= dp <= 1024 * d) by (nonlinear_arith)
        requires
            factor <= q <= 1024 * factor,
            dp == q * s,
            d == s * factor,
            s >= 1,
    ;
    assert(10 <= (10 * dp) / d <= 10240) by (nonlinear_arith)
        requires
            1 <= d <= dp <= 1024 * d,
    ;
    if (10 * dp) / d == 10240 {
        lemma_fundamental_div_mod((10 * dp) as int, d as int);
        assert((10 * dp) % d == 0) by (nonlinear_arith)
            requires
                10 * dp == d * ((10 * dp) / d) + (10 * dp) % d,
                (10 * dp) / d == 10240,
                dp <= 1024 * d,
                d >= 1,
        ;
    }
}

/// A whole number of units is shown exactly.
pub proof fn law_whole_units_are_exact(total: nat, n: nat)
    requires
        1024 <= total,
        total == n * unit(total),
    ensures
        tenths(total) == 10 * n,
{
    lemma_unit(total);
    let factor = lemma_spacing_divides_unit(total);
    let (s, d) = (spacing(total), unit(total));
    let m = n * factor;
    assert(total == m * s) by (nonlinear_arith)
        requires
            total == n * d,
            d == s * factor,
            m == n * factor,
    ;
    lemma_fundamental_div_mod_converse(total as int, s as int, m as int, 0);
    assert(double_precision(total) == total);
    assert(10 * total == (10 * n) * d) by (nonlinear_arith)
        requires
            total == n * d,
    ;
    lemma_fundamental_div_mod_converse((10 * total) as int, d as int, (10 * n) as int, 0);
}

/// The number that a sequence of decimal digits is read as.
pub open spec fn read_decimal(text: Seq<char>) -> int
    decreases text.len(),
{
    if text.len() == 0 {
        0
    } else {
        10 * read_decimal(text.drop_last()) + (text.last() as int - '0' as int)
    }
}

/// What is written in decimal is read as the number that was written. It consists of digits, of
/// which there is at least one, and starts with a zero only where that is the number.
pub proof fn law_decimal_is_read_back(n: nat)
    ensures
        read_decimal(decimal(n)) == n,
        forall|i: int|
            0 <= i < decimal(n).len() ==> '0' as int <= (#[trigger] decimal(n)[i]) as int
                <= '9' as int,
        decimal(n).len() >= 1,
        decimal(n)[0] == '0' <==> n == 0,
    decreases n,
{
    if n < 10 {
        assert(decimal(n).drop_last() =~= Seq::<char>::empty());
        assert(read_decimal(Seq::<char>::empty()) == 0);
        assert(decimal(n).last() as int == 48 + n);
    } else {
        law_decimal_is_read_back(n / 10);
        assert(decimal(n).drop_last() =~= decimal(n / 10));
        assert(decimal(n).last() as int == 48 + n % 10);
        assert(decimal(n)[0] == decimal(n / 10)[0]);
    }
}

/// No integer is nearer to a fraction than the one it is rounded to, and of two that are equally
/// near it is the even one.
pub proof fn law_nearest(n: nat, d: nat)
    requires
        d > 0,
    ensures
        -d <= 2 * (n - nearest(n, d) * d) <= d,
        2 * (n - nearest(n, d) * d) == d || 2 * (n - nearest(n, d) * d) == -d ==> nearest(n, d) % 2
            == 0,
{
    let (q, r) = (n as int / d as int, n as int % d as int);
    lemma_fundamental_div_mod(n as int, d as int);
    lemma_mod_bound(n as int, d as int);
    assert(q * d == d * q && (q + 1) * d == d * q + d) by (nonlinear_arith);
}

/// Up to `2^53` every number has 53 significant bits. From `2^(e + 52)` on and below
/// `2^(e + 53)`, those of 53 significant bits are the multiples of `2^e`.
pub proof fn law_spacing(n: nat, e: nat)
    ensures
        n < 0x20_0000_0000_0000 ==> spacing(n) == 1,
        pow2(e) * 0x10_0000_0000_0000 <= n < pow2(e) * 0x20_0000_0000_0000 ==> spacing(n) == pow2(
            e,
        ),
    decreases e,
{
    lemma2_to64();
    if e > 0 {
        let half = pow2((e - 1) as nat);
        lemma_pow2_unfold(e);
        lemma_pow2_pos((e - 1) as nat);
        law_spacing(n / 2, (e - 1) as nat);
    }
}

/// Double precision brings a number to the nearest multiple of `2^e` if it lies from `2^(e + 52)`
/// on and below `2^(e + 53)`; of two that are equally near, to the one with an even factor.
pub proof fn law_double_precision(n: nat, e: nat)
    requires
        pow2(e) * 0x10_0000_0000_0000 <= n < pow2(e) * 0x20_0000_0000_0000,
    ensures
        ({
            let (s, m) = (pow2(e) as int, double_precision(n) as int);
            &&& m % s == 0
            &&& -s <= 2 * (n - m) <= s
            &&& 2 * (n - m) == s || 2 * (n - m) == -s ==> (m / s) % 2 == 0
        }),
{
    let s = pow2(e);
    lemma_pow2_pos(e);
    law_spacing(n, e);
    law_nearest(n, s);
    lemma_mod_multiples_basic(nearest(n, s) as int, s as int);
    lemma_div_by_multiple(nearest(n, s) as int, s as int);
}

/// Below `2^53` double precision changes nothing.
pub proof fn law_small_numbers_are_precise(n: nat)
    requires
        n < 0x20_0000_0000_0000,
    ensures
        double_precision(n) == n,
{
    law_spacing(n, 0);
    law_nearest(n, 1);
}

/// A size below a kunit is given in bytes. From `1024^e` on and below `1024^(e + 1)` it is given in
/// the unit `1024^e`, by the prefix of that unit: in whole units and tenths, the tenths being the
/// nearest to the size in double precision, and of two that are equally near the even ones.
pub proof fn law_memory_size(total: nat, e: nat, prefix: char)
    requires
        e == 1 && prefix == 'K' || e == 2 && prefix == 'M' || e == 3 && prefix == 'G' || e == 4
            && prefix == 'T' || e == 5 && prefix == 'P' || e == 6 && prefix == 'E',
    ensures
        total < 1024 ==> memory_size_text(total) == decimal(total) + seq![' ', 'B'],
        pow2(10 * e) <= total < pow2(10 * (e + 1)) ==> ({
            let (u, t) = (pow2(10 * e) as int, tenths(total));
            let rest = 10 * double_precision(total) - t * u;
            &&& memory_size_text(total) == decimal(t / 10) + seq!['.'] + decimal(t % 10) + seq![
                ' ',
                prefix,
                'i',
                'B',
            ]
            &&& -u <= 2 * rest <= u
            &&& 2 * rest == u || 2 * rest == -u ==> t % 2 == 0
        }),
{
    lemma2_to64();
    if pow2(10 * e) <= total < pow2(10 * (e + 1)) {
        let k = unit_index(total);
        lemma_pow2_pos(10 * e);
        lemma_unit(total);
        lemma_pow2_adds(10, 10 * k);
        assert(10 + 10 * k == 10 * (k + 1));
        if k < e {
            if k + 1 < e {
                lemma_pow2_strictly_increases(10 * (k + 1), 10 * e);
            }
            assert(false);
        }
        if e < k {
            if e + 1 < k {
                lemma_pow2_strictly_increases(10 * (e + 1), 10 * k);
            }
            assert(false);
        }
        law_nearest(10 * double_precision(total), unit(total));
        lemma_pow2_strictly_increases(0, 10 * e);
        if 10 * e > 10 {
            lemma_pow2_strictly_increases(10, 10 * e);
        }
        assert(total >= 1024);
        let t = tenths(total);
        assert(memory_size_text(total) =~= decimal(t / 10) + seq!['.'] + decimal(t % 10) + seq![
            ' ',
            prefix,
            'i',
            'B',
        ]);
    }
}

} // verus!
