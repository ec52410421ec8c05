//! Numbers of the binary64 format, held as integers.
//!
//! The numbers of the format that are not negative, from zero to infinity, are counted in their
//! order: number 0 is zero, number 1 the smallest above it. Up to number 2^53 they lie one unit
//! apart, a unit being 2^-1074; then the distance doubles every 2^52 numbers. In what follows
//! 2^52 is `0x10_0000_0000_0000`.

use crate::text::{
    decimal, digit, digit_char, digits, digits_value, law_digits_read_back,
    law_padded_digits_read_back, padded_decimal, padded_digits,
};
use vstd::prelude::*;

verus! {

/// A number of the binary64 format other than the one that is no number.
#[derive(Clone, Copy, Debug, PartialEq, Eq, Structural)]
pub struct Binary64 {
    pub negative: bool,
    /// The place of its absolute value in the order of the numbers that are not negative.
    pub size: u64,
}

/// The place of infinity.
pub const INFINITY: u64 = 0x7ff0_0000_0000_0000;

/// The `e`-th power of two.
pub open spec fn two(e: nat) -> nat
    decreases e,
{
    if e == 0 {
        1
    } else {
        2 * two((e - 1) as nat)
    }
}

/// The `p`-th power of ten.
pub open spec fn pow10(p: nat) -> nat
    decreases p,
{
    if p == 0 {
        1
    } else {
        10 * pow10((p - 1) as nat)
    }
}

/// How many units number `k` is.
pub open spec fn units(k: nat) -> nat
    decreases k,
{
    if k < 0x20_0000_0000_0000 {
        k
    } else {
        2 * units((k - 0x10_0000_0000_0000) as nat)
    }
}

/// `n / d` rounded to the nearest integer, a tie to the even one.
pub open spec fn rounded_ratio(n: nat, d: nat) -> nat
    recommends
        d > 0,
{
    let q = n / d;
    let r = n % d;
    if 2 * r > d || (2 * r == d && q % 2 == 1) {
        q + 1
    } else {
        q
    }
}

/// The place of the number nearest to `n / d` units, of two the one with the even place.
pub open spec fn nearest(n: nat, d: nat) -> nat
    recommends
        d > 0,
    decreases n - d,
{
    if d == 0 || n < 0x20_0000_0000_0000 * d {
        rounded_ratio(n, d)
    } else {
        0x10_0000_0000_0000 + nearest(n, 2 * d)
    }
}

/// Place `k`, or that of infinity where it lies behind.
pub open spec fn capped(k: nat) -> nat {
    if k > INFINITY {
        INFINITY as nat
    } else {
        k
    }
}

impl Binary64 {
    /// The place of the number in the order of all numbers. The two zeros share theirs.
    pub open spec fn place(&self) -> i128 {
        if self.negative {
            (-(self.size as int)) as i128
        } else {
            self.size as i128
        }
    }

    /// The place of the number in the order of all numbers. The two zeros share theirs.
    #[verifier::when_used_as_spec(place)]
    pub fn order(&self) -> (r: i128)
        ensures
            r == self.place(),
    {
        if self.negative {
            -(self.size as i128)
        } else {
            self.size as i128
        }
    }

    /// The number is neither zero nor infinite.
    pub open spec fn is_factor(self) -> bool {
        0 < self.size < INFINITY
    }
}

/// The product of two numbers, of which the second is neither zero nor infinite.
pub open spec fn product(a: Binary64, b: Binary64) -> Binary64 {
    Binary64 {
        negative: a.negative != b.negative,
        size: if a.size >= INFINITY {
            INFINITY
        } else {
            capped(nearest(units(a.size as nat) * units(b.size as nat), two(1074))) as u64
        },
    }
}

/// The quotient of two numbers, of which the second is neither zero nor infinite.
pub open spec fn quotient(a: Binary64, b: Binary64) -> Binary64 {
    Binary64 {
        negative: a.negative != b.negative,
        size: if a.size >= INFINITY {
            INFINITY
        } else {
            capped(nearest(units(a.size as nat) * two(1074), units(b.size as nat))) as u64
        },
    }
}

/// The number nearest to `n / d`.
pub open spec fn of_ratio(n: nat, d: nat) -> Binary64 {
    Binary64 { negative: false, size: capped(nearest(n * two(1074), d)) as u64 }
}

/// The number nearest to an integer.
pub open spec fn of_integer(n: nat) -> Binary64 {
    of_ratio(n, 1)
}

/// The number that 64 bits stand for, where they stand for one: a sign, then the place.
pub open spec fn of_bits(bits: u64) -> Option<Binary64> {
    let size = bits % 0x8000_0000_0000_0000;
    if size <= INFINITY {
        Some(Binary64 { negative: bits >= 0x8000_0000_0000_0000, size })
    } else {
        None
    }
}

// ---- powers of two ----

/// A power of two is positive.
pub proof fn lemma_two_positive(e: nat)
    ensures
        two(e) >= 1,
    decreases e,
{
    if e > 0 {
        lemma_two_positive((e - 1) as nat);
    }
}

proof fn lemma_two_adds(a: nat, b: nat)
    ensures
        two(a + b) == two(a) * two(b),
    decreases a,
{
    if a > 0 {
        lemma_two_adds((a - 1) as nat, b);
        assert(2 * two((a - 1) as nat) * two(b) == 2 * (two((a - 1) as nat) * two(b)))
            by (nonlinear_arith);
    } else {
        assert(1 * two(b) == two(b)) by (nonlinear_arith);
    }
}

/// A power of ten is positive.
pub proof fn lemma_ten_positive(p: nat)
    ensures
        pow10(p) >= 1,
    decreases p,
{
    if p > 0 {
        lemma_ten_positive((p - 1) as nat);
    }
}

/// Number `j` blocks behind `m` is `m` units, doubled `j` times.
proof fn lemma_units(m: nat, j: nat)
    requires
        m < 0x20_0000_0000_0000,
        j == 0 || m >= 0x10_0000_0000_0000,
    ensures
        units(j * 0x10_0000_0000_0000 + m) == m * two(j),
    decreases j,
{
    if j == 0 {
        assert(m * 1 == m) by (nonlinear_arith);
    } else {
        lemma_units(m, (j - 1) as nat);
        assert(j * 0x10_0000_0000_0000 == (j - 1) * 0x10_0000_0000_0000 + 0x10_0000_0000_0000)
            by (nonlinear_arith);
        assert(j * 0x10_0000_0000_0000 + m - 0x10_0000_0000_0000 == (j - 1) * 0x10_0000_0000_0000 + m);
        assert((j - 1) * 0x10_0000_0000_0000 >= 0) by (nonlinear_arith)
            requires
                j >= 1,
        ;
        assert(2 * (m * two((j - 1) as nat)) == m * (2 * two((j - 1) as nat)))
            by (nonlinear_arith);
    }
}

/// Rounding goes by the ratio alone.
proof fn lemma_rounded_ratio_doubled(n: nat, d: nat)
    requires
        d > 0,
    ensures
        rounded_ratio(2 * n, 2 * d) == rounded_ratio(n, d),
{
    let q = n / d;
    let r = n % d;
    vstd::arithmetic::div_mod::lemma_fundamental_div_mod(n as int, d as int);
    vstd::arithmetic::div_mod::lemma_mod_bound(n as int, d as int);
    assert(2 * n == q * (2 * d) + 2 * r) by (nonlinear_arith)
        requires
            n == d * q + r,
    ;
    vstd::arithmetic::div_mod::lemma_fundamental_div_mod_converse(
        (2 * n) as int,
        (2 * d) as int,
        q as int,
        (2 * r) as int,
    );
}

/// Rounding goes by the ratio alone.
proof fn lemma_rounded_ratio_scaled(n: nat, d: nat, e: nat)
    requires
        d > 0,
    ensures
        rounded_ratio(n * two(e), d * two(e)) == rounded_ratio(n, d),
    decreases e,
{
    if e == 0 {
        assert(n * 1 == n && d * 1 == d) by (nonlinear_arith);
    } else {
        let t = two((e - 1) as nat);
        lemma_two_positive((e - 1) as nat);
        lemma_rounded_ratio_scaled(n, d, (e - 1) as nat);
        assert(d * t > 0) by (nonlinear_arith)
            requires
                d > 0,
                t >= 1,
        ;
        lemma_rounded_ratio_doubled(n * t, d * t);
        assert(n * (2 * t) == 2 * (n * t) && d * (2 * t) == 2 * (d * t)) by (nonlinear_arith);
    }
}

/// The nearest number goes by the ratio alone.
proof fn lemma_nearest_doubled(n: nat, d: nat)
    requires
        d > 0,
    ensures
        nearest(2 * n, 2 * d) == nearest(n, d),
    decreases n - d,
{
    if n < 0x20_0000_0000_0000 * d {
        lemma_rounded_ratio_doubled(n, d);
    } else {
        lemma_nearest_doubled(n, 2 * d);
    }
}

/// The nearest number goes by the ratio alone.
proof fn lemma_nearest_scaled(n: nat, d: nat, e: nat)
    requires
        d > 0,
    ensures
        nearest(n * two(e), d * two(e)) == nearest(n, d),
    decreases e,
{
    if e == 0 {
        assert(n * 1 == n && d * 1 == d) by (nonlinear_arith);
    } else {
        let t = two((e - 1) as nat);
        lemma_two_positive((e - 1) as nat);
        lemma_nearest_scaled(n, d, (e - 1) as nat);
        assert(d * t > 0) by (nonlinear_arith)
            requires
                d > 0,
                t >= 1,
        ;
        lemma_nearest_doubled(n * t, d * t);
        assert(n * (2 * t) == 2 * (n * t) && d * (2 * t) == 2 * (d * t)) by (nonlinear_arith);
    }
}

/// Doubling a ratio of a block or more goes on by one block.
proof fn lemma_nearest_blocks(n: nat, d: nat, e: nat)
    requires
        d > 0,
        n >= 0x10_0000_0000_0000 * d,
    ensures
        nearest(n * two(e), d) == nearest(n, d) + e * 0x10_0000_0000_0000,
    decreases e,
{
    if e == 0 {
        assert(n * 1 == n) by (nonlinear_arith);
    } else {
        let t = two((e - 1) as nat);
        lemma_two_positive((e - 1) as nat);
        lemma_nearest_blocks(n, d, (e - 1) as nat);
        assert(n * (2 * t) == 2 * (n * t)) by (nonlinear_arith);
        assert(n * t >= n) by (nonlinear_arith)
            requires
                t >= 1,
        ;
        lemma_nearest_doubled(n * t, d);
        assert(e * 0x10_0000_0000_0000 == (e - 1) * 0x10_0000_0000_0000 + 0x10_0000_0000_0000)
            by (nonlinear_arith);
    }
}

/// Rounding does not pass a number of the format.
pub proof fn lemma_nearest_below(n: nat, d: nat, k: nat)
    requires
        d > 0,
        n <= d * units(k),
    ensures
        nearest(n, d) <= k,
    decreases n - d,
{
    if n < 0x20_0000_0000_0000 * d {
        let q = n / d;
        let r = n % d;
        vstd::arithmetic::div_mod::lemma_fundamental_div_mod(n as int, d as int);
        vstd::arithmetic::div_mod::lemma_mod_bound(n as int, d as int);
        let bound: nat = if k < 0x20_0000_0000_0000 {
            k
        } else {
            0x20_0000_0000_0000nat
        };
        assert(n <= d * bound) by (nonlinear_arith)
            requires
                n <= d * units(k),
                k < 0x20_0000_0000_0000 ==> units(k) == bound,
                k >= 0x20_0000_0000_0000 ==> bound == 0x20_0000_0000_0000 && n < 0x20_0000_0000_0000 * d,
        ;
        assert(q <= bound && (q == bound ==> r == 0)) by (nonlinear_arith)
            requires
                n == d * q + r,
                0 <= r < d,
                n <= d * bound,
        ;
    } else {
        if k < 0x20_0000_0000_0000 {
            assert(d * k < 0x20_0000_0000_0000 * d) by (nonlinear_arith)
                requires
                    k < 0x20_0000_0000_0000,
                    d > 0,
            ;
        }
        let rest = (k - 0x10_0000_0000_0000) as nat;
        assert(d * (2 * units(rest)) == (2 * d) * units(rest)) by (nonlinear_arith);
        lemma_nearest_below(n, 2 * d, rest);
    }
}

/// Rounding to a number makes nothing of one unit or more.
proof fn lemma_nearest_positive(n: nat, d: nat)
    requires
        0 < d <= n,
    ensures
        nearest(n, d) > 0,
{
    assert(n / d >= 1) by (nonlinear_arith)
        requires
            0 < d <= n,
    ;
}

/// A ratio of moderate numbers is neither zero nor infinite.
proof fn lemma_ratio_in_range(n: nat, d: nat)
    requires
        n < 0x10_0000_0000_0000_0000_0000_0000,
        0 < d < 0x40_0000_0000_0000,
    ensures
        n > 0 ==> nearest(n * two(1074), d) > 0,
        nearest(n * two(1074), d) < INFINITY,
{
    let t = two(1074);
    assert(two(54) == 0x40_0000_0000_0000) by {
        reveal_with_fuel(two, 55);
    }
    lemma_two_adds(54, 1020);
    lemma_two_positive(1020);
    assert(t >= 0x40_0000_0000_0000) by (nonlinear_arith)
        requires
            t == 0x40_0000_0000_0000 * two(1020),
            two(1020) >= 1,
    ;
    if n > 0 {
        assert(n * t >= d) by (nonlinear_arith)
            requires
                n >= 1,
                t >= d,
        ;
        lemma_nearest_positive(n * t, d);
    }
    lemma_units(0x10_0000_0000_0000, 1122);
    lemma_two_adds(48, 1074);
    assert(two(48) == 0x1_0000_0000_0000) by {
        reveal_with_fuel(two, 49);
    }
    let k: nat = 0x4630_0000_0000_0000;
    assert(n * t <= d * units(k)) by (nonlinear_arith)
        requires
            units(k) == 0x10_0000_0000_0000 * (0x1_0000_0000_0000 * t),
            n < 0x10_0000_0000_0000_0000_0000_0000,
            d >= 1,
            t >= 1,
    ;
    lemma_nearest_below(n * t, d, k);
}

/// Rounding keeps the order.
proof fn lemma_nearest_grows(n: nat, m: nat, d: nat)
    requires
        d > 0,
        n <= m,
    ensures
        nearest(n, d) <= nearest(m, d),
    decreases m - d,
{
    let q = n / d;
    let r = n % d;
    let p = m / d;
    let s = m % d;
    vstd::arithmetic::div_mod::lemma_fundamental_div_mod(n as int, d as int);
    vstd::arithmetic::div_mod::lemma_mod_bound(n as int, d as int);
    vstd::arithmetic::div_mod::lemma_fundamental_div_mod(m as int, d as int);
    vstd::arithmetic::div_mod::lemma_mod_bound(m as int, d as int);
    if m < 0x20_0000_0000_0000 * d {
        assert(q <= p && (q == p ==> r <= s)) by (nonlinear_arith)
            requires
                n == d * q + r,
                m == d * p + s,
                n <= m,
                0 <= r < d,
                0 <= s < d,
        ;
    } else if n < 0x20_0000_0000_0000 * d {
        assert(q < 0x20_0000_0000_0000) by (nonlinear_arith)
            requires
                n == d * q + r,
                n < 0x20_0000_0000_0000 * d,
                r >= 0,
                d > 0,
        ;
        assert(m / (2 * d) >= 0x10_0000_0000_0000) by (nonlinear_arith)
            requires
                m >= 0x10_0000_0000_0000 * (2 * d),
                d > 0,
        ;
        assert(nearest(m, 2 * d) >= 0x10_0000_0000_0000);
    } else {
        lemma_nearest_grows(n, m, 2 * d);
    }
}

/// A part of a whole is between 0 and 100 per cent of it.
pub proof fn lemma_per_cent(a: nat, b: nat)
    requires
        a <= b,
        0 < b < 0x10_0000_0000_0000_0000_0000_0000,
    ensures
        0 <= product(quotient(of_integer(a), of_integer(b)), of_integer(100)).place()
            <= of_integer(100).place(),
{
    let t = two(1074);
    lemma_two_positive(1074);
    lemma_ratio_in_range(a, 1);
    lemma_ratio_in_range(b, 1);
    lemma_ratio_in_range(100, 1);
    assert(a * t <= b * t) by (nonlinear_arith)
        requires
            a <= b,
    ;
    lemma_nearest_grows(a * t, b * t, 1);
    let x = of_integer(a).size as nat;
    let y = of_integer(b).size as nat;
    let h = of_integer(100).size as nat;
    lemma_units_grow(x, y);
    lemma_units_grow(0, y);
    // The place of one.
    let one: nat = 0x3ff0_0000_0000_0000;
    lemma_units(0x10_0000_0000_0000, 1022);
    lemma_two_adds(52, 1022);
    assert(two(52) == 0x10_0000_0000_0000) by {
        reveal_with_fuel(two, 53);
    }
    assert(units(one) == t);
    assert(units(x) * t <= units(y) * units(one)) by (nonlinear_arith)
        requires
            units(x) <= units(y),
            units(one) == t,
    ;
    lemma_nearest_below(units(x) * t, units(y), one);
    let q = quotient(of_integer(a), of_integer(b)).size as nat;
    assert(q <= one);
    lemma_units_grow(q, one);
    assert(units(q) * units(h) <= t * units(h)) by (nonlinear_arith)
        requires
            units(q) <= t,
    ;
    lemma_nearest_below(units(q) * units(h), t, h);
}

// ---- arithmetic ----

/// `n / d` rounded to the nearest integer, a tie to the even one.
pub fn round_ratio(n: u128, d: u128) -> (r: u128)
    requires
        0 < d <= u128::MAX / 2,
        n < u128::MAX,
    ensures
        r == rounded_ratio(n as nat, d as nat),
        r <= n + 1,
{
    let q: u128 = n / d;
    let rest: u128 = n % d;
    assert(q <= n) by (nonlinear_arith)
        requires
            q == n / d,
            d > 0,
    ;
    if 2 * rest > d || (2 * rest == d && q % 2 == 1) {
        q + 1
    } else {
        q
    }
}

/// The units of a number, as an integer below two blocks and how often it is doubled.
fn parts(size: u64) -> (r: (u64, u32))
    ensures
        r.0 < 0x20_0000_0000_0000,
        r.1 <= 4095,
        units(size as nat) == r.0 * two(r.1 as nat),
        size > 0 ==> r.0 > 0,
        r.1 > 0 ==> r.0 >= 0x10_0000_0000_0000,
{
    if size < 0x20_0000_0000_0000 {
        assert(size * two(0) == size) by (nonlinear_arith)
            requires
                two(0) == 1,
        ;
        (size, 0)
    } else {
        let j: u64 = size / 0x10_0000_0000_0000 - 1;
        let m: u64 = size % 0x10_0000_0000_0000 + 0x10_0000_0000_0000;
        proof {
            assert(size == j * 0x10_0000_0000_0000 + m) by (nonlinear_arith)
                requires
                    j == size / 0x10_0000_0000_0000 - 1,
                    m == size % 0x10_0000_0000_0000 + 0x10_0000_0000_0000,
            ;
            lemma_units(m as nat, j as nat);
        }
        (m, j as u32)
    }
}

/// The place of the number nearest to `p / q` units, doubled `up` times or halved `down` times.
fn round_scaled(p: u128, q: u128, up: u32, down: u32) -> (r: u64)
    requires
        p < 0x400_0000_0000_0000_0000_0000_0000,
        0 < q < 0x40_0000_0000_0000,
        up <= 10_000,
        up == 0 || down == 0,
    ensures
        r == capped(nearest(p as nat * two(up as nat), q as nat * two(down as nat))),
{
    let ghost whole = nearest(p as nat * two(up as nat), q as nat * two(down as nat));
    let mut n: u128 = p;
    let mut d: u128 = q;
    let mut more: u32 = up;
    let mut less: u32 = down;
    while more > 0 && n / d < 0x10_0000_0000_0000
        invariant
            n < 0x800_0000_0000_0000_0000_0000_0000,
            0 < d < 0x40_0000_0000_0000,
            more <= up,
            more == 0 || less == 0,
            d == q,
            less == down,
            n as nat * two(more as nat) == p as nat * two(up as nat),
        decreases more,
    {
        assert(n < 0x10_0000_0000_0000 * d) by (nonlinear_arith)
            requires
                n / d < 0x10_0000_0000_0000,
                d > 0,
        ;
        assert(2 * n < 0x800_0000_0000_0000_0000_0000_0000) by (nonlinear_arith)
            requires
                n < 0x10_0000_0000_0000 * d,
                d < 0x40_0000_0000_0000,
        ;
        assert(n * (2 * two((more - 1) as nat)) == (2 * n) * two((more - 1) as nat))
            by (nonlinear_arith);
        n = 2 * n;
        more = more - 1;
    }
    let ghost n1 = n;
    while less > 0
        invariant
            n < 0x800_0000_0000_0000_0000_0000_0000,
            0 < d < 0x2000_0000_0000_0000_0000_0000_0000,
            more == 0 || less == 0,
            more > 0 ==> n / d >= 0x10_0000_0000_0000,
            d as nat * two(less as nat) == q as nat * two(down as nat),
            whole == nearest(p as nat * two(up as nat), q as nat * two(down as nat)),
            whole == nearest(
                n as nat * two(more as nat),
                q as nat * two(down as nat),
            ),
        decreases less,
    {
        if d > 2 * n {
            proof {
                let t = two(less as nat);
                lemma_two_positive(less as nat);
                assert(two(0) == 1);
                assert(n as nat * 1 == n) by (nonlinear_arith);
                assert(d * t >= d) by (nonlinear_arith)
                    requires
                        t >= 1,
                ;
                let big = (d * t) as nat;
                assert(2 * n < big);
                vstd::arithmetic::div_mod::lemma_small_mod(n as nat, big);
                vstd::arithmetic::div_mod::lemma_basic_div(n as int, big as int);
            }
            return 0;
        }
        assert(d * (2 * two((less - 1) as nat)) == (2 * d) * two((less - 1) as nat))
            by (nonlinear_arith);
        d = 2 * d;
        less = less - 1;
    }
    proof {
        assert(two(0) == 1);
        assert(d as nat * 1 == d) by (nonlinear_arith);
        if more > 0 {
            assert(n >= 0x10_0000_0000_0000 * d) by (nonlinear_arith)
                requires
                    n / d >= 0x10_0000_0000_0000,
                    d > 0,
            ;
            lemma_nearest_blocks(n as nat, d as nat, more as nat);
        } else {
            assert(n as nat * 1 == n) by (nonlinear_arith);
            assert(0 * 0x10_0000_0000_0000 == 0) by (nonlinear_arith);
        }
    }
    assert(whole == nearest(n as nat, d as nat) + more * 0x10_0000_0000_0000);
    let mut blocks: u128 = 0;
    let ghost near = nearest(n as nat, d as nat);
    while n / d >= 0x20_0000_0000_0000
        invariant
            n < 0x800_0000_0000_0000_0000_0000_0000,
            0 < d < 0x2000_0000_0000_0000_0000_0000_0000,
            blocks < d,
            blocks <= 0x100_0000_0000_0000,
            near == nearest(n as nat, d as nat) + blocks * 0x10_0000_0000_0000,
        decreases n - d,
    {
        assert(n >= 0x20_0000_0000_0000 * d) by (nonlinear_arith)
            requires
                n / d >= 0x20_0000_0000_0000,
                d > 0,
        ;
        assert((blocks + 1) * 0x10_0000_0000_0000 == blocks * 0x10_0000_0000_0000 + 0x10_0000_0000_0000)
            by (nonlinear_arith);
        d = 2 * d;
        blocks = blocks + 1;
    }
    assert(n < 0x20_0000_0000_0000 * d) by (nonlinear_arith)
        requires
            n / d < 0x20_0000_0000_0000,
            d > 0,
    ;
    let m: u128 = round_ratio(n, d);
    let total: u128 = m + (blocks + more as u128) * 0x10_0000_0000_0000;
    assert((blocks + more) * 0x10_0000_0000_0000 == blocks * 0x10_0000_0000_0000 + more * 0x10_0000_0000_0000)
        by (nonlinear_arith);
    if total > INFINITY as u128 {
        INFINITY
    } else {
        total as u64
    }
}

impl Binary64 {
    /// The product of two numbers.
    pub fn times(&self, b: Binary64) -> (r: Binary64)
        requires
            b.is_factor(),
        ensures
            r == product(*self, b),
    {
        let negative: bool = self.negative != b.negative;
        if self.size >= INFINITY {
            return Binary64 { negative, size: INFINITY };
        }
        let (m, i): (u64, u32) = parts(self.size);
        let (n, j): (u64, u32) = parts(b.size);
        let e: u32 = i + j;
        assert(m * n < 0x400_0000_0000_0000_0000_0000_0000) by (nonlinear_arith)
            requires
                0 <= m < 0x20_0000_0000_0000,
                0 <= n < 0x20_0000_0000_0000,
        ;
        let p: u128 = m as u128 * n as u128;
        proof {
            let ti = two(i as nat);
            let tj = two(j as nat);
            lemma_two_adds(i as nat, j as nat);
            assert((m * ti) * (n * tj) == (m * n) * (ti * tj)) by (nonlinear_arith);
            assert(two(0) == 1);
            if e >= 1074 {
                let rest = (e - 1074) as nat;
                lemma_two_adds(rest, 1074);
                assert(p as nat * (two(rest) * two(1074)) == (p as nat * two(rest)) * two(1074))
                    by (nonlinear_arith);
                assert(1 * two(1074) == two(1074)) by (nonlinear_arith);
                lemma_nearest_scaled(p as nat * two(rest), 1, 1074);
                assert(1nat * two(0) == 1) by (nonlinear_arith)
                    requires
                        two(0) == 1,
                ;
            } else {
                let rest = (1074 - e) as nat;
                lemma_two_adds(rest, e as nat);
                lemma_two_positive(rest);
                lemma_nearest_scaled(p as nat, two(rest), e as nat);
                assert(1 * two(rest) == two(rest) && p as nat * two(0) == p) by (nonlinear_arith)
                    requires
                        two(0) == 1,
                ;
            }
        }
        let size: u64 = if e >= 1074 {
            round_scaled(p, 1, e - 1074, 0)
        } else {
            round_scaled(p, 1, 0, 1074 - e)
        };
        Binary64 { negative, size }
    }

    /// The quotient of two numbers.
    pub fn over(&self, b: Binary64) -> (r: Binary64)
        requires
            b.is_factor(),
        ensures
            r == quotient(*self, b),
    {
        let negative: bool = self.negative != b.negative;
        if self.size >= INFINITY {
            return Binary64 { negative, size: INFINITY };
        }
        let (m, i): (u64, u32) = parts(self.size);
        let (n, j): (u64, u32) = parts(b.size);
        let e: u32 = i + 1074;
        proof {
            let ti = two(i as nat);
            lemma_two_adds(i as nat, 1074);
            assert((m * ti) * two(1074) == m * (ti * two(1074))) by (nonlinear_arith);
            assert(two(0) == 1);
            assert(n as nat * two(0) == n && m as nat * two(0) == m) by (nonlinear_arith)
                requires
                    two(0) == 1,
            ;
            if e >= j {
                let rest = (e - j) as nat;
                lemma_two_adds(rest, j as nat);
                assert(m as nat * (two(rest) * two(j as nat)) == (m as nat * two(rest)) * two(
                    j as nat,
                )) by (nonlinear_arith);
                lemma_nearest_scaled(m as nat * two(rest), n as nat, j as nat);
            } else {
                let rest = (j - e) as nat;
                lemma_two_adds(rest, e as nat);
                lemma_two_positive(rest);
                assert(n as nat * (two(rest) * two(e as nat)) == (n as nat * two(rest)) * two(
                    e as nat,
                )) by (nonlinear_arith);
                assert(n as nat * two(rest) > 0) by (nonlinear_arith)
                    requires
                        n > 0,
                        two(rest) >= 1,
                ;
                lemma_nearest_scaled(m as nat, n as nat * two(rest), e as nat);
            }
        }
        let size: u64 = if e >= j {
            round_scaled(m as u128, n as u128, e - j, 0)
        } else {
            round_scaled(m as u128, n as u128, 0, j - e)
        };
        Binary64 { negative, size }
    }

    /// The number nearest to `n / d`.
    pub fn ratio(n: u128, d: u64) -> (r: Binary64)
        requires
            n < 0x10_0000_0000_0000_0000_0000_0000,
            0 < d < 0x40_0000_0000_0000,
        ensures
            r == of_ratio(n as nat, d as nat),
            n > 0 ==> r.is_factor(),
    {
        proof {
            assert(d as nat * two(0) == d) by (nonlinear_arith)
                requires
                    two(0) == 1,
            ;
            lemma_ratio_in_range(n as nat, d as nat);
        }
        Binary64 { negative: false, size: round_scaled(n, d as u128, 1074, 0) }
    }

    /// The number nearest to an integer.
    pub fn integer(n: u128) -> (r: Binary64)
        requires
            n < 0x10_0000_0000_0000_0000_0000_0000,
        ensures
            r == of_integer(n as nat),
            n > 0 ==> r.is_factor(),
    {
        Binary64::ratio(n, 1)
    }

    /// The number that 64 bits stand for, where they stand for one: a sign, then the place.
    pub fn from_bits(bits: u64) -> (r: Option<Binary64>)
        ensures
            r == of_bits(bits),
    {
        let size: u64 = bits % 0x8000_0000_0000_0000;
        if size <= INFINITY {
            Some(Binary64 { negative: bits >= 0x8000_0000_0000_0000, size })
        } else {
            None
        }
    }
}

// ---- decimal places ----

/// `q` units of the `places`-th place behind the point, written with that many places.
pub open spec fn placed(q: nat, places: nat) -> Seq<char> {
    if places == 0 {
        digits(q)
    } else {
        digits(q / pow10(places)) + "."@ + padded_digits(q % pow10(places), places)
    }
}

/// The number rounded to `places` places behind the point, a tie to the even digit; a negative
/// number keeps its sign.
pub open spec fn fixed_text(x: Binary64, places: nat) -> Seq<char> {
    let shown = if x.size >= INFINITY {
        "inf"@
    } else {
        placed(rounded_ratio(units(x.size as nat) * pow10(places), two(1074)), places)
    };
    if x.negative {
        "-"@ + shown
    } else {
        shown
    }
}

/// `n` halved `k` times, rounded to the nearest integer.
fn round_halved(n: u128, k: u32) -> (r: u128)
    requires
        n < 0x10_0000_0000_0000_0000_0000_0000,
    ensures
        r == rounded_ratio(n as nat, two(k as nat)),
        r <= n + 1,
{
    let mut d: u128 = 1;
    let mut less: u32 = k;
    assert(1 * two(k as nat) == two(k as nat)) by (nonlinear_arith);
    while less > 0
        invariant
            n < 0x10_0000_0000_0000_0000_0000_0000,
            0 < d < 0x80_0000_0000_0000_0000_0000_0000,
            d as nat * two(less as nat) == two(k as nat),
        decreases less,
    {
        if d > 2 * n {
            proof {
                let t = two(less as nat);
                lemma_two_positive(less as nat);
                assert(d * t >= d) by (nonlinear_arith)
                    requires
                        t >= 1,
                ;
                let big = (d * t) as nat;
                vstd::arithmetic::div_mod::lemma_small_mod(n as nat, big);
                vstd::arithmetic::div_mod::lemma_basic_div(n as int, big as int);
            }
            return 0;
        }
        assert(d * (2 * two((less - 1) as nat)) == (2 * d) * two((less - 1) as nat))
            by (nonlinear_arith);
        d = 2 * d;
        less = less - 1;
    }
    assert(d as nat * 1 == d) by (nonlinear_arith);
    round_ratio(n, d)
}

/// The `p`-th power of ten, for few places.
fn power_of_ten(p: u64) -> (r: u64)
    requires
        p <= 6,
    ensures
        r == pow10(p as nat),
        1 <= r <= 1_000_000,
        p > 0 ==> r >= 10,
{
    proof {
        reveal_with_fuel(pow10, 8);
    }
    match p {
        0 => 1,
        1 => 10,
        2 => 100,
        3 => 1_000,
        4 => 10_000,
        5 => 100_000,
        _ => 1_000_000,
    }
}

/// The decimal digits of `n`; none for zero.
spec fn bare(n: nat) -> Seq<u8>
    decreases n,
{
    if n == 0 {
        Seq::empty()
    } else {
        bare(n / 10).push((n % 10) as u8)
    }
}

/// The characters of digits.
spec fn written(s: Seq<u8>) -> Seq<char> {
    s.map_values(|d: u8| digit_char(d as int))
}

proof fn lemma_bare(n: nat)
    requires
        n > 0,
    ensures
        digits(n) == written(bare(n)),
        forall|i: int| 0 <= i < bare(n).len() ==> (#[trigger] bare(n)[i]) < 10,
    decreases n,
{
    if n < 10 {
        assert(bare(n / 10) =~= Seq::empty());
        assert(digits(n) =~= written(bare(n)));
    } else {
        lemma_bare(n / 10);
        assert(digits(n) =~= written(bare(n)));
    }
}

/// The digits of an integer.
fn split_digits(n: u64) -> (r: Vec<u8>)
    ensures
        r@ == bare(n as nat),
    decreases n,
{
    if n == 0 {
        Vec::new()
    } else {
        let mut r: Vec<u8> = split_digits(n / 10);
        r.push((n % 10) as u8);
        r
    }
}

/// The digits of twice an integer and `carry`. The first `k` of `ds` are those of the integer.
fn double_digits(ds: &Vec<u8>, k: usize, carry: u8, Ghost(n): Ghost<nat>) -> (r: Vec<u8>)
    requires
        k <= ds@.len(),
        ds@.take(k as int) == bare(n),
        carry <= 1,
    ensures
        r@ == bare(2 * n + carry as nat),
    decreases k,
{
    if k == 0 {
        proof {
            if n > 0 {
                assert(bare(n).len() > 0);
            }
            assert(bare(0nat) =~= Seq::empty());
            assert(bare(1nat) =~= seq![1u8]) by {
                reveal_with_fuel(bare, 2);
            }
        }
        let mut r: Vec<u8> = Vec::new();
        if carry > 0 {
            r.push(carry);
        }
        assert(r@ =~= bare(2 * n + carry as nat));
        return r;
    }
    let b: u8 = ds[k - 1];
    proof {
        assert(ds@.take(k as int).last() == b);
        assert(n > 0);
        assert(ds@.take(k - 1) =~= ds@.take(k as int).drop_last());
        assert(bare(n).drop_last() =~= bare(n / 10));
        assert(b == n % 10);
    }
    let t: u8 = 2 * b + carry;
    let mut r: Vec<u8> = double_digits(ds, k - 1, t / 10, Ghost(n / 10));
    r.push(t % 10);
    proof {
        let w = 2 * n + carry as nat;
        assert(w / 10 == 2 * (n / 10) + (t / 10) as nat);
        assert(w % 10 == (t % 10) as nat);
    }
    r
}

/// `m`, doubled `i` times, in decimal.
fn big_text(m: u64, i: u32) -> (r: String)
    requires
        m > 0,
    ensures
        r@ == digits(m as nat * two(i as nat)),
{
    let mut ds: Vec<u8> = split_digits(m);
    let mut left: u32 = i;
    let ghost mut n: nat = m as nat;
    while left > 0
        invariant
            ds@ == bare(n),
            n * two(left as nat) == m as nat * two(i as nat),
        decreases left,
    {
        assert(ds@.take(ds@.len() as int) =~= ds@);
        ds = double_digits(&ds, ds.len(), 0, Ghost(n));
        proof {
            assert(n * (2 * two((left - 1) as nat)) == (2 * n) * two((left - 1) as nat))
                by (nonlinear_arith);
            n = 2 * n;
        }
        left = left - 1;
    }
    proof {
        lemma_two_positive(i as nat);
        assert(m as nat * two(i as nat) > 0) by (nonlinear_arith)
            requires
                m > 0,
                two(i as nat) >= 1,
        ;
        assert(n * 1 == n) by (nonlinear_arith);
        lemma_bare(n);
    }
    let mut r: String = String::new();
    let mut k: usize = 0;
    assert(r@ =~= written(ds@.take(0)));
    while k < ds.len()
        invariant
            k <= ds@.len(),
            ds@ == bare(n),
            forall|j: int| 0 <= j < bare(n).len() ==> (#[trigger] bare(n)[j]) < 10,
            r@ == written(ds@.take(k as int)),
        decreases ds@.len() - k,
    {
        assert(bare(n)[k as int] < 10);
        r.append(digit(ds[k] as u64));
        k = k + 1;
        assert(r@ =~= written(ds@.take(k as int)));
    }
    assert(ds@.take(k as int) =~= ds@);
    r
}

/// A number of `j` doublings beyond the point is whole: its places are zeros.
proof fn lemma_whole_places(m: nat, e: nat, places: nat)
    ensures
        ({
            let q = rounded_ratio((m * two(e + 1074)) * pow10(places), two(1074));
            &&& q / pow10(places) == m * two(e)
            &&& q % pow10(places) == 0
        }),
{
    let v = m * two(e);
    let t = pow10(places);
    let u = two(1074);
    lemma_ten_positive(places);
    lemma_two_positive(1074);
    lemma_two_adds(e, 1074);
    assert((m * (two(e) * u)) * t == (v * t) * u) by (nonlinear_arith)
        requires
            v == m * two(e),
    ;
    vstd::arithmetic::div_mod::lemma_fundamental_div_mod_converse(
        ((v * t) * u) as int,
        u as int,
        (v * t) as int,
        0,
    );
    vstd::arithmetic::div_mod::lemma_fundamental_div_mod_converse(
        (v * t) as int,
        t as int,
        v as int,
        0,
    );
}

/// `q` units of the last of the places, written.
fn write_places(q: u128, places: u64) -> (r: String)
    requires
        places <= 6,
        q / (pow10(places as nat) as u128) <= u64::MAX,
    ensures
        r@ == placed(q as nat, places as nat),
{
    if places == 0 {
        proof {
            reveal_with_fuel(pow10, 2);
            assert(q / 1u128 == q);
        }
        return decimal(q as u64);
    }
    let unit: u128 = power_of_ten(places) as u128;
    let mut r: String = decimal((q / unit) as u64);
    r.append(".");
    r.append(padded_decimal((q % unit) as u64, places).as_str());
    r
}

impl Binary64 {
    /// The number without its sign, rounded to `places` places behind the point.
    fn fixed_size(&self, places: u64) -> (r: String)
        requires
            places <= 6,
            self.size < INFINITY,
        ensures
            r@ == placed(
                rounded_ratio(units(self.size as nat) * pow10(places as nat), two(1074)),
                places as nat,
            ),
    {
        let (m, j): (u64, u32) = parts(self.size);
        let unit: u64 = power_of_ten(places);
        if j <= 1074 {
            assert(m * unit < 0x10_0000_0000_0000_0000_0000_0000) by (nonlinear_arith)
                requires
                    0 <= m < 0x20_0000_0000_0000,
                    1 <= unit <= 1_000_000,
            ;
            let n: u128 = m as u128 * unit as u128;
            proof {
                let k = (1074 - j) as nat;
                lemma_two_adds(k, j as nat);
                lemma_two_positive(k);
                assert((m * two(j as nat)) * unit == (m * unit) * two(j as nat))
                    by (nonlinear_arith);
                lemma_rounded_ratio_scaled(n as nat, two(k), j as nat);
            }
            let q: u128 = round_halved(n, 1074 - j);
            assert(q / (unit as u128) <= u64::MAX) by (nonlinear_arith)
                requires
                    q <= m * unit + 1,
                    0 <= m < 0x20_0000_0000_0000,
                    1 <= unit <= 1_000_000,
            ;
            write_places(q, places)
        } else {
            proof {
                lemma_whole_places(m as nat, (j - 1074) as nat, places as nat);
                assert(two(j as nat) == two(((j - 1074) + 1074) as nat));
            }
            let mut r: String = big_text(m, j - 1074);
            if places > 0 {
                r.append(".");
                r.append(padded_decimal(0, places).as_str());
            } else {
                proof {
                    reveal_with_fuel(pow10, 2);
                    let q = rounded_ratio(
                        units(self.size as nat) * pow10(places as nat),
                        two(1074),
                    );
                    vstd::arithmetic::div_mod::lemma_div_basics(q as int);
                }
            }
            r
        }
    }

    /// The number rounded to `places` places behind the point.
    pub fn fixed(&self, places: u64) -> (r: String)
        requires
            places <= 6,
        ensures
            r@ == fixed_text(*self, places as nat),
    {
        let shown: String = if self.size >= INFINITY {
            "inf".to_owned()
        } else {
            self.fixed_size(places)
        };
        if self.negative {
            let mut r: String = "-".to_owned();
            r.append(shown.as_str());
            r
        } else {
            shown
        }
    }
}

// ---- whole numbers ----

/// An integer that does not fit is the nearest that does.
pub open spec fn clamped(n: int) -> int {
    if n > i64::MAX {
        i64::MAX as int
    } else if n < i64::MIN {
        i64::MIN as int
    } else {
        n
    }
}

/// The whole part of the number, as far as it fits.
pub open spec fn truncated(x: Binary64) -> int {
    let whole = units(x.size as nat) / two(1074);
    clamped(
        if x.negative {
            -(whole as int)
        } else {
            whole as int
        },
    )
}

/// The integer nearest to the number, a half away from zero, as far as it fits.
pub open spec fn rounded_away(x: Binary64) -> int {
    let whole = (2 * units(x.size as nat) / two(1074) + 1) / 2;
    clamped(
        if x.negative {
            -(whole as int)
        } else {
            whole as int
        },
    )
}

/// A quotient goes by the ratio alone.
proof fn lemma_quotient_scaled(n: nat, d: nat, t: nat)
    requires
        d > 0,
        t > 0,
    ensures
        (n * t) / (d * t) == n / d,
{
    let q = n / d;
    let r = n % d;
    vstd::arithmetic::div_mod::lemma_fundamental_div_mod(n as int, d as int);
    vstd::arithmetic::div_mod::lemma_mod_bound(n as int, d as int);
    assert(n * t == q * (d * t) + r * t && 0 <= r * t < d * t) by (nonlinear_arith)
        requires
            n == d * q + r,
            0 <= r < d,
            t > 0,
    ;
    vstd::arithmetic::div_mod::lemma_fundamental_div_mod_converse(
        (n * t) as int,
        (d * t) as int,
        q as int,
        (r * t) as int,
    );
}

/// The whole part of `m` units doubled `j` times, or the greatest integer where it is greater.
fn whole_units(m: u64, j: u32) -> (r: u64)
    ensures
        r == if m as nat * two(j as nat) / two(1074) > u64::MAX {
            u64::MAX as nat
        } else {
            m as nat * two(j as nat) / two(1074)
        },
{
    let ghost whole = m as nat * two(j as nat) / two(1074);
    proof {
        lemma_two_positive(1074);
    }
    let mut v: u64 = m;
    if j >= 1074 {
        let mut left: u32 = j - 1074;
        proof {
            lemma_two_adds(left as nat, 1074);
            assert(m as nat * (two(left as nat) * two(1074)) == (m as nat * two(left as nat)) * two(
                1074,
            )) by (nonlinear_arith);
            vstd::arithmetic::div_mod::lemma_div_multiples_vanish(
                (m as nat * two(left as nat)) as int,
                two(1074) as int,
            );
        }
        while left > 0
            invariant
                whole == m as nat * two(j as nat) / two(1074),
                v as nat * two(left as nat) == whole,
            decreases left,
        {
            let t: Ghost<nat> = Ghost(two((left - 1) as nat));
            proof {
                lemma_two_positive((left - 1) as nat);
                assert(v * (2 * t@) == (2 * v) * t@) by (nonlinear_arith);
            }
            if v >= 0x8000_0000_0000_0000 {
                assert((2 * v) * t@ >= 2 * v) by (nonlinear_arith)
                    requires
                        t@ >= 1,
                ;
                return u64::MAX;
            }
            v = 2 * v;
            left = left - 1;
        }
        assert(v as nat * 1 == v) by (nonlinear_arith);
        v
    } else {
        let mut left: u32 = 1074 - j;
        proof {
            lemma_two_adds(left as nat, j as nat);
            lemma_two_positive(left as nat);
            lemma_two_positive(j as nat);
            lemma_quotient_scaled(m as nat, two(left as nat), two(j as nat));
        }
        while left > 0
            invariant
                whole == m as nat * two(j as nat) / two(1074),
                v as nat / two(left as nat) == whole,
            decreases left,
        {
            proof {
                lemma_two_positive((left - 1) as nat);
                vstd::arithmetic::div_mod::lemma_div_denominator(
                    v as int,
                    2,
                    two((left - 1) as nat) as int,
                );
            }
            v = v / 2;
            left = left - 1;
        }
        proof {
            vstd::arithmetic::div_mod::lemma_div_basics(v as int);
        }
        v
    }
}

impl Binary64 {
    /// `whole` with the sign of the number, as far as it fits.
    fn signed(&self, whole: u64) -> (r: i64)
        ensures
            r == clamped(
                if self.negative {
                    -(whole as int)
                } else {
                    whole as int
                },
            ),
    {
        if self.negative {
            if whole >= 0x8000_0000_0000_0000 {
                i64::MIN
            } else {
                -(whole as i64)
            }
        } else if whole > i64::MAX as u64 {
            i64::MAX
        } else {
            whole as i64
        }
    }

    /// The whole part of the number, as far as it fits.
    pub fn truncate(&self) -> (r: i64)
        ensures
            r == truncated(*self),
    {
        let (m, j): (u64, u32) = parts(self.size);
        self.signed(whole_units(m, j))
    }

    /// The integer nearest to the number, a half away from zero, as far as it fits.
    pub fn round_away(&self) -> (r: i64)
        ensures
            r == rounded_away(*self),
    {
        let (m, j): (u64, u32) = parts(self.size);
        assert(2 * (m * two(j as nat)) == (2 * m) * two(j as nat)) by (nonlinear_arith);
        let w: u64 = whole_units(2 * m, j);
        self.signed(((w as u128 + 1) / 2) as u64)
    }
}

// ---- angles ----

/// The place of an angle in degrees, less whole turns: from 0 to 360. An angle just below zero
/// rounds to 360.
pub open spec fn in_one_turn(x: Binary64) -> nat {
    let full = 360 * two(1074);
    let r = units(x.size as nat) % full;
    if x.negative && r > 0 {
        nearest((full - r) as nat, 1)
    } else {
        nearest(r, 1)
    }
}

/// The place of 360.
pub const TURN: u64 = 0x4076_8000_0000_0000;

proof fn lemma_two_small()
    ensures
        two(3) == 8,
        two(47) == 0x8000_0000_0000,
        two(53) == 0x20_0000_0000_0000,
{
    reveal_with_fuel(two, 54);
}

/// A turn in units.
proof fn lemma_turn()
    ensures
        units(TURN as nat) == 360 * two(1074),
        360 * two(1074) == 45 * two(1077),
        360 * two(1074) == 0x16_8000_0000_0000 * two(1030),
{
    lemma_two_small();
    lemma_units(0x16_8000_0000_0000, 1030);
    lemma_two_adds(3, 1074);
    lemma_two_adds(47, 1030);
    assert(two(1077) == 8 * two(1074));
    lemma_two_adds(44, 1030);
    assert(two(44) == 0x1000_0000_0000) by {
        reveal_with_fuel(two, 45);
    }
    assert(360 * (0x1000_0000_0000 * two(1030)) == 0x16_8000_0000_0000 * two(1030))
        by (nonlinear_arith);
}

/// The number nearest to a ratio between the ends of a block.
proof fn lemma_nearest_in_block(n: nat, d: nat, j: nat)
    requires
        d > 0,
        n < 0x20_0000_0000_0000 * (d * two(j)),
        j > 0 ==> n >= 0x20_0000_0000_0000 * (d * two((j - 1) as nat)),
    ensures
        nearest(n, d) == j * 0x10_0000_0000_0000 + rounded_ratio(n, d * two(j)),
    decreases j,
{
    if j == 0 {
        assert(d * 1 == d) by (nonlinear_arith);
    } else {
        let t = two((j - 1) as nat);
        lemma_two_positive((j - 1) as nat);
        assert(d * t >= d) by (nonlinear_arith)
            requires
                t >= 1,
        ;
        assert(d * (2 * t) == (2 * d) * t) by (nonlinear_arith);
        if j > 1 {
            let u = two((j - 2) as nat);
            assert(d * (2 * u) == (2 * d) * u) by (nonlinear_arith);
        }
        lemma_nearest_in_block(n, 2 * d, (j - 1) as nat);
    }
}

/// An angle so near to a turn that it rounds to one.
proof fn lemma_near_turn(r: nat)
    requires
        0 < 2 * r < two(1030),
    ensures
        nearest((360 * two(1074) - r) as nat, 1) == TURN,
{
    lemma_turn();
    let big = two(1030);
    let m: nat = 0x16_8000_0000_0000;
    let n = (m * big - r) as nat;
    assert(two(1030) == 2 * two(1029));
    lemma_nearest_in_block(n, 1, 1030);
    assert(n == (m - 1) * big + (big - r)) by (nonlinear_arith)
        requires
            n == m * big - r,
    ;
    vstd::arithmetic::div_mod::lemma_fundamental_div_mod_converse(
        n as int,
        big as int,
        m - 1,
        big - r,
    );
}

/// A remainder goes by the ratio alone.
proof fn lemma_remainder_scaled(n: nat, d: nat, t: nat)
    requires
        d > 0,
        t > 0,
    ensures
        (n * t) % (d * t) == (n % d) * t,
{
    let q = n / d;
    let r = n % d;
    vstd::arithmetic::div_mod::lemma_fundamental_div_mod(n as int, d as int);
    vstd::arithmetic::div_mod::lemma_mod_bound(n as int, d as int);
    assert(n * t == q * (d * t) + r * t && 0 <= r * t < d * t) by (nonlinear_arith)
        requires
            n == d * q + r,
            0 <= r < d,
            t > 0,
    ;
    vstd::arithmetic::div_mod::lemma_fundamental_div_mod_converse(
        (n * t) as int,
        (d * t) as int,
        q as int,
        (r * t) as int,
    );
}

/// The remainder of `m`, doubled `i` times, when divided by 45.
fn remainder_45(m: u64, i: u32) -> (r: u64)
    ensures
        r == (m as nat * two(i as nat)) % 45,
        r < 45,
{
    let mut v: u64 = m % 45;
    let mut left: u32 = i;
    proof {
        vstd::arithmetic::div_mod::lemma_mul_mod_noop_left(m as int, two(i as nat) as int, 45);
    }
    while left > 0
        invariant
            v < 45,
            (v as nat * two(left as nat)) % 45 == (m as nat * two(i as nat)) % 45,
        decreases left,
    {
        proof {
            let t = two((left - 1) as nat);
            assert(v * (2 * t) == (2 * v) * t) by (nonlinear_arith);
            vstd::arithmetic::div_mod::lemma_mul_mod_noop_left(2 * v as int, t as int, 45);
        }
        v = (2 * v) % 45;
        left = left - 1;
    }
    assert(v as nat * 1 == v) by (nonlinear_arith);
    v
}

/// `45` doubled `k` times.
fn turns_of(k: u32) -> (r: u128)
    requires
        k <= 100,
    ensures
        r == 45 * two(k as nat),
        r <= 0x300_0000_0000_0000_0000_0000_0000,
        r >= 45,
        k <= 52 ==> r <= 0x400_0000_0000_0000,
{
    let mut v: u128 = 45;
    let mut i: u32 = 0;
    let ghost mut t: nat = 1;
    while i < k
        invariant
            i <= k <= 100,
            t == two(i as nat),
            v == 45 * t,
            1 <= t <= 0x10_0000_0000_0000_0000_0000_0000,
            i <= 52 ==> t <= 0x10_0000_0000_0000,
            i < 100 ==> 2 * t <= 0x10_0000_0000_0000_0000_0000_0000,
            i < 52 ==> 2 * t <= 0x10_0000_0000_0000,
        decreases k - i,
    {
        proof {
            lemma_two_bound((i + 1) as nat);
            lemma_two_bound((i + 2) as nat);
            t = 2 * t;
        }
        v = 2 * v;
        i = i + 1;
    }
    v
}

/// Powers of two grow.
proof fn lemma_two_grows(a: nat, b: nat)
    requires
        a <= b,
    ensures
        two(a) <= two(b),
{
    lemma_two_adds(a, (b - a) as nat);
    lemma_two_positive((b - a) as nat);
    assert(two(a) <= two(a) * two((b - a) as nat)) by (nonlinear_arith)
        requires
            two((b - a) as nat) >= 1,
    ;
}

/// Two powers of two written out.
proof fn lemma_two_written_out()
    ensures
        two(52) == 0x10_0000_0000_0000,
        two(100) == 0x10_0000_0000_0000_0000_0000_0000,
{
    assert(two(48) == 0x1_0000_0000_0000 && two(52) == 0x10_0000_0000_0000) by {
        reveal_with_fuel(two, 53);
    }
    lemma_two_adds(48, 52);
    assert(two(100) == 0x10_0000_0000_0000_0000_0000_0000) by (nonlinear_arith)
        requires
            two(100) == two(48) * two(52),
            two(48) == 0x1_0000_0000_0000,
            two(52) == 0x10_0000_0000_0000,
    ;
}

/// How large the smaller powers of two can be.
proof fn lemma_two_bound(e: nat)
    ensures
        e <= 100 ==> two(e) <= 0x10_0000_0000_0000_0000_0000_0000,
        e <= 52 ==> two(e) <= 0x10_0000_0000_0000,
        two(e) >= 1,
{
    lemma_two_positive(e);
    lemma_two_written_out();
    if e <= 52 {
        lemma_two_grows(e, 52);
    }
    if e <= 100 {
        lemma_two_grows(e, 100);
    }
}

impl Binary64 {
    /// The place of an angle in degrees, less whole turns.
    pub fn one_turn(&self) -> (r: u64)
        requires
            self.size < INFINITY,
        ensures
            r == in_one_turn(*self),
            r <= TURN,
    {
        let (m, j): (u64, u32) = parts(self.size);
        let ghost full = 360 * two(1074);
        let ghost rest = units(self.size as nat) % full;
        proof {
            lemma_turn();
            lemma_two_positive(1074);
            lemma_two_small();
            assert(1nat * two(0) == 1) by (nonlinear_arith)
                requires
                    two(0) == 1,
            ;
        }
        let (r, e): (u64, u32) = if j >= 1077 {
            proof {
                let i = (j - 1077) as nat;
                lemma_two_adds(i, 1077);
                lemma_two_positive(1077);
                assert(m as nat * (two(i) * two(1077)) == (m as nat * two(i)) * two(1077))
                    by (nonlinear_arith);
                lemma_remainder_scaled(m as nat * two(i), 45, two(1077));
            }
            (remainder_45(m, j - 1077), 1077)
        } else {
            let k: u32 = 1077 - j;
            proof {
                lemma_two_adds(k as nat, j as nat);
                lemma_two_positive(k as nat);
                lemma_two_positive(j as nat);
                assert(45 * (two(k as nat) * two(j as nat)) == (45 * two(k as nat)) * two(
                    j as nat,
                )) by (nonlinear_arith);
                lemma_remainder_scaled(m as nat, 45 * two(k as nat), two(j as nat));
            }
            if k <= 52 {
                let turn: u64 = turns_of(k) as u64;
                proof {
                    vstd::arithmetic::div_mod::lemma_mod_decreases(m as nat, turn as nat);
                }
                (m % turn, j)
            } else {
                proof {
                    lemma_two_adds((k - 53) as nat, 53);
                    lemma_two_positive((k - 53) as nat);
                    assert(two(k as nat) >= two(53)) by (nonlinear_arith)
                        requires
                            two(k as nat) == two((k - 53) as nat) * two(53),
                            two((k - 53) as nat) >= 1,
                            two(53) == 0x20_0000_0000_0000,
                    ;
                    vstd::arithmetic::div_mod::lemma_small_mod(m as nat, 45 * two(k as nat));
                }
                (m, j)
            }
        };
        assert(rest == r as nat * two(e as nat));
        assert(e <= 1077 && r < 0x20_0000_0000_0000);
        proof {
            vstd::arithmetic::div_mod::lemma_mod_bound(units(self.size as nat) as int, full as int);
            assert(1 * units(TURN as nat) == full) by (nonlinear_arith)
                requires
                    units(TURN as nat) == full,
            ;
            lemma_nearest_below(rest, 1, TURN as nat);
            lemma_nearest_below((full - rest) as nat, 1, TURN as nat);
            lemma_two_positive(e as nat);
            assert(r > 0 <==> rest > 0) by (nonlinear_arith)
                requires
                    rest == r as nat * two(e as nat),
                    two(e as nat) >= 1,
            ;
        }
        if !self.negative || r == 0 {
            return round_scaled(r as u128, 1, e, 0);
        }
        let k: u32 = 1077 - e;
        proof {
            lemma_two_adds(k as nat, e as nat);
            assert(45 * (two(k as nat) * two(e as nat)) - r * two(e as nat) == (45 * two(k as nat)
                - r) * two(e as nat)) by (nonlinear_arith);
        }
        if k <= 100 {
            let turn: u128 = turns_of(k);
            proof {
                assert(turn >= r) by (nonlinear_arith)
                    requires
                        (turn - r) * two(e as nat) == full - rest,
                        full > rest,
                        two(e as nat) >= 1,
                ;
            }
            round_scaled(turn - r as u128, 1, e, 0)
        } else {
            proof {
                lemma_two_adds(e as nat, 53);
                lemma_two_adds((1029 - (e + 53)) as nat, (e + 53) as nat);
                lemma_two_positive((1029 - (e + 53)) as nat);
                lemma_two_positive((e + 53) as nat);
                assert(rest < two((e + 53) as nat)) by (nonlinear_arith)
                    requires
                        rest == r as nat * two(e as nat),
                        r < two(53),
                        two((e + 53) as nat) == two(e as nat) * two(53),
                        two(e as nat) >= 1,
                        two(53) == 0x20_0000_0000_0000,
                ;
                assert(two((e + 53) as nat) <= two(1029)) by (nonlinear_arith)
                    requires
                        two(1029) == two((1029 - (e + 53)) as nat) * two((e + 53) as nat),
                        two((1029 - (e + 53)) as nat) >= 1,
                        two((e + 53) as nat) >= 1,
                ;
                assert(two(1030) == 2 * two(1029));
                lemma_near_turn(rest);
            }
            TURN
        }
    }
}

/// The sixteenth of a turn that an angle lies in, each reaching 11.25 degrees to both sides of its
/// middle, the lower edge included.
pub open spec fn sixteenth(place: nat) -> int {
    ((4 * units(place) + 45 * two(1074)) / (90 * two(1074))) as int % 16
}

/// The sixteenth of a turn that an angle from 0 to 360 degrees lies in.
pub fn sixteenth_of(place: u64) -> (r: u64)
    requires
        place <= TURN,
    ensures
        r == sixteenth(place as nat),
{
    let (m, j): (u64, u32) = parts(place);
    proof {
        assert(j <= 1030) by {
            lemma_place_bound(place, m, j);
        }
        let k = (1074 - j) as nat;
        lemma_two_adds(k, j as nat);
        lemma_two_positive(k);
        lemma_two_positive(j as nat);
        let t = two(j as nat);
        assert(4 * (m * t) + 45 * (two(k) * t) == (4 * m + 45 * two(k)) * t) by (nonlinear_arith);
        assert(90 * (two(k) * t) == (90 * two(k)) * t) by (nonlinear_arith);
        lemma_quotient_scaled((4 * m + 45 * two(k)) as nat, 90 * two(k), t);
    }
    let k: u32 = 1074 - j;
    if k <= 100 {
        let half: u128 = turns_of(k);
        (((4 * m as u128 + half) / (2 * half)) % 16) as u64
    } else {
        proof {
            lemma_two_small();
            lemma_two_adds((k - 53) as nat, 53);
            lemma_two_positive((k - 53) as nat);
            assert(two(k as nat) >= two(53)) by (nonlinear_arith)
                requires
                    two(k as nat) == two((k - 53) as nat) * two(53),
                    two((k - 53) as nat) >= 1,
                    two(53) == 0x20_0000_0000_0000,
            ;
            vstd::arithmetic::div_mod::lemma_basic_div(
                4 * m + 45 * two(k as nat),
                90 * two(k as nat) as int,
            );
        }
        0
    }
}

/// The doublings of a place up to a turn.
proof fn lemma_place_bound(place: u64, m: u64, j: u32)
    requires
        place <= TURN,
        units(place as nat) == m * two(j as nat),
        j > 0 ==> m >= 0x10_0000_0000_0000,
    ensures
        j <= 1030,
{
    lemma_turn();
    lemma_units_grow(place as nat, TURN as nat);
    if j > 1030 {
        lemma_two_adds((j - 1031) as nat, 1031);
        lemma_two_positive((j - 1031) as nat);
        lemma_two_positive(1030);
        assert(two(1031) == 2 * two(1030));
        assert(m * two(j as nat) > 0x16_8000_0000_0000 * two(1030)) by (nonlinear_arith)
            requires
                m >= 0x10_0000_0000_0000,
                two(j as nat) == two((j - 1031) as nat) * two(1031),
                two(1031) == 2 * two(1030),
                two((j - 1031) as nat) >= 1,
                two(1030) >= 1,
        ;
    }
}

/// The numbers are in order.
pub proof fn lemma_units_grow(a: nat, b: nat)
    requires
        a <= b,
    ensures
        units(a) <= units(b),
        a < b ==> units(a) < units(b),
    decreases b,
{
    if b >= 0x20_0000_0000_0000 {
        if a >= 0x20_0000_0000_0000 {
            lemma_units_grow((a - 0x10_0000_0000_0000) as nat, (b - 0x10_0000_0000_0000) as nat);
        } else {
            let half = 0x10_0000_0000_0000nat;
            lemma_units_grow(half, (b - 0x10_0000_0000_0000) as nat);
        }
    }
}

/// A number with one place behind the point takes three characters or more.
pub proof fn lemma_fixed_text_is_long(x: Binary64)
    ensures
        fixed_text(x, 1).len() >= 3,
{
    reveal_strlit(".");
    reveal_strlit("-");
    reveal_strlit("inf");
    if x.size < INFINITY {
        let q = rounded_ratio(units(x.size as nat) * pow10(1), two(1074));
        law_digits_read_back(q / pow10(1));
        law_padded_digits_read_back(q % pow10(1), 1);
    }
}

// ---- laws ----

/// Rounding a ratio to an integer leaves less than half a unit or exactly half, and then an even
/// integer.
pub proof fn law_rounded_ratio_is_nearest(n: nat, d: nat)
    requires
        d > 0,
    ensures
        2 * (rounded_ratio(n, d) * d) <= 2 * n + d,
        2 * n <= 2 * (rounded_ratio(n, d) * d) + d,
        2 * (rounded_ratio(n, d) * d) == 2 * n + d || 2 * n == 2 * (rounded_ratio(n, d) * d) + d
            ==> rounded_ratio(n, d) % 2 == 0,
{
    let q = n / d;
    let r = n % d;
    vstd::arithmetic::div_mod::lemma_fundamental_div_mod(n as int, d as int);
    vstd::arithmetic::div_mod::lemma_mod_bound(n as int, d as int);
    assert(q * d == n - r && (q + 1) * d == n - r + d) by (nonlinear_arith)
        requires
            n == d * q + r,
    ;
}

/// A number of the format is kept by rounding.
proof fn lemma_nearest_exact(k: nat, d: nat)
    requires
        d > 0,
    ensures
        nearest(d * units(k), d) == k,
    decreases k,
{
    let n = d * units(k);
    if k < 0x20_0000_0000_0000 {
        assert(n < 0x20_0000_0000_0000 * d) by (nonlinear_arith)
            requires
                n == d * k,
                k < 0x20_0000_0000_0000,
                d > 0,
        ;
        vstd::arithmetic::div_mod::lemma_fundamental_div_mod_converse(
            n as int,
            d as int,
            k as int,
            0,
        );
    } else {
        lemma_units_grow(0x20_0000_0000_0000, k);
        lemma_units_block();
        assert(n >= 0x20_0000_0000_0000 * d) by (nonlinear_arith)
            requires
                n == d * units(k),
                units(k) >= 0x20_0000_0000_0000,
        ;
        let rest = (k - 0x10_0000_0000_0000) as nat;
        assert(n == (2 * d) * units(rest)) by (nonlinear_arith)
            requires
                n == d * (2 * units(rest)),
        ;
        lemma_nearest_exact(rest, 2 * d);
    }
}

/// The first number behind the first two blocks.
proof fn lemma_units_block()
    ensures
        units(0x20_0000_0000_0000) == 0x20_0000_0000_0000,
        units(0x10_0000_0000_0000) == 0x10_0000_0000_0000,
{
    assert(units(0x20_0000_0000_0000) == 2 * units(0x10_0000_0000_0000));
}

/// How far a ratio of units is from number `k`, in parts of a unit.
pub open spec fn off(n: nat, d: nat, k: nat) -> nat {
    if n >= d * units(k) {
        (n - d * units(k)) as nat
    } else {
        (d * units(k) - n) as nat
    }
}

/// Rounding finds the nearest number: no number of the format is nearer to the ratio.
pub proof fn law_no_number_is_nearer(n: nat, d: nat, k: nat)
    requires
        d > 0,
    ensures
        off(n, d, nearest(n, d)) <= off(n, d, k),
    decreases n - d,
{
    lemma_units_block();
    if n < 0x20_0000_0000_0000 * d {
        let q = n / d;
        let r = n % d;
        vstd::arithmetic::div_mod::lemma_fundamental_div_mod(n as int, d as int);
        vstd::arithmetic::div_mod::lemma_mod_bound(n as int, d as int);
        assert(q < 0x20_0000_0000_0000) by (nonlinear_arith)
            requires
                n == d * q + r,
                n < 0x20_0000_0000_0000 * d,
                r >= 0,
                d > 0,
        ;
        assert(d * (q + 1) == d * q + d) by (nonlinear_arith);
        assert(units(q) == q);
        assert(units(q + 1) == q + 1);
        let u = units(k);
        if k <= q {
            lemma_units_grow(k, q);
            assert(d * u <= d * q) by (nonlinear_arith)
                requires
                    u <= q,
            ;
        } else {
            lemma_units_grow(q + 1, k);
            assert(d * u >= d * (q + 1)) by (nonlinear_arith)
                requires
                    u >= q + 1,
            ;
        }
    } else {
        let x = nearest(n, 2 * d);
        assert(n / (2 * d) >= 0x10_0000_0000_0000) by (nonlinear_arith)
            requires
                n >= 0x10_0000_0000_0000 * (2 * d),
                d > 0,
        ;
        assert(x >= 0x10_0000_0000_0000);
        let y = nearest(n, d);
        assert(y == x + 0x10_0000_0000_0000);
        assert(d * (2 * units(x)) == (2 * d) * units(x)) by (nonlinear_arith);
        assert(off(n, d, y) == off(n, 2 * d, x));
        if k >= 0x20_0000_0000_0000 {
            let rest = (k - 0x10_0000_0000_0000) as nat;
            law_no_number_is_nearer(n, 2 * d, rest);
            assert(d * (2 * units(rest)) == (2 * d) * units(rest)) by (nonlinear_arith);
        } else {
            law_no_number_is_nearer(n, 2 * d, 0x10_0000_0000_0000);
            assert(d * k < 0x20_0000_0000_0000 * d) by (nonlinear_arith)
                requires
                    k < 0x20_0000_0000_0000,
                    d > 0,
            ;
            assert(units(k) == k);
        }
    }
}

/// The place of `m` units doubled `j` times.
proof fn lemma_exact_place(m: nat, j: nat) -> (k: nat)
    requires
        m < 0x20_0000_0000_0000,
    ensures
        units(k) == m * two(j),
    decreases j,
{
    if j == 0 {
        assert(m * 1 == m) by (nonlinear_arith);
        m
    } else if m >= 0x10_0000_0000_0000 {
        lemma_units(m, j);
        j * 0x10_0000_0000_0000 + m
    } else {
        let t = two((j - 1) as nat);
        assert(m * (2 * t) == (2 * m) * t) by (nonlinear_arith);
        lemma_exact_place(2 * m, (j - 1) as nat)
    }
}

/// An integer below 2^53 is a number of the format.
pub proof fn law_small_integers_are_exact(n: nat)
    requires
        n < 0x20_0000_0000_0000,
    ensures
        units(of_integer(n).size as nat) == n * two(1074),
        !of_integer(n).negative,
        of_integer(n).size < INFINITY,
        truncated(of_integer(n)) == n,
        rounded_away(of_integer(n)) == n,
{
    let t = two(1074);
    lemma_two_positive(1074);
    let k = lemma_exact_place(n, 1074);
    lemma_nearest_exact(k, 1);
    assert(1 * units(k) == units(k)) by (nonlinear_arith);
    lemma_ratio_in_range(n, 1);
    assert(of_integer(n).size == k);
    vstd::arithmetic::div_mod::lemma_div_multiples_vanish(n as int, t as int);
    assert(t * n == n * t) by (nonlinear_arith);
    assert(2 * (n * t) == t * (2 * n)) by (nonlinear_arith);
    vstd::arithmetic::div_mod::lemma_div_multiples_vanish(2 * n as int, t as int);
}

/// Integers are in their order, and so are the numbers that they are.
pub proof fn law_small_integers_are_in_order(m: nat, n: nat)
    requires
        m < n < 0x20_0000_0000_0000,
    ensures
        of_integer(m).place() < of_integer(n).place(),
{
    law_small_integers_are_exact(m);
    law_small_integers_are_exact(n);
    lemma_two_positive(1074);
    if of_integer(m).size >= of_integer(n).size {
        lemma_units_grow(of_integer(n).size as nat, of_integer(m).size as nat);
        assert(m * two(1074) < n * two(1074)) by (nonlinear_arith)
            requires
                m < n,
                two(1074) >= 1,
        ;
    }
}

/// The product of two integers is their product, where it is below 2^53.
pub proof fn law_small_products_are_exact(m: nat, n: nat)
    requires
        m < 0x20_0000_0000_0000,
        n < 0x20_0000_0000_0000,
        m * n < 0x20_0000_0000_0000,
    ensures
        product(of_integer(m), of_integer(n)) == of_integer(m * n),
{
    let t = two(1074);
    lemma_two_positive(1074);
    law_small_integers_are_exact(m);
    law_small_integers_are_exact(n);
    law_small_integers_are_exact(m * n);
    let k = of_integer(m * n).size as nat;
    assert((m * t) * (n * t) == t * ((m * n) * t)) by (nonlinear_arith);
    lemma_nearest_exact(k, t);
}

/// The quotient of a multiple is the factor, where the multiple is below 2^53.
pub proof fn law_small_quotients_are_exact(m: nat, n: nat)
    requires
        0 < n < 0x20_0000_0000_0000,
        m < 0x20_0000_0000_0000,
        m * n < 0x20_0000_0000_0000,
    ensures
        quotient(of_integer(m * n), of_integer(n)) == of_integer(m),
{
    let t = two(1074);
    lemma_two_positive(1074);
    law_small_integers_are_exact(m);
    law_small_integers_are_exact(n);
    law_small_integers_are_exact(m * n);
    let k = of_integer(m).size as nat;
    assert(((m * n) * t) * t == (n * t) * (m * t)) by (nonlinear_arith);
    assert(n * t > 0) by (nonlinear_arith)
        requires
            n > 0,
            t >= 1,
    ;
    lemma_nearest_exact(k, n * t);
}

/// A finite number that is written with places behind the point is written as the nearest decimal:
/// what is written, read as a number of units of the last place, is off by half a unit at most.
pub proof fn law_fixed_text_is_nearest(x: Binary64, places: nat)
    requires
        x.size < INFINITY,
    ensures
        ({
            let q = rounded_ratio(units(x.size as nat) * pow10(places), two(1074));
            let size = units(x.size as nat) * pow10(places);
            let shown = if x.negative {
                fixed_text(x, places).drop_first()
            } else {
                fixed_text(x, places)
            };
            &&& x.negative ==> fixed_text(x, places)[0] == '-'
            &&& 2 * (q * two(1074)) <= 2 * size + two(1074)
            &&& 2 * size <= 2 * (q * two(1074)) + two(1074)
            &&& places == 0 ==> digits_value(shown) == q
            &&& places > 0 ==> {
                let point = shown.len() - places - 1;
                &&& point > 0
                &&& shown[point] == '.'
                &&& digits_value(shown.take(point)) * pow10(places) + digits_value(
                    shown.skip(point + 1),
                ) == q
            }
        }),
{
    let size = units(x.size as nat) * pow10(places);
    let q = rounded_ratio(size, two(1074));
    lemma_two_positive(1074);
    lemma_ten_positive(places);
    law_rounded_ratio_is_nearest(size, two(1074));
    reveal_strlit("-");
    reveal_strlit(".");
    let body = placed(q, places);
    assert(("-"@ + body).drop_first() =~= body);
    law_digits_read_back(q);
    if places > 0 {
        let p = pow10(places);
        let a = digits(q / p);
        let b = padded_digits(q % p, places);
        law_digits_read_back(q / p);
        law_padded_digits_read_back(q % p, places);
        let point = body.len() - places - 1;
        assert(body.take(point) =~= a);
        assert(body.skip(point + 1) =~= b);
        vstd::arithmetic::div_mod::lemma_mod_twice(q as int, p as int);
        vstd::arithmetic::div_mod::lemma_fundamental_div_mod(q as int, p as int);
        assert((q / p) * p == p * (q / p)) by (nonlinear_arith);
    }
}

/// An angle of whole degrees lies in the sixteenth of the turn whose middle is nearest: each
/// sixteenth is 22.5 degrees wide, the first has its middle at 0, and whole turns do not matter.
pub proof fn law_whole_degrees_in_sixteenths(degrees: nat)
    requires
        degrees < 0x20_0000_0000_0000,
    ensures
        sixteenth(in_one_turn(of_integer(degrees))) == ((4 * (degrees % 360) + 45) / 90) % 16,
{
    let t = two(1074);
    let r = degrees % 360;
    lemma_two_positive(1074);
    law_small_integers_are_exact(degrees);
    law_small_integers_are_exact(r);
    lemma_remainder_scaled(degrees, 360, t);
    lemma_ratio_in_range(r, 1);
    assert(in_one_turn(of_integer(degrees)) == of_integer(r).size);
    assert(4 * (r * t) + 45 * t == (4 * r + 45) * t) by (nonlinear_arith);
    lemma_quotient_scaled(4 * r + 45, 90, t);
}

/// A whole number below 2^53 is written as it is, with zeros behind the point.
pub proof fn law_whole_numbers_are_written(n: nat)
    requires
        n < 0x20_0000_0000_0000,
    ensures
        fixed_text(of_integer(n), 0) == digits(n),
        fixed_text(of_integer(n), 4) == digits(n) + ".0000"@,
{
    law_small_integers_are_exact(n);
    let t = two(1074);
    lemma_two_positive(1074);
    assert(pow10(4) == 10_000 && pow10(0) == 1) by {
        reveal_with_fuel(pow10, 5);
    }
    assert((n * t) * 1 == t * n) by (nonlinear_arith);
    assert((n * t) * 10_000 == t * (n * 10_000)) by (nonlinear_arith);
    vstd::arithmetic::div_mod::lemma_fundamental_div_mod_converse(
        (t * n) as int,
        t as int,
        n as int,
        0,
    );
    vstd::arithmetic::div_mod::lemma_fundamental_div_mod_converse(
        (t * (n * 10_000)) as int,
        t as int,
        (n * 10_000) as int,
        0,
    );
    reveal_strlit(".");
    reveal_strlit(".0000");
    reveal_with_fuel(padded_digits, 6);
    assert(padded_digits(0, 4) =~= seq!['0', '0', '0', '0']);
    assert("."@ + padded_digits(0, 4) =~= ".0000"@);
    assert(fixed_text(of_integer(n), 4) =~= digits(n) + ".0000"@);
}

/// Zero comes first of the numbers that are not negative.
pub proof fn lemma_zero()
    ensures
        of_integer(0).size == 0,
        of_integer(0).place() == 0,
{
    law_small_integers_are_exact(0);
    lemma_two_positive(1074);
    if of_integer(0).size > 0 {
        lemma_units_grow(0, of_integer(0).size as nat);
    }
}

/// A greater part of a whole is no smaller rate of it.
pub proof fn lemma_rate_grows(a: nat, b: nat, whole: nat)
    requires
        a <= b <= whole,
        0 < whole < 0x20_0000_0000_0000,
    ensures
        product(quotient(of_integer(a), of_integer(whole)), of_integer(100)).place() <= product(
            quotient(of_integer(b), of_integer(whole)),
            of_integer(100),
        ).place(),
{
    let t = two(1074);
    lemma_two_positive(1074);
    lemma_per_cent(a, whole);
    lemma_per_cent(b, whole);
    law_small_integers_are_exact(a);
    law_small_integers_are_exact(b);
    law_small_integers_are_exact(whole);
    law_small_integers_are_exact(100);
    let w = units(of_integer(whole).size as nat);
    assert(w > 0) by (nonlinear_arith)
        requires
            w == whole * t,
            whole > 0,
            t >= 1,
    ;
    assert((a * t) * t <= (b * t) * t) by (nonlinear_arith)
        requires
            a <= b,
            t >= 1,
    ;
    lemma_nearest_grows((a * t) * t, (b * t) * t, w);
    let x = quotient(of_integer(a), of_integer(whole)).size as nat;
    let y = quotient(of_integer(b), of_integer(whole)).size as nat;
    assert(x <= y);
    lemma_units_grow(x, y);
    let h = units(of_integer(100).size as nat);
    assert(units(x) * h <= units(y) * h) by (nonlinear_arith)
        requires
            units(x) <= units(y),
    ;
    lemma_nearest_grows(units(x) * h, units(y) * h, t);
}

/// The bits of a number: its sign, then its place.
pub open spec fn bits_of(x: Binary64) -> u64 {
    if x.negative {
        (0x8000_0000_0000_0000 + x.size) as u64
    } else {
        x.size
    }
}

/// A number is read back from its bits.
pub proof fn lemma_bits(x: Binary64)
    requires
        x.size <= INFINITY,
    ensures
        of_bits(bits_of(x)) == Some(x),
{
}

/// A product is the number nearest to the exact one, with the sign of one factor turned by the
/// other's; a product beyond all numbers is infinite.
pub proof fn law_products_are_rounded_once(a: Binary64, b: Binary64, k: nat)
    requires
        a.size < INFINITY,
        b.is_factor(),
    ensures
        product(a, b).negative == (a.negative != b.negative),
        product(a, b).size <= INFINITY,
        product(a, b).size < INFINITY ==> off(
            units(a.size as nat) * units(b.size as nat),
            two(1074),
            product(a, b).size as nat,
        ) <= off(units(a.size as nat) * units(b.size as nat), two(1074), k),
{
    lemma_two_positive(1074);
    law_no_number_is_nearer(units(a.size as nat) * units(b.size as nat), two(1074), k);
}

/// A quotient is the number nearest to the exact one, with the sign of the one turned by the
/// other's.
pub proof fn law_quotients_are_rounded_once(a: Binary64, b: Binary64, k: nat)
    requires
        a.size < INFINITY,
        b.is_factor(),
    ensures
        quotient(a, b).negative == (a.negative != b.negative),
        quotient(a, b).size <= INFINITY,
        quotient(a, b).size < INFINITY ==> off(
            units(a.size as nat) * two(1074),
            units(b.size as nat),
            quotient(a, b).size as nat,
        ) <= off(units(a.size as nat) * two(1074), units(b.size as nat), k),
{
    lemma_units_grow(0, b.size as nat);
    law_no_number_is_nearer(units(a.size as nat) * two(1074), units(b.size as nat), k);
}

/// The whole part of a number is what is left of it without its fraction, towards zero; the nearest
/// integer is off by half at most.
pub proof fn law_whole_parts_are_towards_zero(x: Binary64)
    requires
        units(x.size as nat) < 0x4000_0000_0000_0000 * two(1074),
    ensures
        ({
            let size = units(x.size as nat);
            let t = two(1074);
            let r = if x.negative {
                -truncated(x)
            } else {
                truncated(x)
            };
            let n = if x.negative {
                -rounded_away(x)
            } else {
                rounded_away(x)
            };
            &&& 0 <= r * t <= size < r * t + t
            &&& 2 * (n * t) <= 2 * size + t
            &&& 2 * size < 2 * (n * t) + t
        }),
{
    let size = units(x.size as nat);
    let t = two(1074);
    lemma_two_positive(1074);
    let q = size / t;
    vstd::arithmetic::div_mod::lemma_fundamental_div_mod(size as int, t as int);
    vstd::arithmetic::div_mod::lemma_mod_bound(size as int, t as int);
    assert(q * t == t * q) by (nonlinear_arith);
    assert(q < 0x4000_0000_0000_0000) by (nonlinear_arith)
        requires
            t * q <= size,
            size < 0x4000_0000_0000_0000 * t,
            t >= 1,
    ;
    let d = (2 * size) / t;
    vstd::arithmetic::div_mod::lemma_fundamental_div_mod(2 * size as int, t as int);
    vstd::arithmetic::div_mod::lemma_mod_bound(2 * size as int, t as int);
    assert(d < 0x8000_0000_0000_0000) by (nonlinear_arith)
        requires
            t * d <= 2 * size,
            size < 0x4000_0000_0000_0000 * t,
            t >= 1,
    ;
    let n = (d + 1) / 2;
    assert(2 * n == d || 2 * n == d + 1);
    assert(2 * (n * t) == t * (2 * n)) by (nonlinear_arith);
    assert(t * (d + 1) == t * d + t) by (nonlinear_arith);
}

} // verus!
