//! Numbers in double precision, computed with whole numbers: how results are rounded, spans of time
//! in seconds, and the numbers themselves by their bits.
//!
//! Every result is the double next to the exact one. A double has 53 binary digits; of two doubles
//! that are as near, the one whose last digit is even is taken.

use vstd::prelude::*;

verus! {

/// From here on not every whole number has a double of its own.
pub const EXACT_DOUBLES: u128 = 0x20_0000_0000_0000;

/// The whole number next to `n / d`; of two that are as near, the even one.
pub open spec fn nearest(n: nat, d: nat) -> nat {
    let q = n / d;
    let r = n % d;
    if 2 * r > d || (2 * r == d && q % 2 == 1) {
        q + 1
    } else {
        q
    }
}

/// The whole number of at most 53 binary digits next to `n / d`, but for zeros at its end; of two
/// that are as near, the one with an even last digit.
pub open spec fn rounded(n: nat, d: nat) -> nat
    decreases n - d,
{
    if d == 0 || n < d * EXACT_DOUBLES {
        nearest(n, d)
    } else {
        2 * rounded(n, 2 * d)
    }
}

/// Powers of two.
pub open spec fn power(k: nat) -> nat
    decreases k,
{
    if k == 0 {
        1
    } else {
        2 * power((k - 1) as nat)
    }
}

/// Powers are multiplied by adding their exponents.
pub proof fn powers_add_up(j: nat, k: nat)
    ensures
        power(j + k) == power(j) * power(k),
        power(k) > 0,
    decreases k,
{
    if k > 0 {
        powers_add_up(j, (k - 1) as nat);
        let p = power((k - 1) as nat);
        assert(power(j) * (2 * p) == 2 * (power(j) * p)) by (nonlinear_arith);
    } else {
        assert(power(j) * 1 == power(j)) by (nonlinear_arith);
    }
}

/// A power divides the larger ones.
proof fn power_divides(j: nat, k: nat)
    requires
        power(j) >= power(k),
    ensures
        power(j) == power(k) * (power(j) / power(k)),
{
    if j < k {
        powers_add_up(j, (k - j) as nat);
        powers_add_up(0, j);
        powers_add_up(0, (k - j - 1) as nat);
        let more = power((k - j) as nat);
        assert(more >= 2);
        assert(power(j) * more > power(j)) by (nonlinear_arith)
            requires
                more >= 2,
                power(j) > 0,
        ;
    } else {
        powers_add_up(k, (j - k) as nat);
        powers_add_up(0, k);
        assert(power(k + (j - k) as nat) == power(j));
        assert(power(j) == power(k) * power((j - k) as nat) + 0);
        quotient_is(power(j) as int, power(k) as int, power((j - k) as nat) as int, 0);
    }
}

/// Counting up does not mind a factor that both numbers have.
proof fn counted_up(n: int, u: int, d: int)
    requires
        n >= 0,
        u > 0,
        d > 0,
    ensures
        (n * u + u * d - 1) / (u * d) == (n + (d - 1)) / d,
{
    let q = (n + (d - 1)) / d;
    let r = (n + (d - 1)) % d;
    vstd::arithmetic::div_mod::lemma_fundamental_div_mod(n + (d - 1), d);
    assert(n == d * q + r - (d - 1));
    let rest = u * r + u - 1;
    assert(n * u + u * d - 1 == (u * d) * q + rest) by (nonlinear_arith)
        requires
            n == d * q + r - (d - 1),
            rest == u * r + u - 1,
    ;
    assert(0 <= rest < u * d) by (nonlinear_arith)
        requires
            0 <= r < d,
            u > 0,
            rest == u * r + u - 1,
    ;
    quotient_is(n * u + u * d - 1, u * d, q, rest);
}

/// Some powers.
proof fn known_powers()
    ensures
        power(52) == 0x10_0000_0000_0000,
        power(53) == EXACT_DOUBLES,
        power(82) == SECOND,
        power(106) == EXACT_DOUBLES * EXACT_DOUBLES,
        power(128) == 0x1_0000_0000_0000_0000_0000_0000_0000_0000,
{
    assert(power(24) == 0x100_0000) by {
        reveal_with_fuel(power, 25);
    }
    assert(power(6) == 64) by {
        reveal_with_fuel(power, 7);
    }
    powers_add_up(24, 24);
    powers_add_up(24, 6);
    powers_add_up(48, 6);
    assert(power(54) == 2 * power(53) && power(53) == 2 * power(52));
    powers_add_up(52, 30);
    powers_add_up(53, 53);
    powers_add_up(48, 48);
    assert(power(32) == 4 * power(30)) by {
        reveal_with_fuel(power, 3);
    }
    powers_add_up(96, 32);
}

/// Powers that fit in a machine number have small exponents.
proof fn small_powers(k: nat)
    requires
        power(k) <= u128::MAX,
    ensures
        k < 128,
{
    if k >= 128 {
        powers_add_up(128, (k - 128) as nat);
        powers_add_up(0, (k - 128) as nat);
        known_powers();
        let more = power((k - 128) as nat);
        assert(0x1_0000_0000_0000_0000_0000_0000_0000_0000 * more
            >= 0x1_0000_0000_0000_0000_0000_0000_0000_0000) by (nonlinear_arith)
            requires
                more >= 1,
        ;
    }
}

/// A fraction stays the same if both its numbers are doubled.
proof fn rounding_doubled(n: nat, d: nat)
    requires
        d > 0,
    ensures
        rounded(2 * n, 2 * d) == rounded(n, d),
    decreases n - d,
{
    if n < d * EXACT_DOUBLES {
        let q = n / d;
        let r = n % d;
        assert(n == d * q + r && r < d) by (nonlinear_arith)
            requires
                d > 0,
                q == n / d,
                r == n % d,
        ;
        assert(2 * n == (2 * d) * q + 2 * r) by (nonlinear_arith)
            requires
                n == d * q + r,
        ;
        quotient_is((2 * n) as int, (2 * d) as int, q as int, (2 * r) as int);
    } else {
        rounding_doubled(n, 2 * d);
    }
}

/// A quotient and a remainder are what they are known by.
proof fn quotient_is(n: int, d: int, q: int, r: int)
    requires
        0 <= r < d,
        n == d * q + r,
    ensures
        n / d == q,
        n % d == r,
{
    assert(n == q * d + r) by (nonlinear_arith)
        requires
            n == d * q + r,
    ;
    vstd::arithmetic::div_mod::lemma_fundamental_div_mod_converse(n, d, q, r);
}

/// A number keeps its digits if zeros are put behind it.
pub proof fn rounding_with_zeros(n: nat, k: nat)
    ensures
        rounded(n * power(k), 1) == rounded(n, 1) * power(k),
    decreases k,
{
    if k > 0 {
        let j = (k - 1) as nat;
        let p = power(j);
        rounding_with_zeros(n, j);
        let m = n * p;
        assert(n * (2 * p) == 2 * m) by (nonlinear_arith)
            requires
                m == n * p,
        ;
        let v = rounded(n, 1);
        assert(v * (2 * p) == 2 * (v * p)) by (nonlinear_arith);
        if 2 * m >= EXACT_DOUBLES {
            rounding_doubled(m, 1);
        }
    } else {
        assert(n * 1 == n) by (nonlinear_arith);
        assert(rounded(n, 1) * 1 == rounded(n, 1)) by (nonlinear_arith);
    }
}

/// A large number is rounded in larger steps.
proof fn rounding_in_steps(n: nat, k: nat)
    requires
        2 * n >= power(k) * EXACT_DOUBLES,
    ensures
        rounded(n, 1) == power(k) * rounded(n, power(k)),
    decreases k,
{
    if k > 0 {
        let j = (k - 1) as nat;
        let p = power(j);
        powers_add_up(0, j);
        assert((2 * p) * EXACT_DOUBLES == 2 * (p * EXACT_DOUBLES)) by (nonlinear_arith);
        rounding_in_steps(n, j);
        let v = rounded(n, 2 * p);
        assert(rounded(n, p) == 2 * v);
        assert(p * (2 * v) == (2 * p) * v) by (nonlinear_arith);
    } else {
        assert(1 * rounded(n, 1) == rounded(n, 1));
    }
}

/// All that counts of what stands behind the digits of a large number is whether it is nothing.
proof fn only_a_rest_counts(a: nat, r: nat, d: nat, e: nat)
    requires
        r < d,
        e > 0,
        e % 2 == 0,
    ensures
        rounded(a * d + r, d * e) == rounded(
            2 * a + if r > 0 {
                1nat
            } else {
                0
            },
            2 * e,
        ),
    decreases a - e,
{
    let s: nat = if r > 0 {
        1
    } else {
        0
    };
    let n = a * d + r;
    let m = 2 * a + s;
    let limit = e * EXACT_DOUBLES as nat;
    assert(d * e > 0) by (nonlinear_arith)
        requires
            d > 0,
            e > 0,
    ;
    assert((d * e) * EXACT_DOUBLES == d * limit) by (nonlinear_arith)
        requires
            limit == e * EXACT_DOUBLES,
    ;
    if a < limit {
        assert(n < d * limit) by (nonlinear_arith)
            requires
                n == a * d + r,
                r < d,
                a + 1 <= limit,
        ;
        let q = a / e;
        let x = a % e;
        let h = e / 2;
        vstd::arithmetic::div_mod::lemma_fundamental_div_mod(a as int, e as int);
        assert(n == (d * e) * q + (x * d + r)) by (nonlinear_arith)
            requires
                n == a * d + r,
                a == e * q + x,
        ;
        assert(x * d + r < d * e) by (nonlinear_arith)
            requires
                r < d,
                x + 1 <= e,
        ;
        quotient_is(n as int, (d * e) as int, q as int, (x * d + r) as int);
        assert(m == (2 * e) * q + (2 * x + s)) by (nonlinear_arith)
            requires
                m == 2 * a + s,
                a == e * q + x,
        ;
        quotient_is(m as int, (2 * e) as int, q as int, (2 * x + s) as int);
        assert(d * e == 2 * (d * h)) by (nonlinear_arith)
            requires
                e == 2 * h,
        ;
        if x < h {
            assert(x * d + r < d * h) by (nonlinear_arith)
                requires
                    r < d,
                    x + 1 <= h,
            ;
        } else if x > h {
            assert(x * d > d * h) by (nonlinear_arith)
                requires
                    d > 0,
                    x > h,
            ;
        } else {
            assert(x * d == d * h) by (nonlinear_arith)
                requires
                    x == h,
            ;
        }
    } else {
        assert(n >= d * limit) by (nonlinear_arith)
            requires
                n == a * d + r,
                a >= limit,
        ;
        assert(2 * (d * e) == d * (2 * e)) by (nonlinear_arith);
        only_a_rest_counts(a, r, d, 2 * e);
    }
}

/// Rounds `n / d`. The answer is a number, the power of two that it is to be multiplied by, and the
/// exponent of that.
fn round(n: u128, d: u128) -> (r: (u128, u128, u32))
    requires
        d > 0,
    ensures
        r.0 * r.1 == rounded(n as nat, d as nat),
        r.0 <= EXACT_DOUBLES,
        r.1 == power(r.2 as nat),
        r.2 < 128,
        r.1 == 1 || 0x10_0000_0000_0000 * (r.1 * d) <= n,
        (r.0 * r.1) * d <= 2 * n + d,
{
    let mut unit: u128 = 1;
    let mut step: u128 = d;
    let mut k: u32 = 0;
    proof {
        assert(1 * rounded(n as nat, d as nat) == rounded(n as nat, d as nat));
    }
    while n / EXACT_DOUBLES >= step
        invariant
            d > 0,
            step >= unit,
            step > 0,
            step == unit * d,
            unit == power(k as nat),
            k < 128,
            unit * rounded(n as nat, step as nat) == rounded(n as nat, d as nat),
            unit == 1 || 0x10_0000_0000_0000 * step <= n,
        decreases n - step,
    {
        proof {
            let v = rounded(n as nat, (2 * step) as nat);
            assert(step * EXACT_DOUBLES <= n) by (nonlinear_arith)
                requires
                    n / EXACT_DOUBLES >= step,
                    EXACT_DOUBLES > 0,
            ;
            assert(unit * (2 * v) == (2 * unit) * v) by (nonlinear_arith);
            assert((2 * unit) * d == 2 * step) by (nonlinear_arith)
                requires
                    step == unit * d,
            ;
            small_powers((k + 1) as nat);
        }
        unit = 2 * unit;
        step = 2 * step;
        k = k + 1;
    }
    let q: u128 = n / step;
    let rest: u128 = n % step;
    proof {
        assert(n < step * EXACT_DOUBLES) by (nonlinear_arith)
            requires
                n / EXACT_DOUBLES < step,
                EXACT_DOUBLES > 0,
        ;
        assert(q < EXACT_DOUBLES) by (nonlinear_arith)
            requires
                n < step * EXACT_DOUBLES,
                q == n / step,
                step > 0,
        ;
    }
    let up = rest > step - rest || (rest == step - rest && q % 2 == 1);
    let digits: u128 = if up {
        q + 1
    } else {
        q
    };
    proof {
        assert(digits * unit == unit * digits) by (nonlinear_arith);
        let value = digits * unit;
        assert(value * d == digits * step) by (nonlinear_arith)
            requires
                value == digits * unit,
                step == unit * d,
        ;
        assert(q * step <= n) by (nonlinear_arith)
            requires
                q == n / step,
                step > 0,
        ;
        assert((q + 1) * step == q * step + step) by (nonlinear_arith);
    }
    (digits, unit, k)
}

/// How many parts a second is counted in, so that the double next to any number of nanoseconds is a
/// whole number of them.
pub const SECOND: u128 = 0x4_0000_0000_0000_0000_0000;

/// A span of time in seconds, in double precision: the whole seconds and the rest are each rounded,
/// and so is their sum. It is counted in parts of [`SECOND`].
pub open spec fn seconds(nanos: nat) -> nat {
    rounded(
        rounded(nanos / 1_000_000_000, 1) * SECOND as nat + rounded(
            (nanos % 1_000_000_000) * SECOND as nat,
            1_000_000_000,
        ),
        1,
    )
}

/// How often something happens in a span of time at a rate, in double precision, counted up to a
/// whole number.
pub open spec fn times_in(rate: u32, nanos: nat) -> nat {
    ((rounded(seconds(nanos) * rate as nat, 1) + SECOND - 1) / SECOND as int) as nat
}

/// A power with the digits of a double put behind it.
proof fn larger_power(k: nat)
    ensures
        power(k + 52) == power(k) * 0x10_0000_0000_0000,
        power(52) == 0x10_0000_0000_0000,
{
    powers_add_up(k, 52);
    known_powers();
}

/// Where there are many seconds, all that counts of the last digits of a part of a second is whether
/// they are nothing.
proof fn large_sums(whole: nat, part: nat)
    requires
        whole >= 0x1000_0000_0000,
    ensures
        rounded(whole * SECOND as nat + part, 1) == 0x10_0000_0000_0000 * rounded(
            2 * (whole * 0x4000_0000 + part / 0x10_0000_0000_0000) + if part
                % 0x10_0000_0000_0000 > 0 {
                1nat
            } else {
                0
            },
            2,
        ),
{
    let d: nat = 0x10_0000_0000_0000;
    let n = whole * SECOND as nat + part;
    let head = whole * 0x4000_0000 + part / d;
    let rest = part % d;
    let m = 2 * head + if rest > 0 {
        1nat
    } else {
        0
    };
    larger_power(0);
    assert(n == head * d + rest);
    assert(n >= d * EXACT_DOUBLES);
    rounding_in_steps(n, 52);
    only_a_rest_counts(head, rest, d, 2);
    assert(rounded(n, d) == 2 * rounded(n, 2 * d));
    assert(d * 2 == 2 * d);
    assert(rounded(m, 2) == 2 * rounded(m, 4));
}

/// A sum of many seconds and a part of a second, rounded. The answer is a number and the power of
/// two that it is to be multiplied by.
fn round_large_sum(whole: u128, part: u128) -> (r: (u128, u128))
    requires
        0x1000_0000_0000 <= whole <= 0x2_0000_0000_0000_0000,
        part <= 2 * SECOND,
    ensures
        r.0 * r.1 == rounded(whole as nat * SECOND as nat + part as nat, 1),
        r.0 <= EXACT_DOUBLES,
        exists|k: nat| r.1 == #[trigger] power(k),
        r.1 <= 0x1_0000_0000_0000_0000_0000_0000,
{
    let head: u128 = whole * 0x4000_0000 + part / 0x10_0000_0000_0000;
    let rest: u128 = part % 0x10_0000_0000_0000;
    let sticky: u128 = if rest > 0 {
        1
    } else {
        0
    };
    let (digits, unit, k) = round(2 * head + sticky, 2);
    proof {
        large_sums(whole as nat, part as nat);
        larger_power(k as nat);
        let v = digits * unit;
        assert(digits * (unit * 0x10_0000_0000_0000) == 0x10_0000_0000_0000 * v)
            by (nonlinear_arith)
            requires
                v == digits * unit,
        ;
    }
    (digits, unit * 0x10_0000_0000_0000)
}

/// A sum of seconds and a part of a second, rounded. The answer is a number and the power of two
/// that it is to be multiplied by.
fn round_sum(whole: u128, part: u128) -> (r: (u128, u128))
    requires
        whole <= 0x2_0000_0000_0000_0000,
        part <= 2 * SECOND,
    ensures
        r.0 * r.1 == rounded(whole as nat * SECOND as nat + part as nat, 1),
        r.0 <= EXACT_DOUBLES,
        exists|k: nat| r.1 == #[trigger] power(k),
        r.1 <= 0x1_0000_0000_0000_0000_0000_0000,
{
    if whole < 0x1000_0000_0000 {
        let (digits, unit, _) = round(whole * SECOND + part, 1);
        (digits, unit)
    } else {
        round_large_sum(whole, part)
    }
}

/// A span of time in seconds. The answer is a number and the power of two that it is to be
/// multiplied by.
fn round_seconds(nanos: u128) -> (r: (u128, u128))
    requires
        nanos / 1_000_000_000 <= u64::MAX,
    ensures
        r.0 * r.1 == seconds(nanos as nat),
        r.0 <= EXACT_DOUBLES,
        exists|k: nat| r.1 == #[trigger] power(k),
        r.1 <= 0x1_0000_0000_0000_0000_0000_0000,
{
    let (a, p, _) = round(nanos / 1_000_000_000, 1);
    let (b, q, _) = round((nanos % 1_000_000_000) * SECOND, 1_000_000_000);
    round_sum(a * p, b * q)
}

/// Counts `count * unit` parts of [`SECOND`] up to whole ones, where `unit` is the `k`th power.
fn count_up(count: u128, unit: u128, k: Ghost<nat>) -> (r: u128)
    requires
        count <= 0x80_0000_0000_0000_0000_0000,
        unit == power(k@),
        unit <= 0x1_0000_0000_0000_0000_0000_0000,
    ensures
        r == (count * unit + SECOND - 1) / SECOND as int,
        r <= 0x20_0000_0000_0000_0000_0000_0000,
{
    proof {
        known_powers();
        powers_add_up(0, k@);
    }
    if unit >= SECOND {
        let more: u128 = unit / SECOND;
        proof {
            power_divides(k@, 82);
            assert(count * unit == SECOND * (count * more)) by (nonlinear_arith)
                requires
                    unit == SECOND * more,
            ;
            assert(count * more <= 0x80_0000_0000_0000_0000_0000 * 0x4000) by (nonlinear_arith)
                requires
                    count <= 0x80_0000_0000_0000_0000_0000,
                    more <= 0x4000,
            ;
            quotient_is(count * unit + SECOND - 1, SECOND as int, count * more, SECOND - 1);
        }
        count * more
    } else {
        let less: u128 = SECOND / unit;
        proof {
            power_divides(82, k@);
            assert(less > 0) by (nonlinear_arith)
                requires
                    SECOND == unit * less,
                    SECOND > 0,
            ;
            counted_up(count as int, unit as int, less as int);
            assert((count + (less - 1)) / less as int <= count + (less - 1)) by (nonlinear_arith)
                requires
                    less > 0,
                    count + (less - 1) >= 0,
            ;
        }
        (count + (less - 1)) / less
    }
}

/// How often something happens in a span of time at a rate.
pub fn count_in(rate: u32, nanos: u128) -> (r: u128)
    requires
        nanos / 1_000_000_000 <= u64::MAX,
    ensures
        r == times_in(rate, nanos as nat),
        r <= 0x20_0000_0000_0000_0000_0000_0000,
{
    let (digits, unit) = round_seconds(nanos);
    let ghost k: nat = choose|k: nat| unit == #[trigger] power(k);
    proof {
        assert(digits * rate <= 0x20_0000_0000_0000 * 0xffff_ffff) by (nonlinear_arith)
            requires
                digits <= 0x20_0000_0000_0000,
                rate <= 0xffff_ffff,
        ;
    }
    let product: u128 = digits * rate as u128;
    let (c, s, _) = round(product, 1);
    let count: u128 = c * s;
    proof {
        let time = seconds(nanos as nat);
        assert(time * rate == product * unit) by (nonlinear_arith)
            requires
                time == digits * unit,
                product == digits * rate,
        ;
        rounding_with_zeros(product as nat, k);
    }
    count_up(count, unit, Ghost(k))
}

/// A double is next to what it was rounded from, but for one in 2^52 and one.
proof fn rounding_is_close(n: nat, d: nat)
    requires
        d > 0,
    ensures
        0x10_0000_0000_0000 * (d * rounded(n, d)) <= 0x10_0000_0000_0001 * n
            + 0x10_0000_0000_0000 * d,
        0x10_0000_0000_0000 * (d * rounded(n, d)) + n + 0x10_0000_0000_0000 * d
            >= 0x10_0000_0000_0000 * n,
    decreases n - d,
{
    let v = rounded(n, d);
    if n < d * EXACT_DOUBLES {
        let q = n / d;
        vstd::arithmetic::div_mod::lemma_fundamental_div_mod(n as int, d as int);
        assert(d * (q + 1) == d * q + d) by (nonlinear_arith);
    } else {
        let w = rounded(n, 2 * d);
        far_rounding_is_close(n, 2 * d);
        assert(d * (2 * w) == (2 * d) * w) by (nonlinear_arith);
    }
}

/// A number of more digits than a double has is rounded by no more than one in 2^52.
proof fn far_rounding_is_close(n: nat, d: nat)
    requires
        d > 0,
        n >= d * 0x10_0000_0000_0000,
    ensures
        0x10_0000_0000_0000 * (d * rounded(n, d)) <= 0x10_0000_0000_0001 * n,
        0x10_0000_0000_0000 * (d * rounded(n, d)) + n >= 0x10_0000_0000_0000 * n,
    decreases n - d,
{
    if n < d * EXACT_DOUBLES {
        let q = n / d;
        let r = n % d;
        vstd::arithmetic::div_mod::lemma_fundamental_div_mod(n as int, d as int);
        assert(d * (q + 1) == d * q + d) by (nonlinear_arith);
    } else {
        let w = rounded(n, 2 * d);
        far_rounding_is_close(n, 2 * d);
        assert(d * (2 * w) == (2 * d) * w) by (nonlinear_arith);
    }
}

/// Whole numbers of up to 53 digits are not rounded at all.
pub proof fn small_numbers_are_exact(n: nat)
    requires
        n < EXACT_DOUBLES,
    ensures
        rounded(n, 1) == n,
{
}

/// Up to 2^48 times, double precision counts at most one time less than there are, and at most one
/// more than have begun.
pub proof fn counts_are_right_but_for_one(rate: u32, nanos: nat)
    requires
        nanos * rate <= 0x1_0000_0000_0000 * 1_000_000_000,
        nanos < 0x1000_0000_0000 * 1_000_000_000,
    ensures
        times_in(rate, nanos) * 1_000_000_000 <= nanos * rate + 2_000_000_000,
        nanos * rate <= times_in(rate, nanos) * 1_000_000_000 + 1_000_000_000,
{
    let secs = nanos / 1_000_000_000;
    let sub = nanos % 1_000_000_000;
    let unit = SECOND as nat;
    let part = rounded(sub * unit, 1_000_000_000);
    let time = seconds(nanos);
    let count = rounded(time * rate as nat, 1);
    let times = times_in(rate, nanos);
    let rate = rate as nat;
    small_numbers_are_exact(secs);
    rounding_is_close(sub * unit, 1_000_000_000);
    rounding_is_close(secs * unit + part, 1);
    rounding_is_close(time * rate, 1);
    vstd::arithmetic::div_mod::lemma_fundamental_div_mod(count + unit - 1, unit as int);
    let all = nanos * rate;
    let product = time * rate;
    let base: nat = 0x10_0000_0000_0000;
    let exact = nanos * unit;
    assert(base * (1_000_000_000 * time) <= 0x10_0000_0000_0005 * exact + 4_000_000_000 * base);
    assert(base * (1_000_000_000 * time) + 5 * exact + 4_000_000_000 * base >= base * exact);
    assert(exact * rate == all * unit) by (nonlinear_arith)
        requires
            exact == nanos * unit,
            all == nanos * rate,
    ;
    assert(base * (1_000_000_000 * product) <= 0x10_0000_0000_0005 * (all * unit) + (4_000_000_000
        * base) * rate) by (nonlinear_arith)
        requires
            base * (1_000_000_000 * time) <= 0x10_0000_0000_0005 * exact + 4_000_000_000 * base,
            exact * rate == all * unit,
            product == time * rate,
    ;
    assert(base * (1_000_000_000 * product) + 5 * (all * unit) + (4_000_000_000 * base) * rate
        >= base * (all * unit)) by (nonlinear_arith)
        requires
            base * (1_000_000_000 * time) + 5 * exact + 4_000_000_000 * base >= base * exact,
            exact * rate == all * unit,
            product == time * rate,
    ;
    assert(1_000_000_000 * count <= unit * (all + 1_000_000_000));
    assert(1_000_000_000 * count + unit * 1_000_000_000 >= unit * all);
    assert(count <= unit * times <= count + unit - 1);
}

/// A number in double precision, by its bits. The library has none below zero.
#[derive(Debug, Clone, Copy, PartialEq, Eq, Structural)]
pub struct Double {
    pub bits: u64,
}

/// The bits of infinity.
pub const INFINITY_BITS: u64 = 0x7ff0_0000_0000_0000;

/// The exponent of one: numbers are counted in parts of the least double above zero, 2^-1074.
pub const ONE: u32 = 1_074;

/// The number that bits stand for, in parts of 2^-1074. Infinity counts as 2^1024, the first number
/// that is too large for a double.
pub open spec fn parts(bits: u64) -> nat {
    let exponent = bits as nat / 0x10_0000_0000_0000;
    let digits = bits as nat % 0x10_0000_0000_0000;
    if exponent == 0 {
        digits
    } else {
        (0x10_0000_0000_0000 + digits) * power((exponent - 1) as nat)
    }
}

/// The number infinity counts as.
pub open spec fn infinity() -> nat {
    parts(INFINITY_BITS)
}

/// A number, or infinity if it is too large for a double.
pub open spec fn capped(n: nat) -> nat {
    if n < infinity() {
        n
    } else {
        infinity()
    }
}

/// The double that stands for a number.
pub open spec fn double_of(n: nat) -> Double {
    choose|d: Double| d.is_number() && d.value() == n
}

/// A sum in double precision.
pub open spec fn sum(a: nat, b: nat) -> nat {
    if a >= infinity() || b >= infinity() {
        infinity()
    } else {
        capped(rounded(a + b, 1))
    }
}

/// A number divided by a count, in double precision.
pub open spec fn quotient(a: nat, count: nat) -> nat {
    if a >= infinity() {
        infinity()
    } else {
        capped(rounded(a, count))
    }
}

/// A product in double precision. Infinity times zero is no number.
pub open spec fn product(a: nat, b: nat) -> Option<nat> {
    if a >= infinity() || b >= infinity() {
        if a == 0 || b == 0 {
            None
        } else {
            Some(infinity())
        }
    } else {
        Some(capped(rounded(a * b, power(ONE as nat))))
    }
}

/// A power grows with its exponent.
proof fn powers_grow(j: nat, k: nat)
    requires
        j <= k,
    ensures
        0 < power(j) <= power(k),
        j < k ==> 2 * power(j) <= power(k),
    decreases k,
{
    powers_add_up(0, j);
    if j < k {
        powers_grow(j, (k - 1) as nat);
    }
}

/// Larger bits stand for a larger number.
pub proof fn bits_are_in_order(a: u64, b: u64)
    requires
        a < b,
    ensures
        parts(a) < parts(b),
{
    let base: nat = 0x10_0000_0000_0000;
    let e = a as nat / base;
    let f = a as nat % base;
    let g = b as nat / base;
    let h = b as nat % base;
    powers_add_up(0, 0);
    if e == g {
        if e > 0 {
            let p = power((e - 1) as nat);
            powers_grow((e - 1) as nat, (e - 1) as nat);
            assert((base + f) * p < (base + h) * p) by (nonlinear_arith)
                requires
                    f < h,
                    p > 0,
            ;
        }
    } else {
        let q = power((g - 1) as nat);
        powers_grow(0, (g - 1) as nat);
        assert((base + h) * q >= base * q) by (nonlinear_arith)
            requires
                h >= 0,
                q > 0,
        ;
        if e == 0 {
            assert(base * q >= base) by (nonlinear_arith)
                requires
                    q >= 1,
                    base >= 0,
            ;
        } else {
            let p = power((e - 1) as nat);
            powers_grow((e - 1) as nat, (g - 1) as nat);
            assert((base + f) * p < base * q) by (nonlinear_arith)
                requires
                    f < base,
                    0 < p,
                    2 * p <= q,
            ;
        }
    }
}

/// Only one double stands for a number.
pub proof fn doubles_are_known_by_their_value(d: Double)
    requires
        d.is_number(),
    ensures
        double_of(d.value()) == d,
{
    let other = double_of(d.value());
    assert(other.is_number() && other.value() == d.value());
    if other.bits < d.bits {
        bits_are_in_order(other.bits, d.bits);
    } else if d.bits < other.bits {
        bits_are_in_order(d.bits, other.bits);
    }
}

impl Double {
    /// Whether this is a number, be it infinity.
    pub open spec fn is_number(self) -> bool {
        self.bits <= INFINITY_BITS
    }

    /// The number, in parts of 2^-1074.
    pub open spec fn value(self) -> nat {
        parts(self.bits)
    }

    /// Whether this number is smaller than another.
    pub fn is_below(self, other: Double) -> (r: bool)
        ensures
            r == (self.value() < other.value()),
    {
        proof {
            if self.bits < other.bits {
                bits_are_in_order(self.bits, other.bits);
            } else if other.bits < self.bits {
                bits_are_in_order(other.bits, self.bits);
            }
        }
        self.bits < other.bits
    }

    /// The digits of this number, and the exponent of the power of two that they are to be
    /// multiplied by.
    fn decode(self) -> (r: (u128, u32))
        requires
            self.is_number(),
        ensures
            self.value() == r.0 * power(r.1 as nat),
            r.0 < EXACT_DOUBLES,
            r.1 > 0 ==> r.0 >= 0x10_0000_0000_0000,
            r.1 <= 2_046,
            r.1 == if self.bits < 0x10_0000_0000_0000 {
                0
            } else {
                self.bits / 0x10_0000_0000_0000 - 1
            },
    {
        let exponent: u64 = self.bits / 0x10_0000_0000_0000;
        let digits: u64 = self.bits % 0x10_0000_0000_0000;
        if exponent == 0 {
            proof {
                assert(power(0) == 1);
                assert(digits * 1 == digits);
            }
            (digits as u128, 0)
        } else {
            (0x10_0000_0000_0000u128 + digits as u128, (exponent - 1) as u32)
        }
    }

    /// The number with the given digits, multiplied by a power of two.
    fn encode(digits: u128, exponent: u32) -> (r: Self)
        requires
            digits <= EXACT_DOUBLES,
            exponent <= 10_000,
        ensures
            r.is_number(),
            r.value() == capped(digits as nat * power(exponent as nat)),
            exponent <= 2_040 ==> r.value() == digits * power(exponent as nat),
    {
        let ghost n = digits * power(exponent as nat);
        let mut m: u128 = digits;
        let mut e: u32 = exponent;
        if m == 0x20_0000_0000_0000 {
            m = 0x10_0000_0000_0000;
            e = e + 1;
            proof {
                let p = power(exponent as nat);
                assert(0x20_0000_0000_0000 * p == 0x10_0000_0000_0000 * (2 * p)) by (
                    nonlinear_arith);
            }
        }
        while m < 0x10_0000_0000_0000 && e > 0
            invariant
                n == m * power(e as nat),
                m < 0x20_0000_0000_0000,
                e <= 10_001,
                exponent <= 2_040 ==> e <= 2_041,
            decreases e,
        {
            proof {
                let p = power((e - 1) as nat);
                assert(m * (2 * p) == (2 * m) * p) by (nonlinear_arith);
            }
            m = 2 * m;
            e = e - 1;
        }
        proof {
            infinity_is();
        }
        if m < 0x10_0000_0000_0000 {
            proof {
                assert(power(0) == 1);
                assert(m * 1 == m);
                powers_grow(53, 2_098);
                known_powers();
            }
            return Self { bits: m as u64 };
        }
        if e >= 2_046 {
            proof {
                powers_grow(2_046, e as nat);
                let p = power(e as nat);
                let q = power(2_046);
                assert(m * p >= 0x10_0000_0000_0000 * q) by (nonlinear_arith)
                    requires
                        m >= 0x10_0000_0000_0000,
                        p >= q,
                        q > 0,
                ;
            }
            return Self { bits: INFINITY_BITS };
        }
        let bits: u64 = (e as u64 + 1) * 0x10_0000_0000_0000 + (m - 0x10_0000_0000_0000) as u64;
        proof {
            assert(bits as nat / 0x10_0000_0000_0000 == e + 1);
            assert(bits as nat % 0x10_0000_0000_0000 == m - 0x10_0000_0000_0000);
            assert(parts(bits) == n);
            bits_are_in_order(bits, INFINITY_BITS);
        }
        Self { bits }
    }
}

/// Zeros that both numbers of a fraction end with may be left out.
proof fn rounding_without_zeros(n: nat, d: nat, k: nat)
    requires
        d > 0,
    ensures
        rounded(n * power(k), d * power(k)) == rounded(n, d),
    decreases k,
{
    if k > 0 {
        let p = power((k - 1) as nat);
        rounding_without_zeros(n, d, (k - 1) as nat);
        powers_add_up(0, (k - 1) as nat);
        assert(d * p > 0) by (nonlinear_arith)
            requires
                d > 0,
                p > 0,
        ;
        rounding_doubled(n * p, d * p);
        assert(n * (2 * p) == 2 * (n * p)) by (nonlinear_arith);
        assert(d * (2 * p) == 2 * (d * p)) by (nonlinear_arith);
    } else {
        assert(n * 1 == n && d * 1 == d);
    }
}

/// A fraction of many digits keeps them if zeros are put behind its numerator.
proof fn rounding_many_digits(n: nat, d: nat, k: nat)
    requires
        d > 0,
        n >= d * EXACT_DOUBLES,
    ensures
        rounded(n * power(k), d) == rounded(n, d) * power(k),
    decreases k,
{
    let v = rounded(n, d);
    if k > 0 {
        let p = power((k - 1) as nat);
        rounding_many_digits(n, d, (k - 1) as nat);
        powers_add_up(0, (k - 1) as nat);
        let m = n * p;
        assert(m >= n) by (nonlinear_arith)
            requires
                m == n * p,
                p >= 1,
        ;
        assert(n * (2 * p) == 2 * m) by (nonlinear_arith)
            requires
                m == n * p,
        ;
        rounding_doubled(m, d);
        assert(v * (2 * p) == 2 * (v * p)) by (nonlinear_arith);
    } else {
        assert(n * 1 == n && v * 1 == v);
    }
}

/// What is small against the last digit of a double is lost.
proof fn rounding_loses(m: nat, rest: nat, k: nat)
    requires
        0x10_0000_0000_0000 <= m < EXACT_DOUBLES,
        2 * rest < power(k),
    ensures
        rounded(m * power(k) + rest, 1) == m * power(k),
{
    let p = power(k);
    let n = m * p + rest;
    assert(2 * n >= p * EXACT_DOUBLES) by (nonlinear_arith)
        requires
            n == m * p + rest,
            2 * m >= EXACT_DOUBLES,
            p > 0,
    ;
    rounding_in_steps(n, k);
    assert(n < p * EXACT_DOUBLES) by (nonlinear_arith)
        requires
            n == m * p + rest,
            rest < p,
            m + 1 <= EXACT_DOUBLES,
    ;
    assert(n == p * m + rest) by (nonlinear_arith)
        requires
            n == m * p + rest,
    ;
    quotient_is(n as int, p as int, m as int, rest as int);
    assert(rounded(n, p) == m);
    assert(p * m == m * p) by (nonlinear_arith);
}

/// A power of two.
fn power_of(k: u32) -> (r: u128)
    requires
        k < 128,
    ensures
        r == power(k as nat),
{
    let mut p: u128 = 1;
    let mut i: u32 = 0;
    while i < k
        invariant
            i <= k < 128,
            p == power(i as nat),
        decreases k - i,
    {
        proof {
            powers_grow((i + 1) as nat, 127);
            known_powers();
            assert(power(128) == 2 * power(127));
        }
        p = 2 * p;
        i += 1;
    }
    p
}

impl Double {
    /// A rounded number, multiplied by a power of two.
    fn rounded_times(n: u128, d: u128, exponent: u32) -> (r: Self)
        requires
            d > 0,
            exponent <= 9_000,
        ensures
            r.is_number(),
            r.value() == capped(rounded(n as nat, d as nat) * power(exponent as nat)),
            exponent <= 1_900 ==> r.value() == rounded(n as nat, d as nat) * power(
                exponent as nat,
            ),
    {
        let (digits, unit, k) = round(n, d);
        proof {
            powers_add_up(k as nat, exponent as nat);
            let p = power(exponent as nat);
            assert((digits * unit) * p == digits * (unit * p)) by (nonlinear_arith);
        }
        Self::encode(digits, k + exponent)
    }

    /// The double next to a whole number.
    pub fn from_whole(n: u128) -> (r: Self)
        ensures
            r.is_number(),
            r.value() == rounded(n as nat, 1) * power(ONE as nat),
    {
        Self::rounded_times(n, 1, ONE)
    }

    /// The sum of two numbers.
    pub fn plus(self, other: Double) -> (r: Self)
        requires
            self.is_number(),
            other.is_number(),
        ensures
            r.is_number(),
            r.value() == sum(self.value(), other.value()),
    {
        let (a, b) = if self.bits < other.bits {
            (other, self)
        } else {
            (self, other)
        };
        proof {
            assert(sum(a.value(), b.value()) == sum(self.value(), other.value()));
            if b.bits < a.bits {
                bits_are_in_order(b.bits, a.bits);
            }
            if a.bits < INFINITY_BITS {
                bits_are_in_order(a.bits, INFINITY_BITS);
            }
        }
        if a.bits == INFINITY_BITS {
            return a;
        }
        let (m, e) = a.decode();
        let (n, f) = b.decode();
        let gap: u32 = e - f;
        proof {
            let p = power(f as nat);
            let g = power(gap as nat);
            powers_add_up(gap as nat, f as nat);
            assert(m * (g * p) + n * p == (m * g + n) * p) by (nonlinear_arith);
            rounding_with_zeros((m * g + n) as nat, f as nat);
        }
        if gap > 70 {
            proof {
                known_powers();
                powers_grow(54, gap as nat);
                assert(power(54) == 2 * power(53));
                rounding_loses(m as nat, n as nat, gap as nat);
                let p = power(f as nat);
                let g = power(gap as nat);
                assert((m * g) * p == m * (g * p)) by (nonlinear_arith);
            }
            return a;
        }
        let scale: u128 = power_of(gap);
        proof {
            powers_grow(gap as nat, 70);
            assert(power(70) == 0x40_0000_0000_0000_0000) by {
                known_powers();
                powers_add_up(52, 18);
                assert(power(18) == 0x4_0000) by {
                    reveal_with_fuel(power, 19);
                }
            }
            assert(m * scale <= 0x20_0000_0000_0000 * 0x40_0000_0000_0000_0000) by (
                nonlinear_arith)
                requires
                    m <= 0x20_0000_0000_0000,
                    scale <= 0x40_0000_0000_0000_0000,
            ;
        }
        Self::rounded_times(m * scale + n, 1, f)
    }

    /// This number divided by a count.
    pub fn over(self, count: u128) -> (r: Self)
        requires
            self.is_number(),
            0 < count <= 0x2_0000_0000_0000_0000,
        ensures
            r.is_number(),
            r.value() == quotient(self.value(), count as nat),
    {
        proof {
            if self.bits < INFINITY_BITS {
                bits_are_in_order(self.bits, INFINITY_BITS);
            }
        }
        if self.bits == INFINITY_BITS {
            return self;
        }
        let (m, e) = self.decode();
        let shift: u32 = if e < 74 {
            e
        } else {
            74
        };
        let scale: u128 = power_of(shift);
        let rest: u32 = e - shift;
        proof {
            powers_add_up(shift as nat, rest as nat);
            powers_grow(shift as nat, 74);
            assert(power(74) == 0x400_0000_0000_0000_0000) by {
                known_powers();
                powers_add_up(52, 22);
                assert(power(22) == 0x40_0000) by {
                    reveal_with_fuel(power, 23);
                }
            }
            assert(m * scale <= 0x20_0000_0000_0000 * 0x400_0000_0000_0000_0000) by (
                nonlinear_arith)
                requires
                    m <= 0x20_0000_0000_0000,
                    scale <= 0x400_0000_0000_0000_0000,
            ;
            let q = power(rest as nat);
            assert(m * (scale * q) == (m * scale) * q) by (nonlinear_arith);
            if rest > 0 {
                assert(m * scale >= 0x10_0000_0000_0000 * 0x400_0000_0000_0000_0000) by (
                    nonlinear_arith)
                    requires
                        m >= 0x10_0000_0000_0000,
                        scale == 0x400_0000_0000_0000_0000,
                ;
                rounding_many_digits((m * scale) as nat, count as nat, rest as nat);
            } else {
                assert(power(0) == 1);
                let v = rounded((m * scale) as nat, count as nat);
                assert(v * 1 == v);
                assert((m * scale) * 1 == m * scale);
            }
        }
        Self::rounded_times(m * scale, count, rest)
    }
}

/// The square root of `n`, rounded down.
pub open spec fn root(n: nat) -> nat
    decreases n,
{
    if n == 0 {
        0
    } else {
        let r = root((n - 1) as nat);
        if (r + 1) * (r + 1) <= n {
            r + 1
        } else {
            r
        }
    }
}

/// The root squared is at most the number, and that of the next one is more.
pub proof fn root_bounds(n: nat)
    ensures
        root(n) * root(n) <= n < (root(n) + 1) * (root(n) + 1),
    decreases n,
{
    if n == 0 {
        let z = root(n);
        assert(z * z == 0 && (z + 1) * (z + 1) == 1) by (nonlinear_arith)
            requires
                z == 0,
        ;
    } else {
        let m = (n - 1) as nat;
        root_bounds(m);
        let r = root(m);
        let q = root(n);
        if q == r + 1 {
            assert((r + 1) * (r + 1) < (q + 1) * (q + 1)) by (nonlinear_arith)
                requires
                    q == r + 1,
                    r >= 0,
            ;
            assert(q * q == (r + 1) * (r + 1)) by (nonlinear_arith)
                requires
                    q == r + 1,
            ;
        }
    }
}

/// A number with these bounds is the root.
proof fn root_is(n: nat, r: nat)
    requires
        r * r <= n < (r + 1) * (r + 1),
    ensures
        root(n) == r,
{
    root_bounds(n);
    let q = root(n);
    if q < r {
        assert((q + 1) * (q + 1) <= r * r) by (nonlinear_arith)
            requires
                0 <= q < r,
        ;
    } else if q > r {
        assert((r + 1) * (r + 1) <= q * q) by (nonlinear_arith)
            requires
                0 <= r < q,
        ;
    }
}

/// The square root of a number below 2^106, rounded down.
fn integer_root(n: u128) -> (r: u128)
    requires
        n < EXACT_DOUBLES * EXACT_DOUBLES,
    ensures
        r == root(n as nat),
        r < EXACT_DOUBLES,
{
    let mut low: u128 = 0;
    let mut high: u128 = 0x20_0000_0000_0000;
    while high - low > 1
        invariant
            low < high <= 0x20_0000_0000_0000,
            low * low <= n < high * high,
        decreases high - low,
    {
        let middle: u128 = low + (high - low) / 2;
        proof {
            assert(middle * middle <= 0x20_0000_0000_0000 * 0x20_0000_0000_0000) by (
                nonlinear_arith)
                requires
                    middle <= 0x20_0000_0000_0000,
            ;
        }
        if middle * middle <= n {
            low = middle;
        } else {
            high = middle;
        }
    }
    proof {
        assert(high == low + 1);
        root_is(n as nat, low as nat);
    }
    low
}

/// The whole number next to the square root of `n`, divided by `d`; of two that are as near, the even
/// one.
pub open spec fn nearest_root(n: nat, d: nat) -> nat {
    let q = root(n / (d * d));
    let middle = (2 * q + 1) * d;
    if 4 * n > middle * middle || (4 * n == middle * middle && q % 2 == 1) {
        q + 1
    } else {
        q
    }
}

/// The whole number of at most 53 binary digits next to the square root of `n`, divided by `d`, but
/// for zeros at its end; of two that are as near, the one with an even last digit.
pub open spec fn rounded_root(n: nat, d: nat) -> nat
    decreases n - d,
    via rounding_roots_ends
{
    if d == 0 || n < (d * EXACT_DOUBLES) * (d * EXACT_DOUBLES) {
        nearest_root(n, d)
    } else {
        2 * rounded_root(n, 2 * d)
    }
}

#[via_fn]
proof fn rounding_roots_ends(n: nat, d: nat) {
    if d > 0 && n >= (d * EXACT_DOUBLES) * (d * EXACT_DOUBLES) {
        assert(n >= 2 * d) by (nonlinear_arith)
            requires
                d > 0,
                EXACT_DOUBLES >= 2,
                n >= (d * EXACT_DOUBLES) * (d * EXACT_DOUBLES),
        ;
    }
}

/// A root divided by a number stays the same if the number is doubled and the root is that of four
/// times as much.
proof fn rooting_doubled(n: nat, d: nat)
    requires
        d > 0,
    ensures
        rounded_root(4 * n, 2 * d) == rounded_root(n, d),
    decreases n - d,
{
    let limit = (d * EXACT_DOUBLES) * (d * EXACT_DOUBLES);
    assert(((2 * d) * EXACT_DOUBLES) * ((2 * d) * EXACT_DOUBLES) == 4 * limit) by (nonlinear_arith)
        requires
            limit == (d * EXACT_DOUBLES) * (d * EXACT_DOUBLES),
    ;
    if n < limit {
        let square = d * d;
        assert((2 * d) * (2 * d) == 4 * square) by (nonlinear_arith)
            requires
                square == d * d,
        ;
        assert(square > 0) by (nonlinear_arith)
            requires
                d > 0,
                square == d * d,
        ;
        let x = n / square;
        let y = n % square;
        vstd::arithmetic::div_mod::lemma_fundamental_div_mod(n as int, square as int);
        assert(4 * n == (4 * square) * x + 4 * y) by (nonlinear_arith)
            requires
                n == square * x + y,
        ;
        quotient_is((4 * n) as int, (4 * square) as int, x as int, (4 * y) as int);
        let q = root(x);
        let middle = (2 * q + 1) * d;
        let twice = (2 * q + 1) * (2 * d);
        assert(twice * twice == 4 * (middle * middle)) by (nonlinear_arith)
            requires
                middle == (2 * q + 1) * d,
                twice == (2 * q + 1) * (2 * d),
        ;
    } else {
        assert(n >= 2 * d) by (nonlinear_arith)
            requires
                d > 0,
                EXACT_DOUBLES >= 2,
                n >= (d * EXACT_DOUBLES) * (d * EXACT_DOUBLES),
        ;
        rooting_doubled(n, 2 * d);
    }
}

/// The root of a number of many digits keeps them if pairs of zeros are put behind the number.
proof fn rooting_many_digits(n: nat, k: nat)
    requires
        n >= EXACT_DOUBLES * EXACT_DOUBLES,
    ensures
        rounded_root(n * power(2 * k), 1) == rounded_root(n, 1) * power(k),
    decreases k,
{
    let v = rounded_root(n, 1);
    if k > 0 {
        let j = (k - 1) as nat;
        let p = power(j);
        let square = power(2 * j);
        rooting_many_digits(n, j);
        powers_add_up(0, 2 * j);
        assert(power(2 * k) == 4 * square) by {
            assert(power((2 * k - 1) as nat) == 2 * square);
        }
        let m = n * square;
        assert(n * (4 * square) == 4 * m) by (nonlinear_arith)
            requires
                m == n * square,
        ;
        assert(m >= n) by (nonlinear_arith)
            requires
                m == n * square,
                square >= 1,
        ;
        rooting_doubled(m, 1);
        assert((1 * EXACT_DOUBLES) * (1 * EXACT_DOUBLES) == EXACT_DOUBLES * EXACT_DOUBLES);
        assert(v * (2 * p) == 2 * (v * p)) by (nonlinear_arith);
    } else {
        assert(power(0) == 1);
        assert(n * 1 == n && v * 1 == v);
    }
}

/// The square root of a number, in double precision.
pub open spec fn square_root(a: nat) -> nat {
    if a >= infinity() {
        infinity()
    } else {
        rounded_root(a * power(ONE as nat), 1)
    }
}

impl Double {
    /// The square root of this number.
    pub fn root(self) -> (r: Self)
        requires
            self.is_number(),
        ensures
            r.is_number(),
            r.value() == square_root(self.value()),
    {
        proof {
            if self.bits < INFINITY_BITS {
                bits_are_in_order(self.bits, INFINITY_BITS);
            }
        }
        if self.bits == INFINITY_BITS {
            return self;
        }
        let (m, e) = self.decode();
        let t: u32 = e + ONE;
        let ghost n = self.value() * power(ONE as nat);
        proof {
            powers_add_up(e as nat, ONE as nat);
            let p = power(e as nat);
            let q = power(ONE as nat);
            assert((m * p) * q == m * (p * q)) by (nonlinear_arith);
        }
        if m == 0 {
            proof {
                assert(0 * power(t as nat) == 0) by (nonlinear_arith);
                assert(n == 0);
                assert((1 * EXACT_DOUBLES) * (1 * EXACT_DOUBLES) > 0);
                assert(root(0) == 0);
                assert(0nat / (1 * 1) == 0);
                assert(((2 * 0 + 1) * 1) * ((2 * 0 + 1) * 1) == 1);
                assert(nearest_root(0, 1) == 0);
            }
            return Self { bits: 0 };
        }
        let mut large: u128 = m;
        let mut left: u32 = t;
        while large < 0x400_0000_0000_0000_0000_0000_0000
            invariant
                0 < large < 0x800_0000_0000_0000_0000_0000_0000,
                n == large * power(left as nat),
                t >= 1_074,
                t <= 3_120,
                left <= t,
                large >= power((t - left) as nat),
            decreases left,
        {
            proof {
                small_powers((t - left) as nat);
                let p = power((left - 1) as nat);
                assert(large * (2 * p) == (2 * large) * p) by (nonlinear_arith);
            }
            large = 2 * large;
            left = left - 1;
        }
        proof {
            small_powers((t - left) as nat);
        }
        if left % 2 == 1 {
            proof {
                let p = power((left - 1) as nat);
                assert(large * (2 * p) == (2 * large) * p) by (nonlinear_arith);
            }
            large = 2 * large;
            left = left - 1;
        }
        let half: u32 = left / 2;
        let q = integer_root(large / 4);
        let middle: u128 = 2 * q + 1;
        proof {
            assert(middle * middle <= 0x40_0000_0000_0000 * 0x40_0000_0000_0000) by (
                nonlinear_arith)
                requires
                    middle <= 0x40_0000_0000_0000,
            ;
        }
        let square: u128 = middle * middle;
        let digits: u128 = if large > square || (large == square && q % 2 == 1) {
            q + 1
        } else {
            q
        };
        proof {
            let wide = large as nat;
            rooting_many_digits(wide, half as nat);
            assert(n == wide * power(2 * half as nat));
            assert((1 * EXACT_DOUBLES) * (1 * EXACT_DOUBLES) <= wide);
            assert(rounded_root(wide, 1) == 2 * rounded_root(wide, 2));
            assert(wide < (2 * EXACT_DOUBLES) * (2 * EXACT_DOUBLES));
            assert(wide / (2 * 2) == large / 4);
            assert(((2 * q + 1) * 2) * ((2 * q + 1) * 2) == 4 * (middle * middle)) by (
                nonlinear_arith)
                requires
                    middle == 2 * q + 1,
            ;
            assert(nearest_root(wide, 2) == digits);
            let p = power(half as nat);
            assert((2 * digits) * p == digits * (2 * p)) by (nonlinear_arith);
            assert(power((half + 1) as nat) == 2 * p);
        }
        Self::encode(digits, half + 1)
    }

    /// The product of two numbers, if it is a number.
    pub fn times(self, other: Double) -> (r: Option<Self>)
        requires
            self.is_number(),
            other.is_number(),
        ensures
            match r {
                Some(d) => d.is_number() && product(self.value(), other.value()) == Some(d.value()),
                None => product(self.value(), other.value()) is None,
            },
    {
        proof {
            if self.bits < INFINITY_BITS {
                bits_are_in_order(self.bits, INFINITY_BITS);
            }
            if other.bits < INFINITY_BITS {
                bits_are_in_order(other.bits, INFINITY_BITS);
            }
            if 0 < self.bits {
                bits_are_in_order(0, self.bits);
            }
            if 0 < other.bits {
                bits_are_in_order(0, other.bits);
            }
            bits_are_in_order(0, INFINITY_BITS);
        }
        if self.bits == INFINITY_BITS || other.bits == INFINITY_BITS {
            if self.bits == 0 || other.bits == 0 {
                return None;
            }
            return Some(Self { bits: INFINITY_BITS });
        }
        let (m, e) = self.decode();
        let (n, f) = other.decode();
        proof {
            assert(m * n <= 0x20_0000_0000_0000 * 0x20_0000_0000_0000) by (nonlinear_arith)
                requires
                    m <= 0x20_0000_0000_0000,
                    n <= 0x20_0000_0000_0000,
            ;
        }
        let digits: u128 = m * n;
        let both: u32 = e + f;
        proof {
            powers_add_up(e as nat, f as nat);
            let p = power(e as nat);
            let q = power(f as nat);
            assert((m * p) * (n * q) == (m * n) * (p * q)) by (nonlinear_arith);
            powers_add_up(0, ONE as nat);
        }
        if both >= ONE {
            let rest: u32 = both - ONE;
            proof {
                powers_add_up(rest as nat, ONE as nat);
                let p = power(rest as nat);
                let one = power(ONE as nat);
                assert(digits * (p * one) == (digits * p) * one) by (nonlinear_arith);
                rounding_without_zeros((digits * p) as nat, 1, ONE as nat);
                assert(1 * one == one);
                rounding_with_zeros(digits as nat, rest as nat);
            }
            return Some(Self::rounded_times(digits, 1, rest));
        }
        let less: u32 = ONE - both;
        proof {
            powers_add_up(less as nat, both as nat);
            powers_add_up(0, less as nat);
            rounding_without_zeros(digits as nat, power(less as nat), both as nat);
        }
        if less >= 128 {
            proof {
                known_powers();
                powers_grow(128, less as nat);
                let d = power(less as nat);
                quotient_is(digits as int, d as int, 0, digits as int);
                assert(digits < d * EXACT_DOUBLES) by (nonlinear_arith)
                    requires
                        digits < d,
                        EXACT_DOUBLES >= 1,
                ;
                assert(rounded(digits as nat, d) == 0);
            }
            return Some(Self { bits: 0 });
        }
        let d = power_of(less);
        proof {
            let v = rounded(digits as nat, d as nat);
            assert(power(0) == 1);
            assert(v * 1 == v);
        }
        Some(Self::rounded_times(digits, d, 0))
    }
}

/// A whole number as double precision rounds it.
pub fn round_whole(n: u64) -> (r: u128)
    ensures
        r == rounded(n as nat, 1),
        r <= 0x2_0000_0000_0000_0000,
        n > 0 ==> r > 0,
{
    let (digits, unit, _) = round(n as u128, 1);
    proof {
        if n < EXACT_DOUBLES {
            small_numbers_are_exact(n as nat);
        } else {
            rounding_is_close(n as nat, 1);
        }
    }
    digits * unit
}

/// Whole numbers of up to 53 digits are added up exactly.
pub proof fn small_sums_are_exact(a: nat, b: nat)
    requires
        a + b < EXACT_DOUBLES,
    ensures
        sum(a * power(ONE as nat), b * power(ONE as nat)) == (a + b) * power(ONE as nat),
{
    let one = power(ONE as nat);
    infinity_is();
    known_powers();
    powers_grow(ONE as nat + 53, 2_098);
    powers_add_up(53, ONE as nat);
    assert(a * one + b * one == (a + b) * one) by (nonlinear_arith);
    assert((a + b) * one < EXACT_DOUBLES * one) by (nonlinear_arith)
        requires
            a + b < EXACT_DOUBLES,
            one > 0,
    ;
    assert(a * one >= 0 && b * one >= 0) by (nonlinear_arith);
    rounding_with_zeros(a + b, ONE as nat);
    small_numbers_are_exact(a + b);
}

/// A double whose digits are those of a whole number stands for that number.
pub proof fn whole_double(bits: u64, n: nat, k: nat)
    requires
        bits >= 0x10_0000_0000_0000,
        bits as nat / 0x10_0000_0000_0000 + k == 1_075,
        0x10_0000_0000_0000 + bits as nat % 0x10_0000_0000_0000 == n * power(k),
    ensures
        parts(bits) == n * power(ONE as nat),
{
    let e = (bits as nat / 0x10_0000_0000_0000 - 1) as nat;
    powers_add_up(k, e);
    let p = power(k);
    let q = power(e);
    assert((n * p) * q == n * (p * q)) by (nonlinear_arith);
}

/// Infinity is a power of two.
proof fn infinity_is()
    ensures
        infinity() == power(2_098),
        infinity() == 0x10_0000_0000_0000 * power(2_046),
{
    known_powers();
    powers_add_up(2_046, 52);
    let p = power(2_046);
    assert(p * 0x10_0000_0000_0000 == 0x10_0000_0000_0000 * p) by (nonlinear_arith);
}

/// Whole seconds are counted exactly.
pub proof fn whole_spans_are_exact(rate: u32, secs: nat)
    requires
        secs * rate < EXACT_DOUBLES,
        secs < EXACT_DOUBLES,
    ensures
        times_in(rate, secs * 1_000_000_000) == secs * rate,
{
    let nanos = secs * 1_000_000_000;
    known_powers();
    small_numbers_are_exact(secs);
    rounding_with_zeros(secs, 82);
    assert(0 * SECOND as nat == 0);
    assert(rounded(0, 1_000_000_000) == 0);
    let rate = rate as nat;
    let all = secs * rate;
    small_numbers_are_exact(all);
    rounding_with_zeros(all, 82);
    assert((secs * SECOND) * rate == all * SECOND) by (nonlinear_arith)
        requires
            all == secs * rate,
    ;
    quotient_is(all * SECOND + SECOND - 1, SECOND as int, all as int, SECOND - 1);
}

} // verus!
