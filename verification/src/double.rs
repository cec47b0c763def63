//! Double precision over integers.
//!
//! Formulas and measurements whose results are defined by double-precision
//! arithmetic are computed here on mantissas and exponents: every operation is
//! exact and is then rounded to 53 binary digits, a half to the even neighbour.
use vstd::prelude::*;

use crate::text;

verus! {

/// One more than the greatest mantissa.
pub const MANT_LIMIT: u64 = 0x20_0000_0000_0000;
/// The least mantissa of a number at full precision.
pub const MANT_FULL: u64 = 0x10_0000_0000_0000;

// ---------------------------------------------------------------------------
// Powers of two and rounding

/// A power of two.
pub open spec fn two(k: nat) -> int
    decreases k,
{
    if k == 0 { 1 } else { 2 * two((k - 1) as nat) }
}

/// Powers of two are positive and rise.
pub proof fn two_rises(a: nat, b: nat)
    requires
        a <= b,
    ensures
        1 <= two(a) <= two(b),
    decreases b,
{
    if a < b {
        two_rises(a, (b - 1) as nat);
    } else if a > 0 {
        two_rises((a - 1) as nat, (b - 1) as nat);
    }
}

proof fn two_of_sum(a: nat, b: nat)
    ensures
        two(a + b) == two(a) * two(b),
    decreases b,
{
    if b > 0 {
        two_of_sum(a, (b - 1) as nat);
        assert(two(a) * (2 * two((b - 1) as nat)) == 2 * (two(a) * two((b - 1) as nat)))
            by (nonlinear_arith);
        assert((a + b - 1) as nat == a + (b - 1) as nat);
    }
}

/// Some powers of two.
pub proof fn some_powers()
    ensures
        two(52) == MANT_FULL,
        two(53) == MANT_LIMIT,
        two(64) == 0x1_0000_0000_0000_0000,
        two(70) == 0x40_0000_0000_0000_0000,
        two(82) == 0x4_0000_0000_0000_0000_0000,
        two(122) == 0x400_0000_0000_0000_0000_0000_0000_0000,
{
    assert(two(4) == 0x10 && two(5) == 0x20 && two(6) == 0x40 && two(12) == 0x1000) by {
        reveal_with_fuel(two, 13);
    }
    two_of_sum(12, 12);
    assert(two(24) == 0x1000000);
    two_of_sum(24, 24);
    assert(two(48) == 0x1000000000000);
    two_of_sum(48, 4);
    assert(two(52) == 0x10000000000000);
    two_of_sum(48, 5);
    assert(two(53) == 0x20000000000000);
    two_of_sum(52, 12);
    assert(two(64) == 0x10000000000000000);
    two_of_sum(64, 6);
    assert(two(70) == 0x400000000000000000);
    two_of_sum(70, 12);
    assert(two(82) == 0x400000000000000000000);
    two_of_sum(70, 52);
    assert(two(122) == 0x4000000000000000000000000000000);
}

fn power(k: u32) -> (r: u128)
    requires
        k <= 122,
    ensures
        r == two(k as nat),
{
    let mut r: u128 = 1;
    let mut i: u32 = 0;
    while i < k
        invariant
            i <= k <= 122,
            r == two(i as nat),
        decreases k - i,
    {
        proof {
            two_rises((i + 1) as nat, 122);
            some_powers();
        }
        r = 2 * r;
        i += 1;
    }
    r
}

/// A fraction to the nearest whole number, a half to the even one.
pub open spec fn to_nearest(num: int, den: int) -> int {
    let q = num / den;
    let rest = num % den;
    if 2 * rest > den || (2 * rest == den && q % 2 == 1) { q + 1 } else { q }
}

/// The nearest whole number is off by a half at most.
pub proof fn nearest_is_close(num: int, den: int)
    requires
        0 <= num,
        0 < den,
    ensures
        -den <= 2 * (to_nearest(num, den) * den - num) <= den,
        0 <= num / den <= to_nearest(num, den) <= num / den + 1,
{
    let q = num / den;
    let rest = num % den;
    assert(num == q * den + rest && 0 <= rest < den && q >= 0) by (nonlinear_arith)
        requires
            q == num / den,
            rest == num % den,
            num >= 0,
            den > 0,
    ;
    assert((q + 1) * den == q * den + den) by (nonlinear_arith);
}

fn nearest_whole(num: u128, den: u128) -> (r: u128)
    requires
        0 < den,
        num < 0x8000_0000_0000_0000_0000_0000_0000_0000,
        den < 0x4000_0000_0000_0000_0000_0000_0000_0000,
    ensures
        r == to_nearest(num as int, den as int),
{
    let q: u128 = num / den;
    let rest: u128 = num % den;
    assert(q <= num) by (nonlinear_arith)
        requires
            q == num / den,
            den >= 1,
            num >= 0,
    ;
    if 2 * rest > den || (2 * rest == den && q % 2 == 1) {
        q + 1
    } else {
        q
    }
}

/// `x` to the nearest multiple of the least power of two, from `g` on, that
/// leaves no more than 53 digits.
pub open spec fn grid(x: int, g: int) -> int
    decreases x - g,
{
    if g <= 0 || x < g * MANT_LIMIT {
        to_nearest(x, g) * g
    } else {
        grid(x, 2 * g)
    }
}

/// A whole number rounded to 53 binary digits.
#[verifier::opaque]
pub open spec fn rounded(x: int) -> int {
    if x < 0 { -grid(-x, 1) } else { grid(x, 1) }
}

/// The size of a number.
pub open spec fn size(x: int) -> int {
    if x < 0 { -x } else { x }
}

proof fn grid_is_close(x: int, g: int)
    requires
        0 <= x,
        g == 1 || (g > 1 && x >= g * MANT_FULL),
    ensures
        -x <= MANT_LIMIT * (grid(x, g) - x) <= x,
        0 <= grid(x, g),
    decreases x - g,
{
    if x < g * MANT_LIMIT {
        nearest_is_close(x, g);
        if g == 1 {
            assert(to_nearest(x, 1) == x);
        }
        assert(to_nearest(x, g) * g >= 0) by (nonlinear_arith)
            requires
                to_nearest(x, g) >= 0,
                g > 0,
        ;
    } else {
        grid_is_close(x, 2 * g);
    }
}

/// Rounding changes a number by no more than one part in 2^53.
pub proof fn rounding_is_close(x: int)
    ensures
        -size(x) <= 0x20_0000_0000_0000 * (rounded(x) - x) <= size(x),
        x >= 0 ==> rounded(x) >= 0,
        x <= 0 ==> rounded(x) <= 0,
{
    reveal(rounded);
    grid_is_close(size(x), 1);
}

/// Rounds a whole number to 53 binary digits.
pub fn round(x: i128) -> (r: i128)
    requires
        -0x100_0000_0000_0000_0000_0000_0000_0000 <= x,
        x <= 0x100_0000_0000_0000_0000_0000_0000_0000,
    ensures
        r == rounded(x as int),
        -size(x as int) <= 0x20_0000_0000_0000 * (r - x) <= size(x as int),
{
    let a: u128 = if x < 0 {
        (-x) as u128
    } else {
        x as u128
    };
    let mut g: u128 = 1;
    while a >= g * 0x20_0000_0000_0000
        invariant
            a <= 0x100_0000_0000_0000_0000_0000_0000_0000,
            1 <= g <= 0x10_0000_0000_0000_0000,
            grid(a as int, g as int) == grid(a as int, 1),
        decreases a - g,
    {
        g = 2 * g;
    }
    let q: u128 = nearest_whole(a, g);
    proof {
        rounding_is_close(x as int);
        reveal(rounded);
        assert(q * g == grid(a as int, 1));
    }
    let r: u128 = q * g;
    if x < 0 {
        -(r as i128)
    } else {
        r as i128
    }
}

// ---------------------------------------------------------------------------
// Numbers that are not negative

/// A number that is not negative: `mant * 2^exp`.
#[derive(Clone, Copy, Debug, PartialEq, Eq, Structural)]
pub struct Binary {
    pub mant: u64,
    pub exp: i32,
}

/// The same in unbounded integers.
pub struct BinaryView {
    pub mant: int,
    pub exp: int,
}

impl View for Binary {
    type V = BinaryView;

    open spec fn view(&self) -> BinaryView {
        BinaryView { mant: self.mant as int, exp: self.exp as int }
    }
}

/// A number with its exponent moved.
pub open spec fn scaled(v: BinaryView, by: int) -> BinaryView {
    BinaryView { mant: v.mant, exp: v.exp + by }
}

/// A whole number, as it is.
pub open spec fn whole(n: int) -> BinaryView {
    BinaryView { mant: n, exp: 0 }
}

/// The number of double precision nearest to a fraction.
pub open spec fn nearest(n: int, d: int) -> BinaryView
    decreases
            (if n >= d * MANT_LIMIT {
                n - d
            } else if n < d * MANT_FULL {
                d * MANT_FULL - n
            } else {
                0
            }),
{
    if n <= 0 || d <= 0 {
        whole(0)
    } else if n >= d * MANT_LIMIT {
        scaled(nearest(n, 2 * d), 1)
    } else if n < d * MANT_FULL {
        scaled(nearest(2 * n, d), -1)
    } else {
        whole(to_nearest(n, d))
    }
}

proof fn nearest_is_full(n: int, d: int)
    requires
        0 < n,
        0 < d,
    ensures
        MANT_FULL <= nearest(n, d).mant <= MANT_LIMIT,
    decreases
            (if n >= d * MANT_LIMIT {
                n - d
            } else if n < d * MANT_FULL {
                d * MANT_FULL - n
            } else {
                0
            }),
{
    if n >= d * MANT_LIMIT {
        nearest_is_full(n, 2 * d);
    } else if n < d * MANT_FULL {
        nearest_is_full(2 * n, d);
    } else {
        nearest_is_close(n, d);
        let q = n / d;
        assert(MANT_FULL <= q < MANT_LIMIT) by (nonlinear_arith)
            requires
                q == n / d,
                d > 0,
                d * MANT_FULL <= n < d * MANT_LIMIT,
        ;
    }
}

/// Where the exponent of a fraction stands.
pub proof fn nearest_exponent(n: int, d: int, k: nat)
    requires
        0 < n < d * MANT_LIMIT,
        0 < d,
    ensures
        nearest(n, d).exp <= 0,
        n * two(k) >= d * MANT_FULL ==> nearest(n, d).exp >= -k,
        n * two(k) < d * MANT_FULL ==> nearest(n, d).exp < -k,
    decreases
            (if n < d * MANT_FULL {
                d * MANT_FULL - n
            } else {
                0
            }),
{
    two_rises(0, k);
    if n >= d * MANT_FULL {
        assert(n * two(k) >= n) by (nonlinear_arith)
            requires
                n > 0,
                two(k) >= 1,
        ;
    } else if k == 0 {
        nearest_exponent(2 * n, d, 0);
        assert(nearest(n, d) == scaled(nearest(2 * n, d), -1));
        assert(n * two(0) == n);
    } else {
        let p = two((k - 1) as nat);
        nearest_exponent(2 * n, d, (k - 1) as nat);
        assert(nearest(n, d) == scaled(nearest(2 * n, d), -1));
        assert((2 * n) * p == n * two(k)) by (nonlinear_arith)
            requires
                two(k) == 2 * p,
        ;
    }
}

/// The number nearest to a fraction.
pub fn divide(n: u128, d: u128) -> (r: Binary)
    requires
        n < 0x100_0000_0000_0000_0000_0000_0000_0000,
        0 < d <= 0x1_0000_0000_0000_0000,
    ensures
        r@ == nearest(n as int, d as int),
        n > 0 ==> MANT_FULL <= r.mant <= MANT_LIMIT,
        n == 0 ==> r.mant == 0 && r.exp == 0,
        -122 <= r.exp <= 122,
{
    if n == 0 {
        return Binary { mant: 0, exp: 0 };
    }
    let mut a: u128 = n;
    let mut b: u128 = d;
    let mut exp: i32 = 0;
    while a >= b * 0x20_0000_0000_0000
        invariant
            0 < a,
            a == n,
            a < 0x100_0000_0000_0000_0000_0000_0000_0000,
            0 < d <= 0x1_0000_0000_0000_0000,
            0 < b <= 0x10_0000_0000_0000_0000,
            0 <= exp <= 122,
            two(exp as nat) <= b,
            exp == 0 ==> b == d,
            exp > 0 ==> a >= b * 0x10_0000_0000_0000,
            nearest(n as int, d as int) == scaled(nearest(a as int, b as int), exp as int),
        decreases a - b,
    {
        proof {
            some_powers();
            if exp >= 82 {
                two_rises(82, exp as nat);
            }
        }
        b = 2 * b;
        exp += 1;
    }
    if exp == 0 {
        let mut down: u32 = 0;
        while a < b * 0x10_0000_0000_0000
            invariant
                0 < a < b * 0x20_0000_0000_0000,
                0 < b <= 0x1_0000_0000_0000_0000,
                down <= 122,
                two(down as nat) <= a,
                nearest(n as int, d as int) == scaled(nearest(a as int, b as int), -down),
            decreases
                    (if a < b * 0x10_0000_0000_0000 {
                        b * 0x10_0000_0000_0000 - a
                    } else {
                        0
                    }),
        {
            proof {
                some_powers();
                if down >= 122 {
                    two_rises(122, down as nat);
                }
            }
            a = 2 * a;
            down += 1;
        }
        exp = -(down as i32);
    }
    proof {
        nearest_is_full(a as int, b as int);
    }
    let q: u128 = nearest_whole(a, b);
    Binary { mant: q as u64, exp }
}

/// The number nearest to the quotient of two.
pub open spec fn over(a: BinaryView, b: BinaryView) -> BinaryView {
    if a.mant == 0 {
        whole(0)
    } else {
        scaled(nearest(a.mant, b.mant), a.exp - b.exp)
    }
}

/// The quotient of two numbers.
pub fn quotient(a: Binary, b: Binary) -> (r: Binary)
    requires
        b.mant > 0,
        -10000 <= a.exp <= 10000,
        -10000 <= b.exp <= 10000,
    ensures
        r@ == over(a@, b@),
        a.mant > 0 ==> MANT_FULL <= r.mant <= MANT_LIMIT,
        a.mant == 0 ==> r.mant == 0 && r.exp == 0,
        a.mant > 0 ==> -122 <= r.exp - (a.exp - b.exp) <= 122,
{
    if a.mant == 0 {
        return Binary { mant: 0, exp: 0 };
    }
    let q = divide(a.mant as u128, b.mant as u128);
    Binary { mant: q.mant, exp: q.exp + a.exp - b.exp }
}

/// A time of nanoseconds in seconds: the whole seconds and the fraction, which
/// is rounded first, and then their sum.
pub open spec fn seconds_of(ns: int) -> BinaryView {
    let part = nearest(ns % 1_000_000_000, 1_000_000_000);
    if ns % 1_000_000_000 == 0 {
        nearest(ns / 1_000_000_000, 1)
    } else {
        scaled(
            nearest(ns / 1_000_000_000 * two((-part.exp) as nat) + part.mant, 1),
            part.exp,
        )
    }
}

/// A time of nanoseconds in seconds.
pub fn seconds(ns: u64) -> (r: Binary)
    ensures
        r@ == seconds_of(ns as int),
        ns > 0 ==> MANT_FULL <= r.mant <= MANT_LIMIT,
        ns == 0 ==> r.mant == 0,
        -82 <= r.exp <= 122,
{
    let whole_s: u64 = ns / 1_000_000_000;
    let rest: u64 = ns % 1_000_000_000;
    if rest == 0 {
        let r = divide(whole_s as u128, 1);
        proof {
            if whole_s > 0 {
                some_powers();
                nearest_exponent(whole_s as int, 1, 52);
            }
        }
        return r;
    }
    let part = divide(rest as u128, 1_000_000_000);
    proof {
        some_powers();
        nearest_exponent(rest as int, 1_000_000_000, 82);
    }
    let unit: u128 = power((-part.exp) as u32);
    proof {
        two_rises((-part.exp) as nat, 82);
        assert(whole_s * unit <= 0x5_0000_0000 * 0x4_0000_0000_0000_0000_0000) by (nonlinear_arith)
            requires
                0 <= whole_s <= 0x5_0000_0000,
                0 <= unit <= 0x4_0000_0000_0000_0000_0000,
        ;
    }
    let sum: u128 = whole_s as u128 * unit + part.mant as u128;
    let r = divide(sum, 1);
    proof {
        if sum < MANT_LIMIT {
            nearest_exponent(sum as int, 1, 0);
            assert(sum >= MANT_FULL) by {
                assert(whole_s * unit >= 0) by (nonlinear_arith)
                    requires
                        whole_s >= 0,
                        unit >= 0,
                ;
            }
            assert(sum * two(0) == sum);
        } else {
            big_is_not_lowered(sum as int, 1);
        }
    }
    Binary { mant: r.mant, exp: r.exp + part.exp }
}

/// A quotient's exponent, by the powers of two that the mantissas lie between.
pub proof fn quotient_exponent(a: BinaryView, b: BinaryView, k: nat)
    requires
        0 < a.mant <= MANT_LIMIT,
        0 < b.mant,
        a.mant * two(k) < b.mant * MANT_FULL,
    ensures
        over(a, b).exp < a.exp - b.exp - k,
{
    two_rises(0, k);
    assert(a.mant * two(k) >= a.mant) by (nonlinear_arith)
        requires
            a.mant > 0,
            two(k) >= 1,
    ;
    nearest_exponent(a.mant, b.mant, k);
}

/// A quotient by a whole number has at most the next exponent.
pub proof fn quotient_of_more(a: BinaryView, b: BinaryView)
    requires
        0 < a.mant <= MANT_LIMIT,
        0 < b.mant,
    ensures
        over(a, b).exp <= a.exp - b.exp + 1,
{
    if a.mant < b.mant * MANT_LIMIT {
        nearest_exponent(a.mant, b.mant, 0);
    } else {
        nearest_exponent(a.mant, 2 * b.mant, 0);
        assert(nearest(a.mant, b.mant) == scaled(nearest(a.mant, 2 * b.mant), 1));
    }
}

proof fn big_is_not_lowered(n: int, d: int)
    requires
        0 < d,
        n >= d * MANT_FULL,
    ensures
        nearest(n, d).exp >= 0,
    decreases n - d,
{
    if n >= d * MANT_LIMIT {
        big_is_not_lowered(n, 2 * d);
    }
}

/// `k` times a number to the nearest whole, a half to the even one.
pub open spec fn times(v: BinaryView, k: int) -> int {
    if v.exp >= 0 {
        k * v.mant * two(v.exp as nat)
    } else {
        to_nearest(k * v.mant, two((-v.exp) as nat))
    }
}

/// `k` times a small number to the nearest whole.
pub fn multiple(v: Binary, k: u64) -> (r: u64)
    requires
        v.mant <= MANT_LIMIT,
        -30000 <= v.exp <= 0,
        k <= 10,
    ensures
        r == times(v@, k as int),
{
    assert(0 <= k * v.mant <= 10 * MANT_LIMIT) by (nonlinear_arith)
        requires
            0 <= k <= 10,
            0 <= v.mant <= MANT_LIMIT,
    ;
    let n: u64 = k * v.mant;
    if v.exp == 0 {
        assert(two(0) == 1);
        assert(n * two(0) == n);
        return n;
    }
    let down: u32 = (-v.exp) as u32;
    proof {
        some_powers();
    }
    if down >= 70 {
        proof {
            two_rises(70, down as nat);
            let d = two(down as nat);
            assert(n as int / d == 0 && n as int % d == n) by (nonlinear_arith)
                requires
                    0 <= n < d,
            ;
        }
        return 0;
    }
    proof {
        two_rises(down as nat, 70);
        nearest_is_close(n as int, two(down as nat));
        assert(n as int / two(down as nat) <= n) by (nonlinear_arith)
            requires
                n >= 0,
                two(down as nat) >= 1,
        ;
    }
    nearest_whole(n as u128, power(down)) as u64
}

/// A number to the nearest whole, a half upwards.
pub open spec fn half_up(v: BinaryView) -> int {
    if v.exp >= 0 {
        v.mant * two(v.exp as nat)
    } else {
        (2 * v.mant + two((-v.exp) as nat)) / (2 * two((-v.exp) as nat))
    }
}

/// A number to the nearest whole, a half upwards, no more than 100.
pub fn up_to_hundred(v: Binary) -> (r: u8)
    requires
        v.mant == 0 || MANT_FULL <= v.mant <= MANT_LIMIT,
        -30000 <= v.exp,
    ensures
        r == (if half_up(v@) > 100 {
            100
        } else {
            half_up(v@)
        }),
        r <= 100,
{
    if v.exp >= 0 {
        proof {
            two_rises(0, v.exp as nat);
            assert(v.mant * two(v.exp as nat) >= v.mant) by (nonlinear_arith)
                requires
                    v.mant >= 0,
                    two(v.exp as nat) >= 1,
            ;
            assert(0 * two(v.exp as nat) == 0);
        }
        return if v.mant == 0 {
            0
        } else {
            100
        };
    }
    let down: u32 = (-v.exp) as u32;
    proof {
        some_powers();
    }
    if down >= 70 {
        proof {
            two_rises(70, down as nat);
            let d = two(down as nat);
            let m = v.mant as int;
            assert((2 * m + d) / (2 * d) == 0) by (nonlinear_arith)
                requires
                    0 <= 2 * m < d,
            ;
        }
        return 0;
    }
    proof {
        two_rises(down as nat, 70);
        let d = two(down as nat);
        let m = v.mant as int;
        assert((2 * m + d) / (2 * d) >= 0) by (nonlinear_arith)
            requires
                0 <= m,
                1 <= d,
        ;
    }
    let p: u128 = power(down);
    let q: u128 = (2 * (v.mant as u128) + p) / (2 * p);
    if q > 100 {
        100
    } else {
        q as u8
    }
}

/// One number is another or more.
pub open spec fn at_least(a: BinaryView, b: BinaryView) -> bool {
    if a.exp >= b.exp {
        a.mant * two((a.exp - b.exp) as nat) >= b.mant
    } else {
        a.mant >= b.mant * two((b.exp - a.exp) as nat)
    }
}

fn outweighs(a: u64, b: u64, by: i64) -> (r: bool)
    requires
        0 <= by,
    ensures
        r == (a * two(by as nat) >= b),
{
    if a == 0 {
        assert(0 * two(by as nat) == 0);
        return b == 0;
    }
    proof {
        some_powers();
    }
    if by >= 64 {
        proof {
            two_rises(64, by as nat);
            assert(a * two(by as nat) >= two(by as nat)) by (nonlinear_arith)
                requires
                    a >= 1,
                    two(by as nat) >= 1,
            ;
        }
        return true;
    }
    let p: u128 = power(by as u32);
    proof {
        two_rises((by + 1) as nat, 64);
        assert(a * p <= 0xFFFF_FFFF_FFFF_FFFF * 0x8000_0000_0000_0000) by (nonlinear_arith)
            requires
                0 <= a <= 0xFFFF_FFFF_FFFF_FFFF,
                0 <= p <= 0x8000_0000_0000_0000,
        ;
    }
    a as u128 * p >= b as u128
}

fn exceeds(a: u64, b: u64, by: i64) -> (r: bool)
    requires
        0 <= by,
    ensures
        r == (a >= b * two(by as nat)),
{
    if b == 0 {
        assert(0 * two(by as nat) == 0);
        return true;
    }
    proof {
        some_powers();
    }
    if by >= 64 {
        proof {
            two_rises(64, by as nat);
            assert(b * two(by as nat) >= two(by as nat)) by (nonlinear_arith)
                requires
                    b >= 1,
                    two(by as nat) >= 1,
            ;
        }
        return false;
    }
    let p: u128 = power(by as u32);
    proof {
        two_rises((by + 1) as nat, 64);
        assert(b * p <= 0xFFFF_FFFF_FFFF_FFFF * 0x8000_0000_0000_0000) by (nonlinear_arith)
            requires
                0 <= b <= 0xFFFF_FFFF_FFFF_FFFF,
                0 <= p <= 0x8000_0000_0000_0000,
        ;
    }
    a as u128 >= b as u128 * p
}

/// Whether a number is another or more.
pub fn reaches(a: Binary, b: Binary) -> (r: bool)
    ensures
        r == at_least(a@, b@),
{
    let by: i64 = a.exp as i64 - b.exp as i64;
    if by >= 0 {
        outweighs(a.mant, b.mant, by)
    } else {
        exceeds(a.mant, b.mant, -by)
    }
}

// ---------------------------------------------------------------------------
// Any number

/// A number of double precision: not a number, infinite, or `mant * 2^exp` with
/// its sign.
#[derive(Clone, Copy, Debug, PartialEq, Eq, Structural)]
pub enum Double {
    Nan,
    Infinite { negative: bool },
    Finite { negative: bool, mant: u64, exp: i32 },
}

impl Double {
    /// A finite number without its sign.
    pub open spec fn magnitude(self) -> BinaryView {
        match self {
            Double::Finite { negative, mant, exp } => BinaryView {
                mant: mant as int,
                exp: exp as int,
            },
            _ => whole(0),
        }
    }

    /// Below zero.
    pub open spec fn below_zero(self) -> bool {
        match self {
            Double::Nan => false,
            Double::Infinite { negative } => negative,
            Double::Finite { negative, mant, exp } => negative && mant > 0,
        }
    }

    /// This number is another or more; nothing is said of what is no number.
    pub open spec fn not_less(self, other: Double) -> bool {
        if self is Nan || other is Nan {
            false
        } else if self.below_zero() != other.below_zero() {
            other.below_zero()
        } else if self.below_zero() {
            self is Finite && (other is Infinite || at_least(other.magnitude(), self.magnitude()))
                || self is Infinite && other is Infinite
        } else {
            self is Infinite || (other is Finite && at_least(self.magnitude(), other.magnitude()))
        }
    }

    /// Whether this number is another or more.
    pub fn reaches(self, other: Double) -> (r: bool)
        ensures
            r == self.not_less(other),
    {
        match (self, other) {
            (Double::Nan, _) => false,
            (_, Double::Nan) => false,
            (Double::Infinite { negative }, Double::Infinite { negative: n }) => !negative || n,
            (Double::Infinite { negative }, Double::Finite { .. }) => !negative,
            (Double::Finite { .. }, Double::Infinite { negative }) => negative,
            (
                Double::Finite { negative, mant, exp },
                Double::Finite { negative: n, mant: m, exp: e },
            ) => {
                let a = Binary { mant, exp };
                let b = Binary { mant: m, exp: e };
                let low: bool = negative && mant > 0;
                let other_low: bool = n && m > 0;
                if low != other_low {
                    other_low
                } else if low {
                    reaches(b, a)
                } else {
                    reaches(a, b)
                }
            },
        }
    }

    /// The greater of two numbers; what is no number gives way.
    pub open spec fn greater(self, other: Double) -> Double {
        if self is Nan || (!(other is Nan) && !self.not_less(other)) { other } else { self }
    }

    /// The greater of two numbers.
    pub fn max(self, other: Double) -> (r: Double)
        ensures
            r == self.greater(other),
    {
        match self {
            Double::Nan => other,
            _ => match other {
                Double::Nan => self,
                _ => if self.reaches(other) {
                    self
                } else {
                    other
                },
            },
        }
    }

    /// The number that 64 bits stand for: a sign, eleven bits of the exponent
    /// and the fraction of the mantissa.
    pub open spec fn of_bits(bits: u64) -> Double {
        let negative = bits >= 0x8000_0000_0000_0000;
        let at = (bits / 0x10_0000_0000_0000) as int % 2048;
        let fraction = bits % 0x10_0000_0000_0000;
        if at == 2047 && fraction > 0 {
            Double::Nan
        } else if at == 2047 {
            Double::Infinite { negative }
        } else if at == 0 {
            Double::Finite { negative, mant: fraction, exp: -1074i32 }
        } else {
            Double::Finite {
                negative,
                mant: (MANT_FULL + fraction) as u64,
                exp: (at - 1075) as i32,
            }
        }
    }

    /// The number that 64 bits stand for.
    pub fn from_bits(bits: u64) -> (r: Double)
        ensures
            r == Double::of_bits(bits),
    {
        let negative: bool = bits >= 0x8000_0000_0000_0000;
        let at: u64 = (bits / 0x10_0000_0000_0000) % 2048;
        let fraction: u64 = bits % 0x10_0000_0000_0000;
        if at == 2047 && fraction > 0 {
            Double::Nan
        } else if at == 2047 {
            Double::Infinite { negative }
        } else if at == 0 {
            Double::Finite { negative, mant: fraction, exp: -1074 }
        } else {
            Double::Finite { negative, mant: MANT_FULL + fraction, exp: at as i32 - 1075 }
        }
    }

    /// A number that is not negative.
    pub open spec fn positive(v: BinaryView) -> Double {
        Double::Finite { negative: false, mant: v.mant as u64, exp: v.exp as i32 }
    }

    /// A whole number of 32 bits.
    pub open spec fn small(n: u32) -> Double {
        Double::Finite { negative: false, mant: n as u64, exp: 0 }
    }

    /// A whole number of 32 bits.
    pub fn from_u32(n: u32) -> (r: Double)
        ensures
            r == Double::small(n),
    {
        Double::Finite { negative: false, mant: n as u64, exp: 0 }
    }

    /// The number nearest to a whole one.
    pub open spec fn of_int(n: int) -> Double {
        let v = nearest(size(n), 1);
        Double::Finite { negative: n < 0, mant: v.mant as u64, exp: v.exp as i32 }
    }

    /// The number nearest to a whole one.
    pub fn from_i64(n: i64) -> (r: Double)
        ensures
            r == Double::of_int(n as int),
    {
        let wide: i128 = n as i128;
        let b = divide(
            if wide < 0 {
                (-wide) as u128
            } else {
                wide as u128
            },
            1,
        );
        assert(b@.mant == b.mant && b@.exp == b.exp);
        Double::Finite { negative: n < 0, mant: b.mant, exp: b.exp }
    }
}

// ---------------------------------------------------------------------------
// In decimal

/// The value of decimal digits, the highest first.
pub open spec fn value(v: Seq<u8>) -> int
    decreases v.len(),
{
    if v.len() == 0 { 0 } else { 10 * value(v.drop_last()) + v.last() }
}

/// Decimal digits, at least one, without a leading zero.
pub open spec fn canonical(v: Seq<u8>) -> bool {
    &&& v.len() > 0
    &&& v[0] != 0
    &&& forall|i: int| 0 <= i < v.len() ==> #[trigger] v[i] < 10
}

/// Digits doubled, with a carry.
pub open spec fn doubled(v: Seq<u8>, carry: int) -> Seq<u8>
    decreases v.len(),
{
    if v.len() == 0 {
        if carry > 0 { seq![carry as u8] } else { seq![] }
    } else {
        let t = 2 * v.last() + carry;
        doubled(v.drop_last(), t / 10).push((t % 10) as u8)
    }
}

proof fn doubling_doubles(v: Seq<u8>, carry: int)
    requires
        forall|i: int| 0 <= i < v.len() ==> #[trigger] v[i] < 10,
        0 <= carry <= 1,
    ensures
        value(doubled(v, carry)) == 2 * value(v) + carry,
        forall|i: int| 0 <= i < doubled(v, carry).len() ==> #[trigger] doubled(v, carry)[i] < 10,
        v.len() > 0 && v[0] != 0 ==> canonical(doubled(v, carry)),
    decreases v.len(),
{
    reveal_with_fuel(value, 2);
    let r = doubled(v, carry);
    if v.len() > 0 {
        let t = 2 * v.last() + carry;
        let front = v.drop_last();
        assert forall|i: int| 0 <= i < front.len() implies #[trigger] front[i] < 10 by {
            assert(front[i] == v[i]);
        }
        doubling_doubles(front, t / 10);
        let high = doubled(front, t / 10);
        assert(r.drop_last() =~= high);
        assert forall|i: int| 0 <= i < r.len() implies #[trigger] r[i] < 10 by {
            if i < high.len() {
                assert(r[i] == high[i]);
            }
        }
        if v[0] != 0 {
            if front.len() > 0 {
                assert(r[0] == high[0]);
            } else if t / 10 > 0 {
                assert(high =~= seq![(t / 10) as u8]);
                assert(r[0] == high[0]);
            } else {
                assert(high =~= seq![]);
            }
        }
    } else if carry > 0 {
        assert(r.drop_last() =~= seq![]);
    }
}

fn double_digits(v: Vec<u8>) -> (r: Vec<u8>)
    requires
        canonical(v@),
    ensures
        canonical(r@),
        value(r@) == 2 * value(v@),
{
    let ghost all = v@;
    let mut w: Vec<u8> = v;
    let mut carry: u8 = 0;
    let mut j: usize = w.len();
    proof {
        doubling_doubles(all, 0);
        assert(all.take(all.len() as int) =~= all);
        assert(doubled(all, 0) =~= doubled(all.take(j as int), 0) + w@.skip(j as int));
    }
    while j > 0
        invariant
            j <= all.len(),
            w@.len() == all.len(),
            carry <= 1,
            forall|i: int| 0 <= i < all.len() ==> #[trigger] all[i] < 10,
            w@.take(j as int) == all.take(j as int),
            doubled(all, 0) == doubled(all.take(j as int), carry as int) + w@.skip(j as int),
        decreases j,
    {
        assert(w@[j - 1] == w@.take(j as int)[j - 1]);
        let t: u8 = 2 * w[j - 1] + carry;
        let ghost before = w@;
        w.set(j - 1, t % 10);
        proof {
            let front = all.take(j as int);
            assert(front.drop_last() =~= all.take(j - 1));
            assert(w@.skip(j - 1) =~= seq![(t % 10) as u8] + before.skip(j as int));
            assert(w@.take(j - 1) =~= all.take(j - 1)) by {
                assert(before.take(j as int).take(j - 1) =~= before.take(j - 1));
                assert(all.take(j as int).take(j - 1) =~= all.take(j - 1));
            }
            let high = doubled(all.take(j - 1), (t / 10) as int);
            assert(high.push((t % 10) as u8) + before.skip(j as int) =~= high + w@.skip(j - 1));
        }
        carry = t / 10;
        j -= 1;
    }
    assert(w@.skip(0) =~= w@);
    assert(all.take(0) =~= seq![]);
    if carry > 0 {
        let ghost before = w@;
        w.insert(0, carry);
        assert(w@ =~= seq![carry] + before);
    }
    assert(w@ =~= doubled(all, 0));
    w
}

fn digits_of(n: u64) -> (r: Vec<u8>)
    requires
        n > 0,
    ensures
        canonical(r@),
        value(r@) == n,
    decreases n,
{
    reveal_with_fuel(value, 2);
    if n < 10 {
        let mut r: Vec<u8> = Vec::new();
        r.push(n as u8);
        assert(r@.drop_last() =~= seq![]);
        return r;
    }
    let mut r: Vec<u8> = digits_of(n / 10);
    let ghost before = r@;
    r.push((n % 10) as u8);
    assert(r@.drop_last() =~= before);
    r
}

/// Digits as characters.
pub open spec fn shown(v: Seq<u8>) -> Seq<char> {
    Seq::new(v.len(), |i: int| text::digit_char(v[i] as int))
}

proof fn shown_is_decimal(v: Seq<u8>)
    requires
        canonical(v),
    ensures
        shown(v) == text::dec(value(v) as nat),
        value(v) > 0,
    decreases v.len(),
{
    reveal_with_fuel(value, 2);
    if v.len() == 1 {
        assert(v.drop_last() =~= seq![]);
        assert(shown(v) =~= seq![text::digit_char(v[0] as int)]);
    } else {
        let front = v.drop_last();
        assert(front[0] == v[0]);
        assert forall|i: int| 0 <= i < front.len() implies #[trigger] front[i] < 10 by {
            assert(front[i] == v[i]);
        }
        shown_is_decimal(front);
        assert(shown(v) =~= shown(front).push(text::digit_char(v.last() as int)));
    }
}

/// `mant * 2^up` in decimal.
fn decimal_of(mant: u64, up: u64) -> (r: String)
    ensures
        r@ == text::dec((mant * two(up as nat)) as nat),
{
    if mant == 0 {
        assert(0 * two(up as nat) == 0);
        return text::decimal(0);
    }
    let mut v: Vec<u8> = digits_of(mant);
    let mut i: u64 = 0;
    assert(mant * two(0) == mant) by {
        assert(two(0) == 1);
    }
    while i < up
        invariant
            i <= up,
            canonical(v@),
            value(v@) == mant * two(i as nat),
        decreases up - i,
    {
        v = double_digits(v);
        assert(2 * (mant * two(i as nat)) == mant * two((i + 1) as nat)) by (nonlinear_arith)
            requires
                two((i + 1) as nat) == 2 * two(i as nat),
        ;
        i += 1;
    }
    let mut r = String::new();
    let mut k: usize = 0;
    while k < v.len()
        invariant
            k <= v@.len(),
            canonical(v@),
            r@ =~= shown(v@).take(k as int),
        decreases v@.len() - k,
    {
        r.append(text::decimal(v[k] as u64).as_str());
        proof {
            let d = v@[k as int];
            assert(text::dec(d as nat) =~= seq![text::digit_char(d as int)]);
        }
        k += 1;
    }
    proof {
        shown_is_decimal(v@);
        assert(shown(v@).take(k as int) =~= shown(v@));
    }
    r
}

/// A thousandth of a number, rounded, in whole digits with its sign.
pub open spec fn thousandth_text(x: Double) -> Seq<char> {
    match x {
        Double::Nan => "NaN"@,
        Double::Infinite { negative } => if negative { "-inf"@ } else { "inf"@ },
        Double::Finite { negative, mant, exp } => (if negative { "-"@ } else { ""@ }) + text::dec(
            times(over(x.magnitude(), whole(1000)), 1) as nat,
        ),
    }
}

/// A thousandth of a number in whole digits.
pub fn show_thousandth(x: Double) -> (r: String)
    ensures
        r@ == thousandth_text(x),
{
    match x {
        Double::Nan => "NaN".to_owned(),
        Double::Infinite { negative } => if negative {
            "-inf".to_owned()
        } else {
            "inf".to_owned()
        },
        Double::Finite { negative, mant, exp } => {
            let sign = if negative {
                "-"
            } else {
                ""
            };
            if mant == 0 {
                assert(times(whole(0), 1) == 0) by {
                    assert(two(0) == 1);
                }
                return text::join2(sign, text::decimal(0).as_str());
            }
            let q = divide(mant as u128, 1000);
            let at: i64 = q.exp as i64 + exp as i64;
            if at >= 0 {
                assert(1 * q.mant * two(at as nat) == q.mant * two(at as nat)) by (nonlinear_arith);
                text::join2(sign, decimal_of(q.mant, at as u64).as_str())
            } else if at < -70 {
                proof {
                    some_powers();
                    two_rises(70, (-at) as nat);
                    let d = two((-at) as nat);
                    assert(q.mant as int / d == 0 && q.mant as int % d == q.mant) by (nonlinear_arith)
                        requires
                            0 <= q.mant < d,
                    ;
                }
                text::join2(sign, text::decimal(0).as_str())
            } else {
                let n: u64 = multiple(Binary { mant: q.mant, exp: at as i32 }, 1);
                text::join2(sign, text::decimal(n).as_str())
            }
        },
    }
}

// ---------------------------------------------------------------------------
// Laws

/// The number of double precision for a fraction is at full precision and off by
/// half a unit of its last digit at most.
pub proof fn fraction_is_nearest(n: int, d: int)
    requires
        0 < n,
        0 < d,
    ensures
        ({
            let v = nearest(n, d);
            &&& 0x10_0000_0000_0000 <= v.mant <= 0x20_0000_0000_0000
            &&& v.exp >= 0 ==> -(two(v.exp as nat) * d) <= 2 * (v.mant * (two(v.exp as nat) * d) - n)
                <= two(v.exp as nat) * d
            &&& v.exp < 0 ==> -d <= 2 * (v.mant * d - n * two((-v.exp) as nat)) <= d
        }),
    decreases
            (if n >= d * MANT_LIMIT {
                n - d
            } else if n < d * MANT_FULL {
                d * MANT_FULL - n
            } else {
                0
            }),
{
    nearest_is_full(n, d);
    let v = nearest(n, d);
    if n >= d * MANT_LIMIT {
        let w = nearest(n, 2 * d);
        fraction_is_nearest(n, 2 * d);
        big_is_not_lowered(n, 2 * d);
        assert(v == scaled(w, 1));
        assert(two(w.exp as nat) * (2 * d) == two(v.exp as nat) * d) by (nonlinear_arith)
            requires
                two(v.exp as nat) == 2 * two(w.exp as nat),
        ;
    } else if n < d * MANT_FULL {
        let w = nearest(2 * n, d);
        fraction_is_nearest(2 * n, d);
        nearest_exponent(2 * n, d, 0);
        assert(v == scaled(w, -1));
        let up = (-w.exp) as nat;
        assert(two(up + 1) == 2 * two(up));
        assert((-v.exp) as nat == up + 1);
        assert((2 * n) * two(up) == n * two(up + 1)) by (nonlinear_arith)
            requires
                two(up + 1) == 2 * two(up),
        ;
        if w.exp == 0 {
            assert(two(0) == 1);
            assert(w.mant * (1 * d) == w.mant * d);
            assert(two(0) * d == d);
            assert((2 * n) * two(up) == 2 * n) by (nonlinear_arith)
                requires
                    two(up) == 1,
            ;
        }
    } else {
        nearest_is_close(n, d);
        assert(two(0) == 1);
        assert(two(0) * d == d);
    }
}

/// The greater of two numbers is one of them and no less than either; what is no
/// number gives way to what is one.
pub proof fn greater_is_one_of_both(a: Double, b: Double)
    ensures
        a.greater(b) == a || a.greater(b) == b,
        a is Nan ==> a.greater(b) == b,
        b is Nan && !(a is Nan) ==> a.greater(b) == a,
        !(a is Nan) && !(b is Nan) ==> a.greater(b).not_less(a) && a.greater(b).not_less(b),
{
    assert(two(0) == 1);
    let (x, y) = (a.magnitude(), b.magnitude());
    one_reaches_the_other(x, y);
    one_reaches_the_other(x, x);
    one_reaches_the_other(y, y);
}

proof fn one_reaches_the_other(x: BinaryView, y: BinaryView)
    ensures
        at_least(x, y) || at_least(y, x),
{
    if x.exp == y.exp {
        assert(two(0) == 1);
        assert(x.mant * two(0) == x.mant);
        assert(y.mant * two(0) == y.mant);
    }
}

/// Numbers are ordered by their sign first: one below zero is less than any that
/// is not, and nothing is said of what is no number.
pub proof fn order_goes_by_the_sign(a: Double, b: Double)
    ensures
        a is Nan || b is Nan ==> !a.not_less(b),
        !(a is Nan) && !(b is Nan) && a.below_zero() && !b.below_zero() ==> !a.not_less(b)
            && b.not_less(a),
        a == (Double::Infinite { negative: false }) && !(b is Nan) ==> a.not_less(b),
        a == (Double::Infinite { negative: true }) && !(b is Nan) ==> b.not_less(a),
{
}

/// Whole numbers are ordered as they are.
pub proof fn whole_numbers_keep_their_order(m: u32, n: u32)
    ensures
        Double::small(m).not_less(Double::small(n)) <==> m >= n,
{
    assert(two(0) == 1);
}

/// Doubling a mantissa is worth as much as one more in the exponent.
pub proof fn exponent_weighs_double(mant: int, exp: int)
    ensures
        at_least(BinaryView { mant: 2 * mant, exp }, BinaryView { mant, exp: exp + 1 }),
        at_least(BinaryView { mant, exp: exp + 1 }, BinaryView { mant: 2 * mant, exp }),
{
    assert(two(0) == 1);
    assert(two(1) == 2 * two(0));
    assert((exp + 1 - exp) as nat == 1);
    assert(mant * two(1) == 2 * mant) by (nonlinear_arith)
        requires
            two(1) == 2,
    ;
}

/// Negating the bits' sign negates the number and changes nothing else.
pub proof fn sign_bit_is_the_sign(bits: u64)
    requires
        bits < 0x8000_0000_0000_0000,
    ensures
        ({
            let p = Double::of_bits(bits);
            let n = Double::of_bits((bits + 0x8000_0000_0000_0000) as u64);
            &&& p is Nan <==> n is Nan
            &&& p matches Double::Infinite { negative } ==> !negative && n == (Double::Infinite {
                negative: true,
            })
            &&& p matches Double::Finite { negative, mant, exp } ==> !negative && n
                == (Double::Finite { negative: true, mant, exp })
        }),
{
}

/// The bits of a normal number give its fraction and its exponent: one more in the
/// exponent's bits doubles it, one more in the fraction is one more in the mantissa.
pub proof fn bits_count_in_their_fields(bits: u64)
    requires
        0x10_0000_0000_0000 <= bits < 0x7FE0_0000_0000_0000,
    ensures
        ({
            let a = Double::of_bits(bits);
            let b = Double::of_bits((bits + 0x10_0000_0000_0000) as u64);
            let c = Double::of_bits((bits + 1) as u64);
            &&& a is Finite && b is Finite && c is Finite
            &&& a->mant == b->mant && b->exp == a->exp + 1
            &&& 0x10_0000_0000_0000 <= a->mant < 0x20_0000_0000_0000
            &&& bits % 0x10_0000_0000_0000 != 0xF_FFFF_FFFF_FFFF ==> c->mant == a->mant + 1
                && c->exp == a->exp
        }),
        Double::of_bits(0x3FF0_0000_0000_0000) == (Double::Finite {
            negative: false,
            mant: 0x10_0000_0000_0000,
            exp: -52i32,
        }),
{
}

} // verus!
