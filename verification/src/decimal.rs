//! Decimal quotes.
//!
//! The exchange quotes prices and balances as decimal texts. They are compared
//! exactly, as fractions.

use vstd::arithmetic::div_mod::{lemma_div_multiples_vanish, lemma_div_multiples_vanish_quotient};
use vstd::arithmetic::power::{lemma_pow_adds, lemma_pow_increases, lemma_pow_positive, pow};
use vstd::prelude::*;

verus! {

/// The number that a decimal text stands for, as `rust_decimal` reads it: its
/// mantissa and the number of its decimal places.
pub uninterp spec fn decimal_of_text(text: Seq<char>) -> Option<(int, nat)>;

/// Reads a decimal text with `rust_decimal::Decimal::from_str`.
///
/// Which texts it accepts, and what it reads from them, is taken to be a function
/// of the text alone. A `Decimal` has a mantissa of 96 bits and at most 28 decimal
/// places.
#[verifier::external_body]
fn decimal_parts(text: &str) -> (res: Option<(i128, u32)>)
    ensures
        match res {
            Some(p) => decimal_of_text(text@) == Some((p.0 as int, p.1 as nat)),
            None => decimal_of_text(text@) is None,
        },
        res matches Some(p) ==> -0x1_0000_0000_0000_0000_0000_0000 < p.0
            < 0x1_0000_0000_0000_0000_0000_0000 && p.1 <= 28,
{
    match text.parse::<rust_decimal::Decimal>() {
        Ok(d) => Some((d.mantissa(), d.scale())),
        Err(_) => None,
    }
}

/// How a number stands to another.
#[derive(Clone, Copy, Debug, PartialEq, Eq, Structural)]
pub enum Relation {
    Below,
    Equal,
    Above,
}

/// The relation of `a` to `b`.
pub open spec fn relation(a: int, b: int) -> Relation {
    if a < b {
        Relation::Below
    } else if a == b {
        Relation::Equal
    } else {
        Relation::Above
    }
}

/// A decimal number: `mantissa` divided by ten to the power of `scale`.
#[derive(Clone, Copy, Debug, PartialEq, Eq, Structural)]
pub struct Decimal {
    mantissa: i128,
    scale: u32,
}

impl Decimal {
    /// The mantissa.
    pub closed spec fn mantissa(self) -> int {
        self.mantissa as int
    }

    /// The number of decimal places.
    pub closed spec fn scale(self) -> nat {
        self.scale as nat
    }

    #[verifier::type_invariant]
    spec fn bounded(self) -> bool {
        &&& -0x1_0000_0000_0000_0000_0000_0000 < self.mantissa < 0x1_0000_0000_0000_0000_0000_0000
        &&& self.scale <= 28
    }

    /// The relation of this number to the whole number `n`.
    pub open spec fn to_whole(self, n: int) -> Relation {
        relation(self.mantissa(), n * pow(10, self.scale()))
    }

    /// The relation of this number to `n` millionths.
    pub open spec fn to_millionths(self, n: int) -> Relation {
        relation(self.mantissa() * 1_000_000, n * pow(10, self.scale()))
    }

    /// The relation of this number to another.
    pub open spec fn to(self, other: Decimal) -> Relation {
        relation(
            self.mantissa() * pow(10, other.scale()),
            other.mantissa() * pow(10, self.scale()),
        )
    }

    /// Whether this number is below `n` millionths.
    pub open spec fn below(self, n: int) -> bool {
        self.mantissa() * 1_000_000 < n * pow(10, self.scale())
    }

    /// Whether this number is at most `n` millionths.
    pub open spec fn at_most(self, n: int) -> bool {
        self.mantissa() * 1_000_000 <= n * pow(10, self.scale())
    }

    /// The number in whole millionths of a millionth, rounded down, within the range of a
    /// `u64`.
    pub open spec fn fine(self) -> int {
        clamped((self.mantissa() * 1_000_000_000_000) / pow(10, self.scale()))
    }

    /// The number in whole millionths, rounded down, within the range of a `u64`.
    pub open spec fn rounded_down(self) -> int {
        clamped((self.mantissa() * 1_000_000) / pow(10, self.scale()))
    }
}

proof fn lemma_power_of_ten(n: nat)
    requires
        n <= 28,
    ensures
        1 <= pow(10, n) <= 10_000_000_000_000_000_000_000_000_000,
        n > 0 ==> pow(10, n) == 10 * pow(10, (n - 1) as nat),
        pow(10, 0) == 1,
{
    reveal(pow);
    assert(pow(10, 28) == 10_000_000_000_000_000_000_000_000_000) by {
        reveal_with_fuel(pow, 29);
    }
    lemma_pow_increases(10, n, 28);
    lemma_pow_positive(10, n);
}

fn power_of_ten(n: u32) -> (res: i128)
    requires
        n <= 28,
    ensures
        res == pow(10, n as nat),
        1 <= res <= 10_000_000_000_000_000_000_000_000_000,
    decreases n,
{
    proof {
        lemma_power_of_ten(n as nat);
    }
    if n == 0 {
        1
    } else {
        proof {
            lemma_power_of_ten((n - 1) as nat);
        }
        10 * power_of_ten(n - 1)
    }
}

/// The relation of `a` to `n * p`.
fn relation_to_product(a: i128, n: i128, p: i128) -> (res: Relation)
    requires
        1 <= p,
        -0x100_0000_0000_0000_0000_0000_0000_0000 < a < 0x100_0000_0000_0000_0000_0000_0000_0000,
    ensures
        res == relation(a as int, n * p),
{
    match n.checked_mul(p) {
        Some(b) => if a < b {
            Relation::Below
        } else if a == b {
            Relation::Equal
        } else {
            Relation::Above
        },
        None => {
            proof {
                if n >= 0 {
                    assert(n * p >= 0) by (nonlinear_arith)
                        requires
                            n >= 0,
                            p >= 1,
                    ;
                } else {
                    assert(n * p < 0) by (nonlinear_arith)
                        requires
                            n < 0,
                            p >= 1,
                    ;
                }
            }
            if n >= 0 {
                Relation::Below
            } else {
                Relation::Above
            }
        },
    }
}

proof fn lemma_powers_make_the_largest(n: nat)
    requires
        n <= 28,
    ensures
        pow(10, n) * pow(10, (28 - n) as nat) == 10_000_000_000_000_000_000_000_000_000,
{
    lemma_pow_adds(10, n, (28 - n) as nat);
    lemma_power_of_ten(28);
    assert(pow(10, 28) == 10_000_000_000_000_000_000_000_000_000) by {
        reveal_with_fuel(pow, 29);
    }
}

/// The relation of two fractions, told by their whole parts and by what is left of them
/// in the smallest decimal place.
proof fn lemma_relation_of_fractions(
    a: int,
    p: int,
    c: int,
    b: int,
    q: int,
    d: int,
    top: int,
)
    requires
        a >= 0,
        b >= 0,
        p >= 1,
        q >= 1,
        c >= 1,
        d >= 1,
        p * c == top,
        q * d == top,
    ensures
        0 <= (a % p) * c < top,
        0 <= (b % q) * d < top,
        a / p < b / q ==> a * q < b * p,
        a / p > b / q ==> a * q > b * p,
        a / p == b / q ==> relation(a * q, b * p) == relation((a % p) * c, (b % q) * d),
{
    let (m, r) = (a / p, a % p);
    let (n, s) = (b / q, b % q);
    assert(a == m * p + r && 0 <= r < p) by (nonlinear_arith)
        requires
            p >= 1,
            m == a / p,
            r == a % p,
    ;
    assert(b == n * q + s && 0 <= s < q) by (nonlinear_arith)
        requires
            q >= 1,
            n == b / q,
            s == b % q,
    ;
    assert(0 <= r * c < top) by (nonlinear_arith)
        requires
            0 <= r < p,
            c >= 1,
            p * c == top,
    ;
    assert(0 <= s * d < top) by (nonlinear_arith)
        requires
            0 <= s < q,
            d >= 1,
            q * d == top,
    ;
    let (x, y) = (a * c, b * d);
    assert(x == m * top + r * c) by (nonlinear_arith)
        requires
            x == a * c,
            a == m * p + r,
            p * c == top,
    ;
    assert(y == n * top + s * d) by (nonlinear_arith)
        requires
            y == b * d,
            b == n * q + s,
            q * d == top,
    ;
    assert(m < n ==> x < y) by (nonlinear_arith)
        requires
            x == m * top + r * c,
            y == n * top + s * d,
            r * c < top,
            s * d >= 0,
            top >= 0,
    ;
    assert(m > n ==> x > y) by (nonlinear_arith)
        requires
            x == m * top + r * c,
            y == n * top + s * d,
            s * d < top,
            r * c >= 0,
            top >= 0,
    ;
    assert((a * q) * (c * d) == x * top) by (nonlinear_arith)
        requires
            x == a * c,
            q * d == top,
    ;
    assert((b * p) * (c * d) == y * top) by (nonlinear_arith)
        requires
            y == b * d,
            p * c == top,
    ;
    assert(c * d >= 1 && top >= 1) by (nonlinear_arith)
        requires
            c >= 1,
            d >= 1,
            p >= 1,
            p * c == top,
    ;
    lemma_scaled(a * q, b * p, c * d, x, y, top);
}

/// Positive factors keep the relation.
proof fn lemma_scaled(u: int, v: int, f: int, x: int, y: int, g: int)
    requires
        f >= 1,
        g >= 1,
        u * f == x * g,
        v * f == y * g,
    ensures
        relation(u, v) == relation(x, y),
{
    assert(u < v ==> u * f < v * f) by (nonlinear_arith)
        requires
            f >= 1,
    ;
    assert(u > v ==> u * f > v * f) by (nonlinear_arith)
        requires
            f >= 1,
    ;
    assert(x < y ==> x * g < y * g) by (nonlinear_arith)
        requires
            g >= 1,
    ;
    assert(x > y ==> x * g > y * g) by (nonlinear_arith)
        requires
            g >= 1,
    ;
}

fn relation_of(a: i128, b: i128) -> (res: Relation)
    ensures
        res == relation(a as int, b as int),
{
    if a < b {
        Relation::Below
    } else if a == b {
        Relation::Equal
    } else {
        Relation::Above
    }
}

/// The relation of the fraction of `a` and a power of ten to that of `b` and another.
fn relation_of_fractions(a: i128, m: u32, b: i128, n: u32) -> (res: Relation)
    requires
        0 <= a,
        0 <= b,
        m <= 28,
        n <= 28,
    ensures
        res == relation(a * pow(10, n as nat), b * pow(10, m as nat)),
{
    let p: i128 = power_of_ten(m);
    let q: i128 = power_of_ten(n);
    let c: i128 = power_of_ten(28 - m);
    let d: i128 = power_of_ten(28 - n);
    proof {
        lemma_powers_make_the_largest(m as nat);
        lemma_powers_make_the_largest(n as nat);
        lemma_relation_of_fractions(
            a as int,
            p as int,
            c as int,
            b as int,
            q as int,
            d as int,
            10_000_000_000_000_000_000_000_000_000,
        );
    }
    let whole = relation_of(a / p, b / q);
    if whole == Relation::Equal {
        relation_of((a % p) * c, (b % q) * d)
    } else {
        whole
    }
}

/// `n` brought into the range of a `u64`.
pub open spec fn clamped(n: int) -> int {
    if n < 0 {
        0
    } else if n > u64::MAX {
        u64::MAX as int
    } else {
        n
    }
}

fn clamp(n: i128) -> (res: u64)
    ensures
        res == clamped(n as int),
{
    if n < 0 {
        0
    } else if n > u64::MAX as i128 {
        u64::MAX
    } else {
        n as u64
    }
}

impl Decimal {
    /// The number with this mantissa and this many decimal places.
    pub fn from_parts(mantissa: i128, scale: u32) -> (res: Option<Decimal>)
        ensures
            res is Some <==> -0x1_0000_0000_0000_0000_0000_0000 < mantissa
                < 0x1_0000_0000_0000_0000_0000_0000 && scale <= 28,
            res matches Some(d) ==> d.mantissa() == mantissa && d.scale() == scale,
    {
        if -0x1_0000_0000_0000_0000_0000_0000 < mantissa && mantissa
            < 0x1_0000_0000_0000_0000_0000_0000 && scale <= 28 {
            Some(Decimal { mantissa, scale })
        } else {
            None
        }
    }

    /// Zero.
    pub fn zero() -> (res: Decimal)
        ensures
            res.mantissa() == 0,
            res.scale() == 0,
    {
        Decimal { mantissa: 0, scale: 0 }
    }

    /// Reads a decimal text.
    pub fn parse(text: &str) -> (res: Option<Decimal>)
        ensures
            match res {
                Some(d) => decimal_of_text(text@) == Some((d.mantissa(), d.scale())),
                None => decimal_of_text(text@) is None,
            },
    {
        match decimal_parts(text) {
            Some((mantissa, scale)) => Some(Decimal { mantissa, scale }),
            None => None,
        }
    }

    /// The relation of this number to the whole number `n`.
    pub fn whole_relation(&self, n: i128) -> (res: Relation)
        ensures
            res == self.to_whole(n as int),
    {
        proof {
            use_type_invariant(self);
        }
        relation_to_product(self.mantissa, n, power_of_ten(self.scale))
    }

    /// The relation of this number to `n` millionths.
    pub fn millionths_relation(&self, n: i128) -> (res: Relation)
        ensures
            res == self.to_millionths(n as int),
    {
        proof {
            use_type_invariant(self);
        }
        relation_to_product(self.mantissa * 1_000_000, n, power_of_ten(self.scale))
    }

    /// The relation of this number to another.
    pub fn relation_to(&self, other: &Decimal) -> (res: Relation)
        ensures
            res == self.to(*other),
    {
        proof {
            use_type_invariant(self);
            use_type_invariant(other);
            lemma_power_of_ten(self.scale as nat);
            lemma_power_of_ten(other.scale as nat);
            let (a, b) = (self.mantissa as int, other.mantissa as int);
            let (p, q) = (pow(10, self.scale as nat), pow(10, other.scale as nat));
            assert((a >= 0 ==> a * q >= 0) && (a < 0 ==> a * q < 0) && (-a) * q == -(a * q))
                by (nonlinear_arith)
                requires
                    q >= 1,
            ;
            assert((b >= 0 ==> b * p >= 0) && (b < 0 ==> b * p < 0) && (-b) * p == -(b * p))
                by (nonlinear_arith)
                requires
                    p >= 1,
            ;
        }
        if self.mantissa < 0 {
            if other.mantissa < 0 {
                relation_of_fractions(-other.mantissa, other.scale, -self.mantissa, self.scale)
            } else {
                Relation::Below
            }
        } else if other.mantissa < 0 {
            Relation::Above
        } else {
            relation_of_fractions(self.mantissa, self.scale, other.mantissa, other.scale)
        }
    }

    /// Whether this number is below `n` millionths.
    pub fn is_below(&self, n: i128) -> (res: bool)
        ensures
            res == self.below(n as int),
    {
        self.millionths_relation(n) == Relation::Below
    }

    /// Whether this number is at most `n` millionths.
    pub fn is_at_most(&self, n: i128) -> (res: bool)
        ensures
            res == self.at_most(n as int),
    {
        self.millionths_relation(n) != Relation::Above
    }

    /// The whole part, within the range of a `u64`.
    pub fn whole(&self) -> (res: u64)
        ensures
            res == clamped(self.mantissa() / pow(10, self.scale())),
    {
        proof {
            use_type_invariant(self);
        }
        let p: i128 = power_of_ten(self.scale);
        floor_quotient(self.mantissa, p)
    }

    /// The number in whole millionths of a millionth, rounded down, within the range of a
    /// `u64`.
    pub fn fine_units(&self) -> (res: u64)
        ensures
            res == self.fine(),
    {
        proof {
            use_type_invariant(self);
            assert(pow(10, 12) == 1_000_000_000_000) by {
                reveal_with_fuel(pow, 13);
            }
        }
        if self.scale <= 12 {
            let factor: i128 = power_of_ten(12 - self.scale);
            let ghost (m, f, p) = (self.mantissa as int, factor as int, pow(10, self.scale as nat));
            proof {
                lemma_pow_adds(10, self.scale as nat, (12 - self.scale) as nat);
                lemma_power_of_ten(self.scale as nat);
                assert(m * (p * f) == p * (m * f)) by (nonlinear_arith);
                lemma_div_multiples_vanish(m * f, p);
                assert((m >= 0 ==> m * f >= 0) && (m < 0 ==> m * f < 0)) by (nonlinear_arith)
                    requires
                        f >= 1,
                ;
            }
            match self.mantissa.checked_mul(factor) {
                Some(n) => clamp(n),
                None => if self.mantissa < 0 {
                    0
                } else {
                    u64::MAX
                },
            }
        } else {
            let divisor: i128 = power_of_ten(self.scale - 12);
            let ghost (m, d, p) = (self.mantissa as int, divisor as int, pow(10, self.scale as nat));
            proof {
                lemma_pow_adds(10, 12, (self.scale - 12) as nat);
                lemma_power_of_ten(self.scale as nat);
                if m >= 0 {
                    lemma_div_multiples_vanish_quotient(1_000_000_000_000, m, d);
                    assert(1_000_000_000_000 * m == m * 1_000_000_000_000) by (nonlinear_arith);
                } else {
                    assert((m * 1_000_000_000_000) / p < 0) by (nonlinear_arith)
                        requires
                            m < 0,
                            p >= 1,
                    ;
                    assert(m / d < 0) by (nonlinear_arith)
                        requires
                            m < 0,
                            d >= 1,
                    ;
                }
            }
            floor_quotient(self.mantissa, divisor)
        }
    }

    /// The number in whole millionths, rounded down, within the range of a `u64`.
    pub fn millionths(&self) -> (res: u64)
        ensures
            res == self.rounded_down(),
    {
        proof {
            use_type_invariant(self);
        }
        let p: i128 = power_of_ten(self.scale);
        floor_quotient(self.mantissa * 1_000_000, p)
    }
}

fn floor_quotient(a: i128, p: i128) -> (res: u64)
    requires
        p >= 1,
    ensures
        res == clamped((a as int) / (p as int)),
{
    if a < 0 {
        proof {
            assert((a as int) / (p as int) < 0) by (nonlinear_arith)
                requires
                    a < 0,
                    p >= 1,
            ;
        }
        0
    } else {
        clamp(a / p)
    }
}

/// Decimal numbers are ordered: what one is to another, the other is to it the other way
/// round, and of three the first is below the last where one of the two steps goes up and
/// none goes down.
pub proof fn law_decimals_are_ordered(a: Decimal, b: Decimal, c: Decimal)
    ensures
        a.to(b) is Below <==> b.to(a) is Above,
        a.to(b) is Equal <==> b.to(a) is Equal,
        !(a.to(b) is Above) && b.to(c) is Below ==> a.to(c) is Below,
        a.to(b) is Below && !(b.to(c) is Above) ==> a.to(c) is Below,
        !(a.to(b) is Above) && !(b.to(c) is Above) ==> !(a.to(c) is Above),
{
    let (x, y, z) = (a.mantissa(), b.mantissa(), c.mantissa());
    let (p, q, r) = (pow(10, a.scale()), pow(10, b.scale()), pow(10, c.scale()));
    lemma_pow_positive(10, a.scale());
    lemma_pow_positive(10, b.scale());
    lemma_pow_positive(10, c.scale());
    assert((x * q) * r == (x * r) * q && (y * p) * r == (y * r) * p && (z * q) * p == (z * p) * q)
        by (nonlinear_arith);
    assert(x * q < y * p ==> (x * q) * r < (y * p) * r) by (nonlinear_arith)
        requires
            r > 0,
    ;
    assert(x * q <= y * p ==> (x * q) * r <= (y * p) * r) by (nonlinear_arith)
        requires
            r > 0,
    ;
    assert(y * r < z * q ==> (y * r) * p < (z * q) * p) by (nonlinear_arith)
        requires
            p > 0,
    ;
    assert(y * r <= z * q ==> (y * r) * p <= (z * q) * p) by (nonlinear_arith)
        requires
            p > 0,
    ;
    assert((x * r) * q < (z * p) * q ==> x * r < z * p) by (nonlinear_arith)
        requires
            q > 0,
    ;
    assert((x * r) * q <= (z * p) * q ==> x * r <= z * p) by (nonlinear_arith)
        requires
            q > 0,
    ;
}

/// A number of so many millionths is below, or at most, another number of millionths exactly
/// as the one number is below, or at most, the other; and it is below the next one.
pub proof fn law_millionths_compare_as_whole_numbers(d: Decimal, k: int, n: int)
    requires
        d.mantissa() * 1_000_000 == k * pow(10, d.scale()),
    ensures
        d.below(n) <==> k < n,
        d.at_most(n) <==> k <= n,
        d.to_millionths(n) is Below <==> k < n,
        d.to_millionths(n) is Equal <==> k == n,
        d.to_millionths(n) is Above <==> k > n,
        0 <= k <= u64::MAX ==> d.rounded_down() == k,
        0 <= k * 1_000_000 <= u64::MAX ==> d.fine() == k * 1_000_000,
{
    let p = pow(10, d.scale());
    lemma_pow_positive(10, d.scale());
    assert(k < n ==> k * p < n * p) by (nonlinear_arith)
        requires
            p > 0,
    ;
    assert(k > n ==> k * p > n * p) by (nonlinear_arith)
        requires
            p > 0,
    ;
    lemma_div_multiples_vanish(k, p);
    assert(p * k == k * p) by (nonlinear_arith);
    assert(d.mantissa() * 1_000_000_000_000 == p * (k * 1_000_000)) by (nonlinear_arith)
        requires
            d.mantissa() * 1_000_000 == k * p,
    ;
    lemma_div_multiples_vanish(k * 1_000_000, p);
}

/// A number that is below so many millionths is at most as many, and one that is at most as
/// many is below the next; rounding down to millionths, or to millionths of them, is exact to
/// less than one of those.
pub proof fn law_rounding_down_is_close(d: Decimal, n: int)
    ensures
        d.below(n) ==> d.at_most(n),
        d.at_most(n) ==> d.below(n + 1),
        d.below(n) <==> d.to_millionths(n) is Below,
        d.at_most(n) <==> !(d.to_millionths(n) is Above),
        d.mantissa() >= 0 && d.rounded_down() < u64::MAX ==> d.rounded_down() * pow(10, d.scale())
            <= d.mantissa() * 1_000_000 < (d.rounded_down() + 1) * pow(10, d.scale()),
        d.mantissa() >= 0 && d.fine() < u64::MAX ==> d.fine() * pow(10, d.scale()) <= d.mantissa()
            * 1_000_000_000_000 < (d.fine() + 1) * pow(10, d.scale()),
        d.mantissa() < 0 ==> d.rounded_down() == 0 && d.fine() == 0,
{
    let p = pow(10, d.scale());
    lemma_pow_positive(10, d.scale());
    assert((n + 1) * p == n * p + p) by (nonlinear_arith);
    lemma_quotient(d.mantissa() * 1_000_000, p);
    lemma_quotient(d.mantissa() * 1_000_000_000_000, p);
}

/// A quotient that is rounded down is exact to less than one.
proof fn lemma_quotient(a: int, p: int)
    requires
        p > 0,
    ensures
        (a / p) * p <= a < (a / p + 1) * p,
        a >= 0 ==> a / p >= 0,
        a < 0 ==> a / p < 0,
{
    let q = a / p;
    let r = a % p;
    assert(a == q * p + r && 0 <= r < p) by (nonlinear_arith)
        requires
            p > 0,
            q == a / p,
            r == a % p,
    ;
    assert((q + 1) * p == q * p + p) by (nonlinear_arith);
    assert(q >= 0 ==> q * p >= 0) by (nonlinear_arith)
        requires
            p > 0,
    ;
    assert(q < 0 ==> q * p <= -p) by (nonlinear_arith)
        requires
            p > 0,
    ;
}

/// A number stands to a whole number as it stands to that many millions of millionths, and two
/// numbers stand to each other as their places in the count of millionths do.
pub proof fn law_comparisons_agree(d: Decimal, e: Decimal, n: int, k: int)
    requires
        e.mantissa() * 1_000_000 == k * pow(10, e.scale()),
    ensures
        d.to_whole(n) == d.to_millionths(n * 1_000_000),
        d.to(e) == d.to_millionths(k),
{
    let (x, y) = (d.mantissa(), e.mantissa());
    let (p, q) = (pow(10, d.scale()), pow(10, e.scale()));
    lemma_pow_positive(10, d.scale());
    lemma_pow_positive(10, e.scale());
    assert((n * 1_000_000) * p == (n * p) * 1_000_000) by (nonlinear_arith);
    lemma_scaled(x, n * p, 1_000_000, x * 1_000_000, n * 1_000_000 * p, 1);
    assert((x * q) * 1_000_000 == (x * 1_000_000) * q) by (nonlinear_arith);
    assert((y * p) * 1_000_000 == (k * p) * q) by (nonlinear_arith)
        requires
            y * 1_000_000 == k * q,
    ;
    lemma_scaled(x * q, y * p, 1_000_000, x * 1_000_000, k * p, q);
}

} // verus!
