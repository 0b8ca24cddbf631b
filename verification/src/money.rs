//! Prices and amounts.
//!
//! Prices in dollars, shares and USDC amounts are counted in millionths, the base
//! unit of USDC and of the outcome tokens on chain. A number of shares times a
//! price is then counted in millionths of a millionth of a dollar, and so are
//! profits and losses: no rounding takes place between a trade and its result. A quote
//! is a decimal of its own: what shares are worth at it is rounded down to that same
//! unit, and a quote counts in full as far as its twelfth decimal place.

use vstd::arithmetic::power::pow;
use vstd::prelude::*;
use vstd::string::*;

use crate::text::{padded_text, u128_text};

use crate::decimal::Decimal;

#[allow(unused_imports)]
use crate::decimal::clamped;
#[allow(unused_imports)]
use crate::text::{decimal_text, padded};

verus! {

/// One dollar, or one share, in millionths.
pub const ONE: u64 = 1_000_000;

/// `n` divided by `d`, rounded to the nearest whole number, ties to the even one.
pub open spec fn half_even(n: nat, d: nat) -> nat {
    if 2 * (n % d) < d || (2 * (n % d) == d && (n / d) % 2 == 0) {
        n / d
    } else {
        n / d + 1
    }
}

/// `n` divided by `d`, rounded to the nearest whole number, ties upwards.
pub open spec fn half_up(n: nat, d: nat) -> nat {
    if 2 * (n % d) < d {
        n / d
    } else {
        n / d + 1
    }
}

/// Ten to the power of `places`.
pub open spec fn shift(places: nat) -> nat
    decreases places,
{
    if places == 0 {
        1
    } else {
        10 * shift((places - 1) as nat)
    }
}

/// `n` units of the last of `places` decimal places, in decimal.
pub open spec fn fixed(n: nat, places: nat) -> Seq<char> {
    decimal_text(n / shift(places)) + "."@ + padded(n % shift(places), places)
}

/// A number of millionths, in decimal with six places.
pub open spec fn fixed6(n: nat) -> Seq<char> {
    fixed(n, 6)
}

/// A number of millionths, in decimal rounded to two places.
pub open spec fn fixed2(n: nat) -> Seq<char> {
    fixed(half_even(n, 10_000), 2)
}

/// `n` units of the last of `places` decimal places, in decimal without trailing zeros.
pub open spec fn plain(n: nat, places: nat) -> Seq<char>
    decreases places,
{
    if places == 0 {
        decimal_text(n)
    } else if n % 10 == 0 {
        plain(n / 10, (places - 1) as nat)
    } else {
        fixed(n, places)
    }
}

/// The sign that stands before a negative number.
pub open spec fn sign(v: int) -> Seq<char> {
    if v < 0 {
        "-"@
    } else {
        ""@
    }
}

/// The magnitude of a number.
pub open spec fn magnitude(v: int) -> nat {
    if v < 0 {
        (-v) as nat
    } else {
        v as nat
    }
}

/// A price in millionths, in decimal with six places.
pub open spec fn price6(v: int) -> Seq<char> {
    sign(v) + fixed6(magnitude(v))
}

/// A price in millionths, in decimal rounded to two places.
pub open spec fn price2(v: int) -> Seq<char> {
    sign(v) + fixed2(magnitude(v))
}

/// A price in millionths, in decimal without trailing zeros.
pub open spec fn plain_price(v: int) -> Seq<char> {
    sign(v) + plain(magnitude(v), 6)
}

/// A value in millionths of a millionth, in decimal rounded to six places.
pub open spec fn value6(v: int) -> Seq<char> {
    sign(v) + fixed(half_even(magnitude(v), 1_000_000), 6)
}

/// A value in millionths of a millionth, in decimal rounded to two places.
pub open spec fn value2(v: int) -> Seq<char> {
    sign(v) + fixed(half_even(magnitude(v), 10_000_000_000), 2)
}

pub(crate) fn round_half_even(n: u128, d: u128) -> (res: u128)
    requires
        2 <= d <= 0x1_0000_0000_0000_0000,
    ensures
        res == half_even(n as nat, d as nat),
{
    let q: u128 = n / d;
    let r: u128 = n % d;
    proof {
        assert(q <= n / 2) by (nonlinear_arith)
            requires
                q == n / d,
                d >= 2,
        ;
    }
    if 2 * r < d || (2 * r == d && q % 2 == 0) {
        q
    } else {
        q + 1
    }
}

/// `n` divided by `d`, rounded to the nearest whole number, ties upwards.
pub fn round_half_up(n: u64, d: u64) -> (res: u64)
    requires
        2 <= d <= 1_000_000,
    ensures
        res == half_up(n as nat, d as nat),
{
    let q: u64 = n / d;
    let r: u64 = n % d;
    proof {
        assert(q <= n / 2) by (nonlinear_arith)
            requires
                q == n / d,
                d >= 2,
        ;
    }
    if 2 * r < d {
        q
    } else {
        q + 1
    }
}

/// A number of tenths, in decimal with one place.
pub open spec fn tenths_text(n: nat) -> Seq<char> {
    fixed(n, 1)
}

/// Writes a number of tenths with one decimal place.
pub fn one_place_text(n: u64) -> (res: String)
    ensures
        res@ == tenths_text(n as nat),
{
    fixed_text(n as u128, 1)
}

/// A number of hundredths, in decimal with two places.
pub open spec fn cents_text(n: nat) -> Seq<char> {
    fixed(n, 2)
}

/// Writes a number of hundredths with two decimal places.
pub fn hundredths_text(n: u64) -> (res: String)
    ensures
        res@ == cents_text(n as nat),
{
    fixed_text(n as u128, 2)
}

fn power(places: u32) -> (res: u128)
    requires
        places <= 6,
    ensures
        res == shift(places as nat),
        1 <= res <= 1_000_000,
        places >= 1 ==> res >= 10,
    decreases places,
{
    proof {
        reveal_with_fuel(shift, 8);
    }
    if places == 0 {
        1
    } else {
        10 * power(places - 1)
    }
}

/// Writes `n` units of the last of `places` decimal places.
fn fixed_text(n: u128, places: u32) -> (res: String)
    requires
        places <= 6,
    ensures
        res@ == fixed(n as nat, places as nat),
{
    let p: u128 = power(places);
    let mut res = u128_text(n / p);
    res.append(".");
    res.append(padded_text(n % p, places).as_str());
    res
}

/// Writes a number of millionths with six decimal places.
pub fn fixed6_text(n: u64) -> (res: String)
    ensures
        res@ == fixed6(n as nat),
{
    fixed_text(n as u128, 6)
}

/// Writes a number of millionths with two decimal places.
pub fn fixed2_text(n: u64) -> (res: String)
    ensures
        res@ == fixed2(n as nat),
{
    fixed_text(round_half_even(n as u128, 10_000), 2)
}

fn plain_places(n: u128, places: u32) -> (res: String)
    requires
        places <= 6,
    ensures
        res@ == plain(n as nat, places as nat),
    decreases places,
{
    if places == 0 {
        u128_text(n)
    } else if n % 10 == 0 {
        plain_places(n / 10, places - 1)
    } else {
        fixed_text(n, places)
    }
}

/// Writes a number of millionths with as many decimal places as it needs.
pub fn plain_text(n: u64) -> (res: String)
    ensures
        res@ == plain(n as nat, 6),
{
    plain_places(n as u128, 6)
}

fn sign_and_magnitude(v: i128) -> (res: (String, u128))
    ensures
        res.0@ == sign(v as int),
        res.1 == magnitude(v as int),
{
    if v < 0 {
        let above: i128 = v + 1;
        ("-".to_owned(), (-above) as u128 + 1)
    } else {
        ("".to_owned(), v as u128)
    }
}

fn signed_text(v: i128, d: u128, places: u32) -> (res: String)
    requires
        2 <= d <= 0x1_0000_0000_0000_0000,
        places <= 6,
    ensures
        res@ == sign(v as int) + fixed(half_even(magnitude(v as int), d as nat), places as nat),
{
    let (mut res, m): (String, u128) = sign_and_magnitude(v);
    res.append(fixed_text(round_half_even(m, d), places).as_str());
    res
}

/// Writes a price with six decimal places.
pub fn price6_text(v: i128) -> (res: String)
    ensures
        res@ == price6(v as int),
{
    let (mut res, m): (String, u128) = sign_and_magnitude(v);
    res.append(fixed_text(m, 6).as_str());
    res
}

/// Writes a price with two decimal places.
pub fn price2_text(v: i128) -> (res: String)
    ensures
        res@ == price2(v as int),
{
    signed_text(v, 10_000, 2)
}

/// Writes a price with as many decimal places as it needs.
pub fn plain_price_text(v: i128) -> (res: String)
    ensures
        res@ == plain_price(v as int),
{
    let (mut res, m): (String, u128) = sign_and_magnitude(v);
    res.append(plain_places(m, 6).as_str());
    res
}

/// Writes a value with six decimal places.
pub fn value6_text(v: i128) -> (res: String)
    ensures
        res@ == value6(v as int),
{
    signed_text(v, 1_000_000, 6)
}

/// Writes a value with two decimal places.
pub fn value2_text(v: i128) -> (res: String)
    ensures
        res@ == value2(v as int),
{
    signed_text(v, 10_000_000_000, 2)
}

/// `n` brought into the range of an `i128`.
pub open spec fn capped(n: int) -> int {
    if n < i128::MIN {
        i128::MIN as int
    } else if n > i128::MAX {
        i128::MAX as int
    } else {
        n
    }
}

/// The value of a number of shares at a price.
pub open spec fn value_of(units: int, price: int) -> int {
    capped(units * price)
}

/// What is made on a number of shares that were bought at `cost` and leave at `price`.
pub open spec fn profit_of(units: int, price: int, cost: int) -> int {
    capped(units * (price - cost))
}

/// The value of a number of shares at a quote.
pub open spec fn worth(units: int, quote: Decimal) -> int {
    (units * quote.fine()) / 1_000_000
}

/// What is made on a number of shares that were bought at `cost` and leave at a quote.
pub open spec fn gain(units: int, quote: Decimal, cost: int) -> int {
    capped(worth(units, quote) - units * cost)
}

/// A quote in millionths, rounded to the nearest.
pub open spec fn nearest(quote: Decimal) -> nat {
    half_even(quote.fine() as nat, 1_000_000)
}

/// The number of shares that an amount buys at a price, to the nearest millionth.
pub open spec fn units_of(amount: int, price: int) -> int {
    if price == 0 {
        u64::MAX as int
    } else {
        clamped(half_even((amount * ONE) as nat, price as nat) as int)
    }
}

/// The size of an order for what an amount buys at a price: so many hundredths of a share,
/// the nearest to the quotient, in millionths.
pub open spec fn order_size_of(amount: int, price: int) -> int {
    if price == 0 {
        u64::MAX as int
    } else {
        clamped(10_000 * half_even((amount * 100) as nat, price as nat) as int)
    }
}

fn capped_product(n: i128, d: i128) -> (res: i128)
    requires
        n >= 0,
    ensures
        res == capped(n * d),
{
    match n.checked_mul(d) {
        Some(v) => v,
        None => {
            proof {
                if d >= 0 {
                    assert(n * d >= 0) by (nonlinear_arith)
                        requires
                            n >= 0,
                            d >= 0,
                    ;
                } else {
                    assert(n * d <= 0) by (nonlinear_arith)
                        requires
                            n >= 0,
                            d < 0,
                    ;
                }
            }
            if d >= 0 {
                i128::MAX
            } else {
                i128::MIN
            }
        },
    }
}

/// The value of a number of shares at a price.
pub fn value(units: u64, price: i128) -> (res: i128)
    ensures
        res == value_of(units as int, price as int),
{
    capped_product(units as i128, price)
}

/// What is made on a number of shares that were bought at `cost` and leave at `price`.
pub fn profit(units: u64, price: i128, cost: i128) -> (res: i128)
    ensures
        res == profit_of(units as int, price as int, cost as int),
{
    match price.checked_sub(cost) {
        Some(margin) => capped_product(units as i128, margin),
        None => {
            proof {
                let (u, margin) = (units as int, price - cost);
                assert((u == 0 ==> u * margin == 0) && (u >= 1 && margin >= 0 ==> u * margin
                    >= margin) && (u >= 1 && margin < 0 ==> u * margin <= margin))
                    by (nonlinear_arith);
            }
            if units == 0 {
                0
            } else if price >= 0 {
                i128::MAX
            } else {
                i128::MIN
            }
        },
    }
}

/// The value of a number of shares at a quote.
pub fn quoted_value(units: u64, quote: &Decimal) -> (res: i128)
    ensures
        res == worth(units as int, *quote),
        0 <= res < 0x100_0000_0000_0000_0000_0000_0000_0000,
{
    let fine: u64 = quote.fine_units();
    proof {
        assert(0 <= units * fine <= 0xffff_ffff_ffff_ffff * 0xffff_ffff_ffff_ffff)
            by (nonlinear_arith)
            requires
                0 <= units <= 0xffff_ffff_ffff_ffff,
                0 <= fine <= 0xffff_ffff_ffff_ffff,
        ;
    }
    ((units as u128 * fine as u128) / 1_000_000) as i128
}

/// What is made on a number of shares that were bought at `cost` and leave at a quote.
pub fn quoted_profit(units: u64, quote: &Decimal, cost: i128) -> (res: i128)
    ensures
        res == gain(units as int, *quote, cost as int),
{
    let earned: i128 = quoted_value(units, quote);
    let (_, rate): (String, u128) = sign_and_magnitude(cost);
    proof {
        let (u, c) = (units as int, cost as int);
        assert((c >= 0 ==> u * rate == u * c) && (c < 0 ==> u * rate == -(u * c)) && u * rate >= 0)
            by (nonlinear_arith)
            requires
                u >= 0,
                c >= 0 ==> rate == c,
                c < 0 ==> rate == -c,
        ;
    }
    match (units as u128).checked_mul(rate) {
        None => if cost >= 0 {
            i128::MIN
        } else {
            i128::MAX
        },
        Some(paid) => if cost < 0 {
            if paid > i128::MAX as u128 {
                i128::MAX
            } else {
                plus(earned, paid as i128)
            }
        } else if paid <= i128::MAX as u128 {
            earned - paid as i128
        } else {
            let lost: u128 = paid - earned as u128;
            if lost > i128::MAX as u128 {
                i128::MIN
            } else {
                -(lost as i128)
            }
        },
    }
}

/// A quote in millionths, rounded to the nearest.
pub fn nearest_millionths(quote: &Decimal) -> (res: u64)
    ensures
        res == nearest(*quote),
{
    round_half_even(quote.fine_units() as u128, 1_000_000) as u64
}

/// The sum of two values.
pub fn plus(a: i128, b: i128) -> (res: i128)
    ensures
        res == capped(a + b),
{
    match a.checked_add(b) {
        Some(v) => v,
        None => if a >= 0 {
            i128::MAX
        } else {
            i128::MIN
        },
    }
}

/// The number of shares that an amount buys at a price.
pub fn units_for(amount: u64, price: u64) -> (res: u64)
    ensures
        res == units_of(amount as int, price as int),
{
    if price == 0 {
        u64::MAX
    } else {
        let whole: u128 = amount as u128 * 1_000_000;
        let n: u128 = if price == 1 {
            whole
        } else {
            round_half_even(whole, price as u128)
        };
        if n > u64::MAX as u128 {
            u64::MAX
        } else {
            n as u64
        }
    }
}

/// The size of an order for what an amount buys at a price.
pub fn order_size_for(amount: u64, price: u64) -> (res: u64)
    ensures
        res == order_size_of(amount as int, price as int),
{
    if price == 0 {
        u64::MAX
    } else {
        let whole: u128 = amount as u128 * 100;
        let hundredths: u128 = if price == 1 {
            whole
        } else {
            round_half_even(whole, price as u128)
        };
        if hundredths > u64::MAX as u128 / 10_000 {
            u64::MAX
        } else {
            (hundredths * 10_000) as u64
        }
    }
}

/// Rounding goes to the nearest whole number; one that lies half way between two goes to the
/// even one, or upwards.
pub proof fn law_rounding_is_to_the_nearest(n: nat, d: nat)
    requires
        d > 0,
    ensures
        -(d as int) <= 2 * (half_even(n, d) * d - n) <= d,
        2 * (half_even(n, d) * d - n) == d || 2 * (half_even(n, d) * d - n) == -(d as int)
            ==> half_even(n, d) % 2 == 0,
        -(d as int) < 2 * (half_up(n, d) * d - n) <= d,
{
    let (q, r) = (n as int / d as int, n as int % d as int);
    assert(n == q * d + r && 0 <= r < d) by (nonlinear_arith)
        requires
            d > 0,
            q == n as int / d as int,
            r == n as int % d as int,
    ;
    assert((q + 1) * d == q * d + d) by (nonlinear_arith);
}

/// What shares are worth at a price, and what is made on them: as far as that is within
/// range, their number times the price, and times the difference to what they cost.
pub proof fn law_profit_is_the_difference_in_value(units: u64, price: int, cost: int)
    requires
        i128::MIN <= units * price <= i128::MAX,
        i128::MIN <= units * cost <= i128::MAX,
        i128::MIN <= units * (price - cost) <= i128::MAX,
    ensures
        value_of(units as int, price) == units * price,
        profit_of(units as int, price, cost) == units * price - units * cost,
        profit_of(units as int, price, cost) + value_of(units as int, cost) == value_of(
            units as int,
            price,
        ),
{
    assert(units * (price - cost) == units * price - units * cost) by (nonlinear_arith);
}

/// A quote of a whole number of millionths is worth as much as that price.
pub proof fn law_quotes_are_worth_their_price(units: u64, quote: Decimal, price: u64, cost: int)
    requires
        quote.mantissa() == price,
        quote.scale() == 6,
        price < 18_000_000_000_000,
        i128::MIN <= units * (price - cost) <= i128::MAX,
    ensures
        worth(units as int, quote) == units * price,
        gain(units as int, quote, cost) == units * (price - cost),
        nearest(quote) == price,
{
    assert(pow(10, 6) == 1_000_000) by {
        reveal_with_fuel(pow, 7);
    }
    assert(quote.fine() == price * 1_000_000);
    assert(units * (price * 1_000_000) == (units * price) * 1_000_000) by (nonlinear_arith);
    assert(units * (price - cost) == units * price - units * cost) by (nonlinear_arith);
}

/// Amounts are written with their whole part, a point and their decimal places: millionths
/// with six places, or rounded to the nearest hundredth with two; a value in millionths of a
/// millionth rounded to the nearest millionth, or hundredth. What is below zero has its sign
/// in front.
pub proof fn law_how_amounts_are_written(n: nat, v: int)
    ensures
        fixed6(n) == decimal_text(n / 1_000_000) + "."@ + padded(n % 1_000_000, 6),
        ({
            let h = half_even(n, 10_000);
            fixed2(n) == decimal_text(h / 100) + "."@ + padded(h % 100, 2)
        }),
        tenths_text(n) == decimal_text(n / 10) + "."@ + padded(n % 10, 1),
        cents_text(n) == decimal_text(n / 100) + "."@ + padded(n % 100, 2),
        v >= 0 ==> price6(v) == ""@ + fixed6(v as nat) && price2(v) == ""@ + fixed2(v as nat)
            && plain_price(v) == ""@ + plain(v as nat, 6),
        v < 0 ==> price6(v) == "-"@ + fixed6((-v) as nat) && price2(v) == "-"@ + fixed2(
            (-v) as nat,
        ) && plain_price(v) == "-"@ + plain((-v) as nat, 6),
        v >= 0 ==> value6(v) == ""@ + fixed6(half_even(v as nat, 1_000_000)) && value2(v) == ""@
            + cents_text(half_even(v as nat, 10_000_000_000)),
        v < 0 ==> value6(v) == "-"@ + fixed6(half_even((-v) as nat, 1_000_000)) && value2(v)
            == "-"@ + cents_text(half_even((-v) as nat, 10_000_000_000)),
{
    reveal_with_fuel(shift, 7);
}

/// An amount without trailing zeros is the same amount: a factor of ten in it is one decimal
/// place less, and without one all places are written.
pub proof fn law_trailing_zeros_are_left_out(n: nat, places: nat)
    ensures
        plain(n, 0) == decimal_text(n),
        plain(10 * n, places + 1) == plain(n, places),
        n % 10 != 0 && places > 0 ==> plain(n, places) == fixed(n, places),
{
    assert((10 * n) / 10 == n);
    assert((10 * n) % 10 == 0);
}

/// The shares that an amount buys, and the size of an order for it: the nearest millionth, and
/// the nearest hundredth, to the quotient; at no price as many as there can be.
pub proof fn law_what_an_amount_buys(amount: u64, price: u64)
    ensures
        price == 0 ==> units_of(amount as int, price as int) == u64::MAX && order_size_of(
            amount as int,
            price as int,
        ) == u64::MAX,
        price > 0 ==> {
            let units = units_of(amount as int, price as int);
            let size = order_size_of(amount as int, price as int);
            &&& units < u64::MAX ==> -(price as int) <= 2 * (units * price - amount * 1_000_000)
                <= price
            &&& size < u64::MAX ==> size % 10_000 == 0 && -(10_000 * price) <= 2 * (size * price
                - amount * 1_000_000) <= 10_000 * price
        },
{
    if price > 0 {
        law_rounding_is_to_the_nearest((amount * 1_000_000) as nat, price as nat);
        law_rounding_is_to_the_nearest((amount * 100) as nat, price as nat);
        let h = half_even((amount * 100) as nat, price as nat) as int;
        assert((10_000 * h) * price == 10_000 * (h * price)) by (nonlinear_arith);
    }
}

/// A value outside of what can be counted is brought to the nearest that can, and any other
/// stays as it is; so values never lose their order.
pub proof fn law_values_are_capped_at_the_limits(a: int, b: int)
    ensures
        i128::MIN <= capped(a) <= i128::MAX,
        i128::MIN <= a <= i128::MAX ==> capped(a) == a,
        a > i128::MAX ==> capped(a) == i128::MAX,
        a < i128::MIN ==> capped(a) == i128::MIN,
        a <= b ==> capped(a) <= capped(b),
        0 <= clamped(a) <= u64::MAX,
        0 <= a <= u64::MAX ==> clamped(a) == a,
        a > u64::MAX ==> clamped(a) == u64::MAX,
        a < 0 ==> clamped(a) == 0,
{
}

/// What shares are worth at a quote is their number times the quote, to less than the unit that
/// values are counted in; and they make that, less what they cost.
pub proof fn law_what_shares_are_worth_at_a_quote(units: u64, quote: Decimal, cost: int)
    ensures
        worth(units as int, quote) * 1_000_000 <= units * quote.fine() < (worth(
            units as int,
            quote,
        ) + 1) * 1_000_000,
        i128::MIN <= worth(units as int, quote) - units * cost <= i128::MAX ==> gain(
            units as int,
            quote,
            cost,
        ) == worth(units as int, quote) - units * cost,
{
}

} // verus!
