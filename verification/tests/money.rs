use polymarket_arbitrage_bot::decimal::{Decimal, Relation};
use polymarket_arbitrage_bot::money::{
    fixed2_text, fixed6_text, nearest_millionths, order_size_for, plain_price_text, plain_text,
    plus, price2_text, price6_text, profit, quoted_profit, quoted_value, units_for, value, value2_text, value6_text,
};

#[test]
fn millionths_are_written_with_six_places() {
    assert_eq!(fixed6_text(0), "0.000000");
    assert_eq!(fixed6_text(450_000), "0.450000");
    assert_eq!(fixed6_text(12_000_001), "12.000001");
}

#[test]
fn two_places_round_half_to_even() {
    assert_eq!(fixed2_text(450_000), "0.45");
    assert_eq!(fixed2_text(125_000), "0.12");
    assert_eq!(fixed2_text(375_000), "0.38");
    assert_eq!(fixed2_text(999_999), "1.00");
    assert_eq!(fixed2_text(5_000), "0.00");
}

#[test]
fn plain_amounts_have_no_trailing_zeros() {
    assert_eq!(plain_text(12_000_000), "12");
    assert_eq!(plain_text(12_340_000), "12.34");
    assert_eq!(plain_text(1), "0.000001");
    assert_eq!(plain_text(0), "0");
    assert_eq!(plain_text(100_000_000), "100");
}

#[test]
fn values_are_written_with_their_sign() {
    assert_eq!(value6_text(value(10_000_000, 450_000)), "4.500000");
    assert_eq!(value6_text(profit(10_000_000, 300_000, 450_000)), "-1.500000");
    assert_eq!(value2_text(profit(10_000_000, 1_000_000, 450_000)), "5.50");
    assert_eq!(value2_text(-5_000_000_000), "-0.00");
}

#[test]
fn values_stay_within_range() {
    assert_eq!(value(u64::MAX, u64::MAX as i128), i128::MAX);
    assert_eq!(profit(u64::MAX, 0, u64::MAX as i128), i128::MIN);
    assert_eq!(plus(i128::MAX, 1), i128::MAX);
    assert_eq!(plus(i128::MIN, -1), i128::MIN);
    assert_eq!(plus(5, -7), -2);
}

#[test]
fn amounts_buy_whole_base_units() {
    assert_eq!(units_for(4_500_000, 450_000), 10_000_000);
    assert_eq!(units_for(1_000_000, 300_000), 3_333_333);
    assert_eq!(units_for(2_000_000, 300_000), 6_666_667);
    assert_eq!(units_for(7, 1), 7_000_000);
    assert_eq!(units_for(1, 0), u64::MAX);
}

#[test]
fn orders_are_for_hundredths_of_the_quotient() {
    assert_eq!(order_size_for(4_500_000, 450_000), 10_000_000);
    assert_eq!(order_size_for(1_000_000, 300_000), 3_330_000);
    assert_eq!(order_size_for(2_000_000, 300_000), 6_670_000);
    assert_eq!(order_size_for(10_004_999, 999_999), 10_010_000);
    assert_eq!(order_size_for(7, 1), 7_000_000);
    assert_eq!(order_size_for(1, 0), u64::MAX);
}

#[test]
fn prices_can_be_negative() {
    assert_eq!(price6_text(-200_000), "-0.200000");
    assert_eq!(price2_text(-200_000), "-0.20");
    assert_eq!(price2_text(450_000), "0.45");
    assert_eq!(plain_price_text(-100_000), "-0.1");
    assert_eq!(plain_price_text(990_000), "0.99");
    assert_eq!(value(10_000_000, -200_000), -2_000_000_000_000);
    assert_eq!(profit(10_000_000, 0, -200_000), 2_000_000_000_000);
    assert_eq!(profit(1, i128::MAX, i128::MIN), i128::MAX);
    assert_eq!(profit(0, i128::MIN, i128::MAX), 0);
    assert_eq!(quoted_profit(10_000_000, &Decimal::zero(), -200_000), 2_000_000_000_000);
    assert_eq!(quoted_profit(u64::MAX, &Decimal::zero(), i128::MIN), i128::MAX);
    assert_eq!(quoted_profit(u64::MAX, &Decimal::zero(), i128::MAX), i128::MIN);
}

#[test]
fn quotes_count_beyond_millionths() {
    let quote = Decimal::parse("0.9900009").unwrap();
    assert_eq!(quote.fine_units(), 990_000_900_000);
    assert_eq!(nearest_millionths(&quote), 990_001);
    assert_eq!(quoted_value(10_000_000, &quote), 9_900_009_000_000);
    assert_eq!(quoted_profit(10_000_000, &quote, 450_000), 5_400_009_000_000);
    assert_eq!(quoted_profit(u64::MAX, &Decimal::zero(), u64::MAX as i128), i128::MIN);
    let long = Decimal::parse("0.1234567890123456").unwrap();
    assert_eq!(long.fine_units(), 123_456_789_012);
    assert_eq!(Decimal::parse("-1").unwrap().fine_units(), 0);
    assert_eq!(Decimal::parse("99999999").unwrap().fine_units(), u64::MAX);
}

#[test]
fn decimals_are_compared_exactly() {
    let quote = Decimal::parse("0.8000001").unwrap();
    assert_eq!(quote.millionths_relation(800_000), Relation::Above);
    assert_eq!(quote.millionths(), 800_000);
    let even = Decimal::parse("0.80").unwrap();
    assert_eq!(even.millionths_relation(800_000), Relation::Equal);
    assert_eq!(even.millionths_relation(800_001), Relation::Below);
    assert_eq!(even.whole_relation(1), Relation::Below);
    assert_eq!(Decimal::parse("1234567").unwrap().whole(), 1_234_567);
    assert_eq!(Decimal::parse("-3").unwrap().whole(), 0);
    assert!(Decimal::parse("three").is_none());
    assert!(Decimal::from_parts(1, 29).is_none());
    assert_eq!(
        Decimal::from_parts(5, 28).unwrap().whole_relation(i128::MAX),
        Relation::Below
    );
    assert_eq!(
        Decimal::from_parts(5, 28).unwrap().whole_relation(i128::MIN),
        Relation::Above
    );
}
