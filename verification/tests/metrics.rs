use leget::decimal::Decimal;
use leget::metrics::{consolidate, discount_of, discount_per_piece_of, ratio_at_most, MetricRow, Ratio};
use leget::set_data::SetData;

fn dollars(n: u32) -> Decimal {
    Decimal { hundredths: n * 100 }
}

fn push(data: &mut SetData, number: &str, listed: Option<u32>, value: Option<u32>, pieces: Option<u32>) {
    data.set_number.push(number.to_string());
    data.name.push(format!("Set {}", number));
    data.year.push(None);
    data.retail_price.push(None);
    data.value.push(value.map(dollars));
    data.listed_price.push(listed.map(dollars));
    data.pieces.push(pieces.map(dollars));
}

fn numbers(table: &[MetricRow]) -> Vec<&str> {
    table.iter().map(|row| row.set_number.as_str()).collect()
}

fn as_number(ratio: Ratio) -> f64 {
    ratio.numerator as f64 / ratio.denominator as f64
}

#[test]
fn discount_of_a_set_listed_below_its_value() {
    let ratio = discount_of(dollars(80), dollars(100));
    assert_eq!(ratio, Ratio { numerator: -2_000, denominator: 10_000 });
    assert_eq!(as_number(ratio), -0.20);
}

#[test]
fn discount_per_piece_of_a_set_listed_below_its_value() {
    let ratio = discount_per_piece_of(dollars(80), dollars(100), dollars(4));
    assert_eq!(ratio, Ratio { numerator: -200_000, denominator: 4_000_000 });
    assert_eq!(as_number(ratio), -0.05);
}

#[test]
fn discounts_at_the_limits_of_a_decimal() {
    let most = Decimal { hundredths: u32::MAX };
    let none = Decimal { hundredths: 0 };
    assert_eq!(
        discount_per_piece_of(none, most, most),
        Ratio { numerator: -429_496_729_500, denominator: 18_446_744_065_119_617_025 }
    );
    assert_eq!(discount_of(most, none), Ratio { numerator: 4_294_967_295, denominator: 0 });
}

#[test]
fn fractions_are_ordered_by_their_value() {
    let third = Ratio { numerator: 1, denominator: 3 };
    let half = Ratio { numerator: 2, denominator: 4 };
    let minus = Ratio { numerator: -1, denominator: 1_000 };
    assert!(ratio_at_most(third, half));
    assert!(!ratio_at_most(half, third));
    assert!(ratio_at_most(half, Ratio { numerator: 1, denominator: 2 }));
    assert!(ratio_at_most(minus, third));
    assert!(!ratio_at_most(third, minus));
}

#[test]
fn fractions_without_denominator_come_last() {
    let none = Ratio { numerator: 5, denominator: 0 };
    let big = Ratio { numerator: i64::MAX, denominator: 1 };
    assert!(ratio_at_most(big, none));
    assert!(!ratio_at_most(none, big));
    assert!(ratio_at_most(none, Ratio { numerator: -5, denominator: 0 }));
}

#[test]
fn fractions_at_the_limits_do_not_overflow() {
    let low = Ratio { numerator: i64::MIN, denominator: u64::MAX };
    let high = Ratio { numerator: i64::MAX, denominator: u64::MAX };
    assert!(ratio_at_most(low, high));
    assert!(!ratio_at_most(high, low));
}

#[test]
fn the_table_holds_the_discounts_of_a_row() {
    let mut data = SetData::new();
    push(&mut data, "1-1", Some(80), Some(100), Some(4));
    data.year[0] = Some("2001".to_string());
    data.retail_price[0] = Some(dollars(120));
    assert_eq!(
        consolidate(&data, dollars(1), dollars(1200)),
        vec![MetricRow {
            set_number: "1-1".to_string(),
            name: "Set 1-1".to_string(),
            year: Some("2001".to_string()),
            retail_price: Some(dollars(120)),
            value: dollars(100),
            listed_price: dollars(80),
            pieces: dollars(4),
            percent_discount_from_value: Ratio { numerator: -2_000, denominator: 10_000 },
            percent_discount_from_value_per_piece: Ratio { numerator: -200_000, denominator: 4_000_000 },
        }]
    );
}

#[test]
fn rows_without_price_or_value_are_dropped() {
    let mut data = SetData::new();
    push(&mut data, "1-1", None, Some(100), Some(4));
    push(&mut data, "2-1", Some(80), None, Some(4));
    push(&mut data, "3-1", Some(80), Some(100), Some(4));
    assert_eq!(numbers(&consolidate(&data, dollars(1), dollars(1200))), vec!["3-1"]);
}

#[test]
fn rows_without_pieces_are_dropped_whatever_the_bounds() {
    let mut data = SetData::new();
    push(&mut data, "1-1", Some(80), Some(100), None);
    let least = Decimal { hundredths: 0 };
    let most = Decimal { hundredths: u32::MAX };
    assert_eq!(consolidate(&data, least, most), vec![]);
    assert_eq!(consolidate(&data, most, least), vec![]);
    assert_eq!(consolidate(&data, dollars(1), dollars(1200)), vec![]);
}

#[test]
fn piece_bounds_are_exclusive() {
    let mut data = SetData::new();
    push(&mut data, "1-1", Some(80), Some(100), Some(1));
    push(&mut data, "2-1", Some(80), Some(100), Some(2));
    push(&mut data, "3-1", Some(80), Some(100), Some(1199));
    push(&mut data, "4-1", Some(80), Some(100), Some(1200));
    assert_eq!(numbers(&consolidate(&data, dollars(1), dollars(1200))), vec!["2-1", "3-1"]);
}

#[test]
fn the_best_discount_per_piece_comes_first() {
    let mut data = SetData::new();
    push(&mut data, "even-1", Some(100), Some(100), Some(10));
    push(&mut data, "dear-1", Some(150), Some(100), Some(10));
    push(&mut data, "cheap-1", Some(50), Some(100), Some(10));
    push(&mut data, "cheaper-1", Some(50), Some(100), Some(5));
    push(&mut data, "free-1", Some(10), Some(0), Some(5));
    assert_eq!(
        numbers(&consolidate(&data, dollars(1), dollars(1200))),
        vec!["cheaper-1", "cheap-1", "even-1", "dear-1", "free-1"]
    );
}

#[test]
fn equal_discounts_keep_the_order_of_the_dataset() {
    let mut data = SetData::new();
    push(&mut data, "a-1", Some(50), Some(100), Some(10));
    push(&mut data, "b-1", Some(100), Some(200), Some(10));
    push(&mut data, "c-1", Some(25), Some(50), Some(10));
    assert_eq!(numbers(&consolidate(&data, dollars(1), dollars(1200))), vec!["a-1", "b-1", "c-1"]);
}

#[test]
fn an_empty_dataset_gives_an_empty_table() {
    assert_eq!(consolidate(&SetData::new(), dollars(1), dollars(1200)), vec![]);
}
