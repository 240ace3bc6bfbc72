use leget::decimal::Decimal;
use leget::set_data::{Column, SetData, SetRecord};

fn amount(hundredths: u32) -> Option<Decimal> {
    Some(Decimal { hundredths })
}

fn page(set_number: &str, name: &str) -> SetData {
    let mut data = SetData::new();
    data.set_number.push(set_number.to_string());
    data.name.push(name.to_string());
    data
}

fn lengths(data: &SetData) -> [usize; 7] {
    [
        data.set_number.len(),
        data.name.len(),
        data.year.len(),
        data.retail_price.len(),
        data.value.len(),
        data.listed_price.len(),
        data.pieces.len(),
    ]
}

#[test]
fn a_new_dataset_is_empty_and_aligned() {
    let data = SetData::new();
    assert_eq!(lengths(&data), [0; 7]);
    assert_eq!(data.len(), 0);
    assert_eq!(data.check_aligned(), Ok(()));
    assert_eq!(data.last_set_number(), None);
}

#[test]
fn a_full_page_adds_its_row() {
    let mut data = SetData::new();
    let mut first = page("1-1", "One");
    first.year.push(Some("2001".to_string()));
    first.retail_price.push(amount(999));
    first.value.push(amount(1_500));
    first.listed_price.push(amount(1_200));
    first.pieces.push(amount(10_000));
    assert_eq!(data.absorb(first.clone()), Ok(true));
    assert_eq!(data, first);
    assert_eq!(data.last_set_number(), Some(&"1-1".to_string()));
}

#[test]
fn missing_fields_read_none_in_the_row() {
    let mut data = SetData::new();
    assert_eq!(data.absorb(page("1-1", "One")), Ok(true));
    assert_eq!(lengths(&data), [1; 7]);
    assert_eq!(data.year, vec![None]);
    assert_eq!(data.retail_price, vec![None]);
    assert_eq!(data.value, vec![None]);
    assert_eq!(data.listed_price, vec![None]);
    assert_eq!(data.pieces, vec![None]);
}

#[test]
fn a_page_without_fields_adds_nothing() {
    let mut data = SetData::new();
    assert_eq!(data.absorb(page("1-1", "One")), Ok(true));
    let before = data.clone();
    assert_eq!(data.absorb(SetData::new()), Ok(false));
    assert_eq!(data, before);
}

#[test]
fn every_subset_of_fields_leaves_the_columns_aligned() {
    let mut data = SetData::new();
    let mut expected_pieces = Vec::new();
    let mut expected_numbers = Vec::new();
    for mask in 0u32..32 {
        let number = format!("{}-1", mask);
        let mut next = page(&number, "Set");
        if mask & 1 != 0 {
            next.year.push(Some("1999".to_string()));
        }
        if mask & 2 != 0 {
            next.retail_price.push(amount(mask));
        }
        if mask & 4 != 0 {
            next.value.push(amount(mask));
        }
        if mask & 8 != 0 {
            next.listed_price.push(amount(mask));
        }
        if mask & 16 != 0 {
            next.pieces.push(amount(100 * mask));
            expected_pieces.push(amount(100 * mask));
        } else {
            expected_pieces.push(None);
        }
        expected_numbers.push(number);
        assert_eq!(data.absorb(next), Ok(true));
        assert_eq!(lengths(&data), [mask as usize + 1; 7]);
    }
    assert_eq!(data.check_aligned(), Ok(()));
    assert_eq!(data.set_number, expected_numbers);
    assert_eq!(data.pieces, expected_pieces);
}

#[test]
fn rows_stay_with_their_page_when_presence_is_shuffled() {
    let mut data = SetData::new();
    let mut a = page("10-1", "A");
    a.pieces.push(amount(1_000));
    let b = page("20-1", "B");
    let mut c = page("30-1", "C");
    c.year.push(Some("2003".to_string()));
    let mut d = page("40-1", "D");
    d.pieces.push(amount(4_000));
    d.year.push(None);
    for next in [a, b, c, d] {
        assert_eq!(data.absorb(next), Ok(true));
    }
    assert_eq!(data.set_number, vec!["10-1", "20-1", "30-1", "40-1"]);
    assert_eq!(data.name, vec!["A", "B", "C", "D"]);
    assert_eq!(data.pieces, vec![amount(1_000), None, None, amount(4_000)]);
    assert_eq!(data.year, vec![None, None, Some("2003".to_string()), None]);
    assert_eq!(
        data.record(3),
        Some(SetRecord {
            set_number: "40-1".to_string(),
            name: "D".to_string(),
            year: None,
            retail_price: None,
            value: None,
            listed_price: None,
            pieces: amount(4_000),
        })
    );
    assert_eq!(data.record(4), None);
}

#[test]
fn a_row_is_read_only_where_every_column_reaches() {
    let mut data = page("1-1", "One");
    assert_eq!(data.record(0), None);
    assert_eq!(data.reconcile(), Ok(()));
    assert_eq!(
        data.record(0),
        Some(SetRecord {
            set_number: "1-1".to_string(),
            name: "One".to_string(),
            year: None,
            retail_price: None,
            value: None,
            listed_price: None,
            pieces: None,
        })
    );
}

#[test]
fn a_page_with_a_name_and_no_set_number_is_out_of_line() {
    let mut data = SetData::new();
    let mut next = SetData::new();
    next.name.push("Nameless".to_string());
    assert_eq!(data.absorb(next), Err(Column::Name));
}

#[test]
fn a_page_with_a_set_number_and_no_name_is_out_of_line() {
    let mut data = SetData::new();
    let mut next = SetData::new();
    next.set_number.push("1-1".to_string());
    assert_eq!(data.absorb(next), Err(Column::Name));
}

#[test]
fn a_page_with_a_field_and_no_set_number_is_out_of_line() {
    let mut data = SetData::new();
    let mut next = SetData::new();
    next.pieces.push(amount(100));
    assert_eq!(data.absorb(next), Err(Column::Year));
    let mut data = SetData::new();
    assert_eq!(data.absorb(page("1-1", "One")), Ok(true));
    let mut next = SetData::new();
    next.year.push(None);
    assert_eq!(data.absorb(next), Err(Column::Year));
}

#[test]
fn a_field_that_appears_twice_is_out_of_line() {
    let mut data = SetData::new();
    let mut next = page("1-1", "One");
    next.pieces.push(amount(100));
    next.pieces.push(amount(200));
    assert_eq!(data.absorb(next), Err(Column::Pieces));
    let mut data = SetData::new();
    let mut next = page("1-1", "One");
    next.retail_price.push(None);
    next.retail_price.push(None);
    assert_eq!(data.absorb(next), Err(Column::RetailPrice));
}

#[test]
fn a_page_with_two_set_numbers_is_refused() {
    let mut data = SetData::new();
    let mut next = page("1-1", "One");
    next.set_number.push("2-1".to_string());
    next.name.push("Two".to_string());
    assert_eq!(data.absorb(next), Err(Column::SetNumber));
}

#[test]
fn reconcile_pads_columns_short_by_one() {
    let mut data = page("1-1", "One");
    data.year.push(Some("2001".to_string()));
    assert_eq!(data.check_aligned(), Err(Column::RetailPrice));
    assert_eq!(data.longest(), 1);
    assert_eq!(data.reconcile(), Ok(()));
    assert_eq!(lengths(&data), [1; 7]);
    assert_eq!(data.year, vec![Some("2001".to_string())]);
    assert_eq!(data.value, vec![None]);
}

#[test]
fn reconcile_leaves_an_aligned_dataset_alone() {
    let mut data = SetData::new();
    assert_eq!(data.absorb(page("1-1", "One")), Ok(true));
    let before = data.clone();
    assert_eq!(data.reconcile(), Ok(()));
    assert_eq!(data, before);
}

#[test]
fn reconcile_reports_a_column_short_by_two() {
    let mut data = page("1-1", "One");
    data.set_number.push("2-1".to_string());
    data.name.push("Two".to_string());
    assert_eq!(data.reconcile(), Err(Column::Year));
    assert_eq!(lengths(&data), [2, 2, 1, 1, 1, 1, 1]);
}

#[test]
fn reconcile_cannot_pad_names_or_set_numbers() {
    let mut data = SetData::new();
    data.set_number.push("1-1".to_string());
    assert_eq!(data.reconcile(), Err(Column::Name));
    let mut data = SetData::new();
    data.pieces.push(None);
    assert_eq!(data.reconcile(), Err(Column::Year));
    assert_eq!(lengths(&data), [0, 0, 1, 1, 1, 1, 1]);
}

#[test]
fn absorbing_repairs_a_dataset_short_by_one_first() {
    let mut data = page("1-1", "One");
    data.pieces.push(amount(500));
    let mut next = page("2-1", "Two");
    next.value.push(amount(700));
    assert_eq!(data.absorb(next), Ok(true));
    assert_eq!(lengths(&data), [2; 7]);
    assert_eq!(data.pieces, vec![amount(500), None]);
    assert_eq!(data.value, vec![None, amount(700)]);
}

#[test]
fn absorbing_into_a_dataset_beyond_repair_takes_nothing_in() {
    let mut data = SetData::new();
    data.set_number.push("1-1".to_string());
    assert_eq!(data.absorb(page("2-1", "Two")), Err(Column::Name));
    assert_eq!(data.set_number, vec!["1-1"]);
    assert_eq!(lengths(&data), [1, 0, 1, 1, 1, 1, 1]);
}

#[test]
fn the_first_column_out_of_line_is_named() {
    let mut data = SetData::new();
    assert_eq!(data.absorb(page("1-1", "One")), Ok(true));
    data.pieces.push(None);
    assert_eq!(data.check_aligned(), Err(Column::Pieces));
    data.listed_price.pop();
    assert_eq!(data.check_aligned(), Err(Column::ListedPrice));
    data.value.push(None);
    assert_eq!(data.check_aligned(), Err(Column::Value));
    data.retail_price.pop();
    assert_eq!(data.check_aligned(), Err(Column::RetailPrice));
    data.year.push(None);
    assert_eq!(data.check_aligned(), Err(Column::Year));
    data.name.pop();
    assert_eq!(data.check_aligned(), Err(Column::Name));
    assert_eq!(data.longest(), 2);
}
