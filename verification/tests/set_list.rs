use leget::decimal::Decimal;
use leget::set_data::SetData;
use leget::set_list::{
    copy_entry, entry_in_range, entry_in_years, filter, identifier_number, insert_entry,
    is_listed, merge, pieces_within, set_identifier, to_reference_rows, ReferenceListEntry,
};
use leget::text::{number_text, parse_number, place, Place};

fn amount(hundredths: u32) -> Option<Decimal> {
    Some(Decimal { hundredths })
}

fn whole(n: u32) -> Decimal {
    Decimal { hundredths: n * 100 }
}

fn entry(set_number: &str, year: Option<&str>, pieces: Option<u32>) -> ReferenceListEntry {
    ReferenceListEntry {
        set_number: set_number.to_string(),
        year: year.map(|y| y.to_string()),
        pieces: pieces.map(whole),
    }
}

#[test]
fn numbers_are_written_in_base_ten() {
    assert_eq!(number_text(0), "0");
    assert_eq!(number_text(7), "7");
    assert_eq!(number_text(10), "10");
    assert_eq!(number_text(75192), "75192");
    assert_eq!(number_text(u32::MAX), "4294967295");
}

#[test]
fn numbers_are_read_back() {
    assert_eq!(parse_number("0"), Some(0));
    assert_eq!(parse_number("75192"), Some(75192));
    assert_eq!(parse_number("4294967295"), Some(u32::MAX));
    assert_eq!(parse_number("4294967296"), None);
    assert_eq!(parse_number("007"), None);
    assert_eq!(parse_number(""), None);
    assert_eq!(parse_number("12a"), None);
    assert_eq!(parse_number("+12"), None);
}

#[test]
fn dictionary_order_of_texts() {
    assert_eq!(place("10-1", "9-1"), Place::Before);
    assert_eq!(place("9-1", "10-1"), Place::After);
    assert_eq!(place("10-1", "10-1"), Place::Same);
    assert_eq!(place("10", "10-1"), Place::Before);
    assert_eq!(place("10-1", "10"), Place::After);
    assert_eq!(place("", ""), Place::Same);
    assert_eq!(place("", "a"), Place::Before);
    assert_eq!(place("é", "z"), Place::After);
}

#[test]
fn identifiers_of_first_variants() {
    assert_eq!(set_identifier(75192), "75192-1");
    assert_eq!(set_identifier(0), "0-1");
    assert_eq!(identifier_number("75192-1"), Some(75192));
    assert_eq!(identifier_number("75192-2"), None);
    assert_eq!(identifier_number("075192-1"), None);
    assert_eq!(identifier_number("-1"), None);
    assert_eq!(identifier_number("75192"), None);
    assert_eq!(identifier_number(""), None);
}

#[test]
fn piece_counts_lie_strictly_between_the_bounds() {
    assert!(pieces_within(amount(200), whole(1), whole(1200)));
    assert!(!pieces_within(amount(100), whole(1), whole(1200)));
    assert!(!pieces_within(amount(120_000), whole(1), whole(1200)));
    assert!(pieces_within(amount(119_999), whole(1), whole(1200)));
    assert!(!pieces_within(None, whole(0), Decimal { hundredths: u32::MAX }));
}

#[test]
fn entries_in_a_range() {
    assert!(entry_in_range(&entry("100-1", None, None), 100, 100));
    assert!(entry_in_range(&entry("100-1", None, None), 1, 1000));
    assert!(!entry_in_range(&entry("100-1", None, None), 101, 1000));
    assert!(!entry_in_range(&entry("100-2", None, None), 1, 1000));
    assert!(!entry_in_range(&entry("abc", None, None), 0, u32::MAX));
}

#[test]
fn entries_in_years() {
    let years = Some(vec![1999u16, 2001]);
    assert!(entry_in_years(&entry("1-1", Some("2001"), None), &years));
    assert!(!entry_in_years(&entry("1-1", Some("2000"), None), &years));
    assert!(!entry_in_years(&entry("1-1", None, None), &years));
    assert!(!entry_in_years(&entry("1-1", Some("2001"), None), &Some(vec![])));
    assert!(entry_in_years(&entry("1-1", None, None), &None));
}

#[test]
fn the_filter_lets_through_what_passes_every_bound() {
    let cache = vec![
        entry("100-1", Some("1999"), Some(50)),
        entry("101-1", Some("2000"), Some(50)),
        entry("102-1", Some("1999"), None),
        entry("103-1", Some("1999"), Some(1)),
        entry("104-1", Some("1999"), Some(1200)),
        entry("105-2", Some("1999"), Some(50)),
        entry("999-1", Some("1999"), Some(50)),
        entry("106-1", Some("1999"), Some(1199)),
    ];
    assert_eq!(
        filter(&cache, 100, 200, whole(1), whole(1200), &Some(vec![1999])),
        vec!["100-1", "106-1"]
    );
    assert_eq!(
        filter(&cache, 100, 200, whole(1), whole(1200), &None),
        vec!["100-1", "101-1", "106-1"]
    );
    assert_eq!(filter(&cache, 100, 1000, whole(1), whole(100), &None), vec!["100-1", "101-1", "999-1"]);
}

#[test]
fn the_filter_of_an_empty_list_is_empty() {
    assert_eq!(filter(&vec![], 0, u32::MAX, whole(0), whole(1200), &None), Vec::<String>::new());
}

#[test]
fn listed_identifiers_are_found() {
    let list = vec!["100-1".to_string(), "106-1".to_string()];
    assert!(is_listed(&list, "106-1"));
    assert!(!is_listed(&list, "106-2"));
    assert!(!is_listed(&vec![], "106-1"));
}

#[test]
fn merging_keeps_the_first_seen_and_sorts() {
    let cache = vec![entry("200-1", Some("2000"), Some(20)), entry("100-1", Some("1999"), Some(10))];
    let rows = vec![
        entry("150-1", Some("2005"), Some(15)),
        entry("100-1", Some("2024"), Some(99)),
        entry("150-1", None, None),
    ];
    assert_eq!(
        merge(&cache, &rows),
        vec![
            entry("100-1", Some("1999"), Some(10)),
            entry("150-1", Some("2005"), Some(15)),
            entry("200-1", Some("2000"), Some(20)),
        ]
    );
}

#[test]
fn merging_sorts_set_numbers_as_text() {
    let rows = vec![entry("9-1", None, None), entry("10-1", None, None), entry("100-1", None, None)];
    assert_eq!(
        merge(&vec![], &rows),
        vec![entry("10-1", None, None), entry("100-1", None, None), entry("9-1", None, None)]
    );
}

#[test]
fn merging_the_same_rows_twice_changes_nothing() {
    let cache = vec![entry("300-1", Some("2000"), Some(20)), entry("100-1", Some("1999"), Some(10))];
    let rows = vec![
        entry("250-1", Some("2005"), Some(15)),
        entry("100-1", Some("2024"), Some(99)),
        entry("050-1", None, Some(7)),
    ];
    let once = merge(&cache, &rows);
    let twice = merge(&once, &rows);
    assert_eq!(once.len(), 4);
    assert_eq!(twice, once);
}

#[test]
fn merging_nothing_sorts_and_dedups_the_cache() {
    let cache = vec![entry("2-1", None, Some(2)), entry("1-1", None, Some(1)), entry("2-1", None, Some(3))];
    assert_eq!(merge(&cache, &vec![]), vec![entry("1-1", None, Some(1)), entry("2-1", None, Some(2))]);
    assert_eq!(merge(&vec![], &vec![]), vec![]);
}

#[test]
fn entries_are_inserted_at_their_place() {
    let mut list = vec![entry("1-1", None, None), entry("3-1", None, None)];
    assert!(insert_entry(&mut list, &entry("2-1", None, Some(5))));
    assert!(!insert_entry(&mut list, &entry("3-1", Some("1999"), None)));
    assert!(insert_entry(&mut list, &entry("0-1", None, None)));
    assert!(insert_entry(&mut list, &entry("4-1", None, None)));
    assert_eq!(
        list,
        vec![
            entry("0-1", None, None),
            entry("1-1", None, None),
            entry("2-1", None, Some(5)),
            entry("3-1", None, None),
            entry("4-1", None, None),
        ]
    );
    assert_eq!(copy_entry(&list[2]), entry("2-1", None, Some(5)));
}

#[test]
fn reference_rows_need_more_than_one_piece() {
    let data = SetData {
        set_number: vec!["1-1".to_string(), "2-1".to_string(), "3-1".to_string(), "4-1".to_string()],
        name: vec!["A".to_string(), "B".to_string(), "C".to_string(), "D".to_string()],
        year: vec![Some("1999".to_string()), None, Some("2001".to_string()), None],
        retail_price: vec![None, None, None, None],
        value: vec![None, None, None, None],
        listed_price: vec![None, None, None, None],
        pieces: vec![amount(5_000), None, amount(100), amount(101)],
    };
    assert_eq!(
        to_reference_rows(&data),
        vec![
            ReferenceListEntry { set_number: "1-1".to_string(), year: Some("1999".to_string()), pieces: amount(5_000) },
            ReferenceListEntry { set_number: "4-1".to_string(), year: None, pieces: amount(101) },
        ]
    );
}
