use leget::command::{Leget, Outcome, Request, Run, RunError};
use leget::decimal::Decimal;
use leget::fields::PageError;
use leget::metrics::Ratio;
use leget::set_data::{Column, SetData};
use leget::set_list::ReferenceListEntry;

fn whole(n: u32) -> Decimal {
    Decimal { hundredths: n * 100 }
}

fn command() -> Leget {
    Leget {
        years: None,
        skip_set_list: false,
        set_range: None,
        min_pieces: whole(1),
        max_pieces: whole(1200),
        update_set_list: None,
    }
}

fn entry(set_number: &str, year: Option<&str>, pieces: Option<u32>) -> ReferenceListEntry {
    ReferenceListEntry {
        set_number: set_number.to_string(),
        year: year.map(|y| y.to_string()),
        pieces: pieces.map(whole),
    }
}

fn detail(label: &str, cell: &str) -> String {
    format!(
        "<div class=\"row\"><div class=\"col-xs-5\">{}</div><div class=\"col-xs-7\">{}</div></div>",
        label, cell
    )
}

fn document(details: &[String], listed: Option<&str>, prices: &[String]) -> String {
    let sales = match listed {
        Some(price) => format!(
            "<table id=\"sales_region_table\"><tr><td><div><span class=\"a\">{}</span></div></td></tr></table>",
            price
        ),
        None => String::new(),
    };
    format!(
        "<html><body><div id=\"SetDetails\">{}</div>{}<div id=\"ContentPlaceHolder1_PanelSetPricing\">{}</div></body></html>",
        details.concat(),
        sales,
        prices.concat()
    )
}

fn request(number: u32) -> Option<Request> {
    Some(Request {
        set_number: format!("{}-1", number),
        url: format!("https://www.brickeconomy.com/set/{}-1/", number),
    })
}

#[test]
fn a_range_and_an_update_range_conflict() {
    let mut asked = command();
    asked.set_range = Some(vec![1, 2]);
    asked.update_set_list = Some(vec![1, 2]);
    assert_eq!(asked.exec(&vec![entry("1-1", None, Some(5))]), Err(RunError::ConflictingRanges));
}

#[test]
fn a_range_must_be_two_numbers_in_order() {
    for range in [vec![], vec![1], vec![2, 1], vec![1, 2, 3]] {
        let mut asked = command();
        asked.skip_set_list = true;
        asked.set_range = Some(range.clone());
        assert_eq!(asked.exec(&vec![]), Err(RunError::BadRange));
        let mut asked = command();
        asked.update_set_list = Some(range);
        assert_eq!(asked.exec(&vec![]), Err(RunError::BadRange));
    }
}

#[test]
fn a_range_of_one_number_is_in_order() {
    let mut asked = command();
    asked.skip_set_list = true;
    asked.set_range = Some(vec![7, 7]);
    let mut run = asked.exec(&vec![]).unwrap();
    assert_eq!(run.next_request(), request(7));
    assert_eq!(run.next_request(), None);
}

#[test]
fn change_set_range_replaces_the_range() {
    let mut asked = command();
    asked.set_range = Some(vec![1, 2]);
    asked.change_set_range(vec![5, 6]);
    assert_eq!(asked.set_range, Some(vec![5, 6]));
    assert_eq!(asked.update_set_list, None);
}

#[test]
fn an_empty_set_list_is_a_user_error() {
    let mut asked = command();
    asked.set_range = Some(vec![1, 100]);
    assert_eq!(asked.exec(&vec![]), Err(RunError::EmptySetList));
}

#[test]
fn a_set_list_that_lets_nothing_through_is_a_user_error() {
    let list = vec![entry("500-1", Some("1999"), Some(50)), entry("5-1", Some("1999"), None)];
    let mut asked = command();
    asked.set_range = Some(vec![1, 100]);
    assert_eq!(asked.clone().exec(&list), Err(RunError::EmptySetList));
    asked.set_range = Some(vec![1, 500]);
    asked.years = Some(vec![2000]);
    assert_eq!(asked.exec(&list), Err(RunError::EmptySetList));
}

#[test]
fn without_a_range_the_default_range_is_scraped() {
    let list = vec![entry("10050-1", None, Some(50)), entry("10051-1", None, Some(50)), entry("10000-1", None, Some(50))];
    let mut run = command().exec(&list).unwrap();
    assert_eq!(run.next, 10000);
    assert_eq!(run.high, 10050);
    assert_eq!(run.allowed, Some(vec!["10050-1".to_string(), "10000-1".to_string()]));
    assert_eq!(run.next_request(), request(10000));
    assert_eq!(run.next_request(), request(10050));
    assert_eq!(run.next_request(), None);
}

#[test]
fn skipping_the_set_list_without_a_range_scrapes_nothing() {
    let mut asked = command();
    asked.skip_set_list = true;
    let mut run = asked.exec(&vec![entry("1-1", None, Some(5))]).unwrap();
    assert_eq!(run.next_request(), None);
    assert_eq!(run.finish(&vec![]), Ok(Outcome::Table(vec![])));
}

#[test]
fn skipping_the_set_list_scrapes_every_number_of_the_range() {
    let mut asked = command();
    asked.skip_set_list = true;
    asked.set_range = Some(vec![3, 5]);
    let mut run = asked.exec(&vec![]).unwrap();
    assert_eq!(run.allowed, None);
    assert!(!run.update);
    assert_eq!(run.next_request(), request(3));
    assert_eq!(run.next_request(), request(4));
    assert_eq!(run.next_request(), request(5));
    assert_eq!(run.next_request(), None);
    assert_eq!(run.next_request(), None);
}

#[test]
fn the_set_list_decides_which_numbers_are_scraped() {
    let list = vec![
        entry("12-1", Some("2001"), Some(100)),
        entry("14-1", Some("2001"), Some(2000)),
        entry("15-1", Some("1999"), Some(100)),
        entry("18-1", Some("2001"), Some(100)),
        entry("30-1", Some("2001"), Some(100)),
    ];
    let mut asked = command();
    asked.set_range = Some(vec![10, 20]);
    asked.years = Some(vec![2001]);
    let mut run = asked.exec(&list).unwrap();
    assert_eq!(run.next_request(), request(12));
    assert_eq!(run.next_request(), request(18));
    assert_eq!(run.next_request(), None);
}

#[test]
fn an_update_does_not_consult_the_set_list() {
    let mut asked = command();
    asked.update_set_list = Some(vec![1, 2]);
    let mut run = asked.exec(&vec![]).unwrap();
    assert!(run.update);
    assert_eq!(run.allowed, None);
    assert_eq!(run.next_request(), request(1));
    assert_eq!(run.next_request(), request(2));
    assert_eq!(run.next_request(), None);
}

#[test]
fn the_last_set_number_of_all_ends_the_run() {
    let mut asked = command();
    asked.skip_set_list = true;
    asked.set_range = Some(vec![u32::MAX - 1, u32::MAX]);
    let mut run = asked.exec(&vec![]).unwrap();
    assert_eq!(run.next_request(), request(u32::MAX - 1));
    assert_eq!(run.next_request(), request(u32::MAX));
    assert_eq!(run.next_request(), None);
}

#[test]
fn a_run_whose_next_number_is_past_its_range_is_over() {
    let mut run = Run {
        next: 9,
        high: 5,
        open: true,
        allowed: None,
        update: false,
        min_pieces: whole(1),
        max_pieces: whole(1200),
        data: SetData::new(),
    };
    assert_eq!(run.next_request(), None);
    assert!(!run.open);
    assert_eq!(run.next, 9);
}

#[test]
fn a_status_other_than_success_ends_the_run() {
    let mut asked = command();
    asked.skip_set_list = true;
    asked.set_range = Some(vec![1, 2]);
    let mut run = asked.exec(&vec![]).unwrap();
    assert_eq!(run.on_response(404, "<html></html>"), Err(RunError::HttpStatus(404)));
    assert_eq!(run.on_response(201, "<html></html>"), Err(RunError::HttpStatus(201)));
    assert_eq!(run.data, SetData::new());
}

#[test]
fn a_page_that_cannot_be_read_ends_the_run() {
    let mut asked = command();
    asked.skip_set_list = true;
    asked.set_range = Some(vec![1, 2]);
    let mut run = asked.exec(&vec![]).unwrap();
    let html = document(&[detail("Set number", "1-1"), detail("Name", "One"), detail("Year", "soon")], None, &[]);
    assert_eq!(run.on_response(200, &html), Err(RunError::Page(PageError::MalformedYear)));
    assert_eq!(run.data, SetData::new());
}

#[test]
fn a_page_that_leaves_a_column_out_of_line_ends_the_run() {
    let mut asked = command();
    asked.skip_set_list = true;
    asked.set_range = Some(vec![1, 2]);
    let mut run = asked.exec(&vec![]).unwrap();
    let html = document(&[detail("Set number", "1-1")], None, &[]);
    assert_eq!(run.on_response(200, &html), Err(RunError::Misaligned(Column::Name)));
    let mut run = Run { data: SetData::new(), ..run };
    let twice = document(
        &[detail("Set number", "1-1"), detail("Name", "One"), detail("Pieces", "5"), detail("Pieces", "6")],
        None,
        &[],
    );
    assert_eq!(run.on_response(200, &twice), Err(RunError::Misaligned(Column::ListedPrice)));
}

#[test]
fn a_page_without_details_contributes_nothing() {
    let mut asked = command();
    asked.skip_set_list = true;
    asked.set_range = Some(vec![1, 2]);
    let mut run = asked.exec(&vec![]).unwrap();
    assert_eq!(run.on_response(200, "<html><body>No such set.</body></html>"), Ok(false));
    assert_eq!(run.data, SetData::new());
}

#[test]
fn three_pages_give_three_aligned_rows() {
    let mut asked = command();
    asked.skip_set_list = true;
    asked.set_range = Some(vec![1, 3]);
    let mut run = asked.exec(&vec![]).unwrap();
    let pages = [
        document(
            &[detail("Set number", "1-1"), detail("Name", "No year"), detail("Pieces", "10")],
            Some("$8.00"),
            &[detail("Retail price", "$12.00"), detail("Value", "$10.00")],
        ),
        document(
            &[
                detail("Set number", "2-1"),
                detail("Name", "No pieces"),
                detail("Year", "<a>2002</a>"),
                detail("Pieces", "a few"),
            ],
            Some("$18.00"),
            &[detail("Value", "$20.00")],
        ),
        document(
            &[
                detail("Set number", "3-1"),
                detail("Name", "Two values"),
                detail("Year", "<a>2003</a>"),
                detail("Pieces", "1,234 &amp; up"),
            ],
            None,
            &[detail("Value", "New: $100"), detail("Value", "Used: $80")],
        ),
    ];
    let mut fetched = Vec::new();
    for page in &pages {
        let next = run.next_request().unwrap();
        fetched.push(next.url);
        assert_eq!(run.on_response(200, page), Ok(true));
        assert_eq!(run.data.check_aligned(), Ok(()));
    }
    assert_eq!(run.next_request(), None);
    assert_eq!(
        fetched,
        vec![
            "https://www.brickeconomy.com/set/1-1/",
            "https://www.brickeconomy.com/set/2-1/",
            "https://www.brickeconomy.com/set/3-1/",
        ]
    );
    let amount = |hundredths: u32| Some(Decimal { hundredths });
    assert_eq!(
        run.data,
        SetData {
            set_number: vec!["1-1".to_string(), "2-1".to_string(), "3-1".to_string()],
            name: vec!["No year".to_string(), "No pieces".to_string(), "Two values".to_string()],
            year: vec![None, Some("2002".to_string()), Some("2003".to_string())],
            retail_price: vec![amount(1_200), None, None],
            value: vec![amount(1_000), amount(2_000), amount(10_000)],
            listed_price: vec![amount(800), amount(1_800), None],
            pieces: vec![amount(1_000), None, amount(123_400)],
        }
    );
    assert_eq!(run.data.last_set_number(), Some(&"3-1".to_string()));
    let table = match run.finish(&vec![]) {
        Ok(Outcome::Table(table)) => table,
        other => panic!("no table: {:?}", other),
    };
    assert_eq!(table.len(), 1);
    assert_eq!(table[0].set_number, "1-1");
    assert_eq!(table[0].percent_discount_from_value, Ratio { numerator: -200, denominator: 1_000 });
    assert_eq!(
        table[0].percent_discount_from_value_per_piece,
        Ratio { numerator: -20_000, denominator: 1_000_000 }
    );
}

#[test]
fn an_update_merges_the_scraped_rows_into_the_set_list() {
    let mut asked = command();
    asked.update_set_list = Some(vec![1, 3]);
    let list = vec![entry("2-1", Some("1990"), Some(7)), entry("9-1", None, Some(9))];
    let mut run = asked.exec(&list).unwrap();
    let pages = [
        document(&[detail("Set number", "3-1"), detail("Name", "C"), detail("Year", " 2003 "), detail("Pieces", "30")], None, &[]),
        document(&[detail("Set number", "1-1"), detail("Name", "A"), detail("Pieces", "1")], None, &[]),
        document(&[detail("Set number", "2-1"), detail("Name", "B"), detail("Year", " 2002 "), detail("Pieces", "20")], None, &[]),
        document(&[detail("Set number", "4-1"), detail("Name", "D"), detail("Year", " 2004 ")], None, &[]),
    ];
    for page in &pages {
        assert_eq!(run.on_response(200, page), Ok(true));
    }
    assert_eq!(
        run.finish(&list),
        Ok(Outcome::SetList(vec![
            entry("2-1", Some("1990"), Some(7)),
            entry("3-1", Some("2003"), Some(30)),
            entry("9-1", None, Some(9)),
        ]))
    );
}

#[test]
fn columns_out_of_line_end_the_run_without_a_result() {
    let mut data = SetData::new();
    data.set_number.push("1-1".to_string());
    data.name.push("One".to_string());
    let run = Run {
        next: 0,
        high: 0,
        open: false,
        allowed: None,
        update: false,
        min_pieces: whole(1),
        max_pieces: whole(1200),
        data,
    };
    assert_eq!(run.finish(&vec![]), Err(RunError::Misaligned(Column::Year)));
}

#[test]
fn a_page_with_two_whole_dollar_values_gives_one_row_with_the_first() {
    let mut asked = command();
    asked.skip_set_list = true;
    asked.set_range = Some(vec![75192, 75192]);
    let mut run = asked.exec(&vec![]).unwrap();
    assert_eq!(run.next_request().map(|request| request.set_number), Some("75192-1".to_string()));
    let page = document(
        &[detail("Set number", "75192-1"), detail("Name", "Millennium Falcon")],
        None,
        &[detail("Value", "New: $100"), detail("Value", "Used: $80")],
    );
    assert_eq!(run.on_response(200, &page), Ok(true));
    assert_eq!(run.data.set_number, vec!["75192-1"]);
    assert_eq!(run.data.value, vec![Some(Decimal { hundredths: 10_000 })]);
    assert_eq!(run.data.value.len(), run.data.set_number.len());
    assert!(!run.data.value.contains(&Some(Decimal { hundredths: 8_000 })));
}
