use leget::query::Query;

#[test]
fn a_new_query_has_no_filters() {
    let query = Query::new();
    assert_eq!(query.years, None);
    assert_eq!(query.set_range, None);
}

#[test]
fn years_replace_the_years_asked_for_before() {
    let mut query = Query::new();
    query.set_years(vec![1999, 2000]);
    query.set_years(vec![2021]);
    assert_eq!(query.years, Some(vec![2021]));
    assert_eq!(query.set_range, None);
}

#[test]
fn all_years_start_with_the_first_year_of_the_catalogue() {
    let mut query = Query::new();
    query.set_all_years(1952);
    assert_eq!(query.years, Some(vec![1949, 1950, 1951, 1952]));
    query.set_all_years(1949);
    assert_eq!(query.years, Some(vec![1949]));
    query.set_all_years(1948);
    assert_eq!(query.years, Some(vec![]));
    query.set_all_years(u16::MAX);
    assert_eq!(query.years.as_ref().map(|years| years.len()), Some(65_535 - 1_949 + 1));
    assert_eq!(query.years.as_ref().and_then(|years| years.last().copied()), Some(u16::MAX));
}

#[test]
fn a_range_replaces_the_range_asked_for_before() {
    let mut query = Query::new();
    query.change_set_range(vec![1, 2]);
    query.set_set_number_range(vec![10, 20]);
    assert_eq!(query.set_range, Some(vec![10, 20]));
    query.change_set_range(vec![3, 4]);
    assert_eq!(query.set_range, Some(vec![3, 4]));
    assert_eq!(query.years, None);
}
