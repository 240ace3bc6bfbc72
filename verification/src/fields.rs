//! The extraction rules: from the parts of a detail page to the values
//! that the page appends to each column of the dataset.

use vstd::prelude::*;
use crate::decimal::{parse_decimal, parsed_decimal, strip_separators, without_separators, Decimal};
use crate::page::{
    entry_views, DetailPage, DetailPageView, DetailRow, DetailRowView, PriceEntry, PriceEntryView,
};
use crate::pattern::{capture_group, captured, compiles, pattern_compiles};
use crate::set_data::{lemma_push_optional_text, lemma_push_text, Column, Columns, SetData};
use crate::text::{same_text, text_of};

verus! {

/// Captures a number that may hold one thousands separator and may be
/// followed by `&`.
pub const NUMBER_THEN_AMPERSAND: &'static str = r"(\d+,?\d?+)&?";

/// Captures a dollar amount after its `$`: digits that may hold thousands
/// separators, with or without a fraction, or a fraction alone. `$100`,
/// `$1,234.56` and `$.99` are amounts; `$.` is not.
pub const DOLLARS: &'static str = r"\$([0-9][0-9,]*(?:\.[0-9]*)?|\.[0-9]+)";

/// The capture group in which each pattern holds what is read.
pub const READ_GROUP: usize = 1;

/// Captures a four-digit number between white space or tag boundaries.
pub const YEAR: &'static str = r"[\s>](\d{4})[<\s]";

/// The label of the set-number row.
pub const SET_NUMBER_LABEL: &'static str = "Set number";

/// The label of the name row.
pub const NAME_LABEL: &'static str = "Name";

/// The label of the year row.
pub const YEAR_LABEL: &'static str = "Year";

/// The label of the piece-count row.
pub const PIECES_LABEL: &'static str = "Pieces";

/// The label of the retail price in the pricing panel.
pub const RETAIL_PRICE_LABEL: &'static str = "Retail price";

/// The label of the site's estimate in the pricing panel.
pub const VALUE_LABEL: &'static str = "Value";

/// The label of the market price in the pricing panel.
pub const MARKET_PRICE_LABEL: &'static str = "Market price";

/// Why a page cannot be read.
#[derive(Clone, Copy, Debug, PartialEq, Eq, Structural)]
pub enum PageError {
    /// The year row has a value in which no four-digit year is found.
    MalformedYear,
    /// The row of a column that cannot be empty has a label and no value.
    MissingCell(Column),
    /// One of the selectors by which a page is taken apart is not valid.
    InvalidSelector,
    /// One of the patterns by which the fields are read does not compile.
    InvalidPattern,
}

/// The amount that captured text stands for: its separators are stripped
/// and the rest is read as a decimal. Nothing captured, or text that is no
/// amount, gives `None`.
pub open spec fn amount_of(capture: Option<Seq<char>>) -> Option<Decimal> {
    match capture {
        Some(text) => parsed_decimal(without_separators(text)),
        None => None,
    }
}

/// The year that the capture in a year cell stands for: the captured
/// digits as they are. A row without a cell has no year; a cell in which
/// nothing was captured is malformed.
pub open spec fn year_of(cell: Option<Seq<char>>, capture: Option<Seq<char>>) -> Result<
    Option<Seq<char>>,
    PageError,
> {
    match cell {
        None => Ok(None),
        Some(_) => match capture {
            Some(year) => Ok(Some(year)),
            None => Err(PageError::MalformedYear),
        },
    }
}

/// The piece count written in `text`.
pub open spec fn pieces_in(text: Seq<char>) -> Option<Decimal> {
    amount_of(captured(NUMBER_THEN_AMPERSAND@, READ_GROUP as int, text))
}

/// The dollar amount written in `text`.
pub open spec fn price_in(text: Seq<char>) -> Option<Decimal> {
    amount_of(captured(DOLLARS@, READ_GROUP as int, text))
}

/// The year written in a year cell.
pub open spec fn year_in(cell: Option<Seq<char>>) -> Result<Option<Seq<char>>, PageError> {
    year_of(
        cell,
        match cell {
            Some(text) => captured(YEAR@, READ_GROUP as int, text),
            None => None,
        },
    )
}

/// The dollar amount written in an optional text.
pub open spec fn optional_price(text: Option<Seq<char>>) -> Option<Decimal> {
    match text {
        Some(t) => price_in(t),
        None => None,
    }
}

/// Whether a pricing label announces the set's value.
pub open spec fn is_value_label(label: Seq<char>) -> bool {
    label == VALUE_LABEL@ || label == MARKET_PRICE_LABEL@
}

/// The retail price that a pricing entry holds: the amount in the inner
/// HTML of its value, `None` where it has no value or no amount.
pub open spec fn retail_price_of(entry: PriceEntryView) -> Option<Decimal> {
    match entry.cell {
        Some(cell) => price_in(cell.inner_html),
        None => None,
    }
}

/// The value that a pricing entry holds: the amount in the HTML of its
/// value element, `None` where it has no value or no amount.
pub open spec fn value_of(entry: PriceEntryView) -> Option<Decimal> {
    match entry.cell {
        Some(cell) => price_in(cell.html),
        None => None,
    }
}

/// What the pricing panel appends to the retail-price column: one entry for
/// each retail-price label, in order.
pub open spec fn retail_prices(prices: Seq<PriceEntryView>) -> Seq<Option<Decimal>>
    decreases prices.len(),
{
    if prices.len() == 0 {
        Seq::empty()
    } else if prices.last().label == RETAIL_PRICE_LABEL@ {
        retail_prices(prices.drop_last()).push(retail_price_of(prices.last()))
    } else {
        retail_prices(prices.drop_last())
    }
}

/// What the pricing panel appends to the value column: the value of the
/// first entry that announces one. Later ones are discarded.
pub open spec fn first_value(prices: Seq<PriceEntryView>) -> Seq<Option<Decimal>>
    decreases prices.len(),
{
    if prices.len() == 0 {
        Seq::empty()
    } else if is_value_label(prices[0].label) {
        seq![value_of(prices[0])]
    } else {
        first_value(prices.drop_first())
    }
}

/// Of several entries that announce the set's value only the first counts:
/// where the entry at `i` announces a value and none before it does, the
/// pricing panel appends that entry's value, whatever follows.
pub proof fn lemma_first_value_is_first(prices: Seq<PriceEntryView>, i: int)
    requires
        0 <= i < prices.len(),
        is_value_label(prices[i].label),
        forall|j: int| 0 <= j < i ==> !is_value_label(#[trigger] prices[j].label),
    ensures
        first_value(prices) == seq![value_of(prices[i])],
    decreases i,
{
    if i > 0 {
        let rest = prices.drop_first();
        assert forall|j: int| 0 <= j < i - 1 implies !is_value_label(#[trigger] rest[j].label) by {
            assert(rest[j] == prices[j + 1]);
        }
        assert(rest[i - 1] == prices[i]);
        lemma_first_value_is_first(rest, i - 1);
    }
}

/// The columns after the page-wide prices were appended: the first listed
/// price or `None`, the retail prices, and the first value.
pub open spec fn with_prices(columns: Columns, page: DetailPageView) -> Columns {
    Columns {
        listed_price: columns.listed_price.push(optional_price(page.listed_price)),
        retail_price: columns.retail_price + retail_prices(page.prices),
        value: columns.value + first_value(page.prices),
        ..columns
    }
}

/// The columns after one row of the details section was dispatched on its
/// label. The set-number row appends the set number and, at once, the
/// page-wide prices. A label that is not one of the four is skipped.
pub open spec fn dispatched(columns: Columns, row: DetailRowView, page: DetailPageView) -> Result<
    Columns,
    PageError,
> {
    match row.label {
        None => Ok(columns),
        Some(label) => if label == SET_NUMBER_LABEL@ {
            match row.cell {
                Some(cell) => Ok(
                    with_prices(
                        Columns { set_number: columns.set_number.push(cell), ..columns },
                        page,
                    ),
                ),
                None => Err(PageError::MissingCell(Column::SetNumber)),
            }
        } else if label == NAME_LABEL@ {
            match row.cell {
                Some(cell) => Ok(Columns { name: columns.name.push(cell), ..columns }),
                None => Err(PageError::MissingCell(Column::Name)),
            }
        } else if label == YEAR_LABEL@ {
            match year_in(row.cell) {
                Ok(year) => Ok(Columns { year: columns.year.push(year), ..columns }),
                Err(error) => Err(error),
            }
        } else if label == PIECES_LABEL@ {
            Ok(
                Columns {
                    pieces: columns.pieces.push(
                        match row.cell {
                            Some(cell) => pieces_in(cell),
                            None => None,
                        },
                    ),
                    ..columns
                },
            )
        } else {
            Ok(columns)
        },
    }
}

/// The columns after the first `n` rows of the details section were
/// dispatched in order; the first row that cannot be read ends the page.
pub open spec fn fields_upto(page: DetailPageView, n: int) -> Result<Columns, PageError>
    decreases n,
{
    if n <= 0 {
        Ok(Columns::empty())
    } else {
        match fields_upto(page, n - 1) {
            Ok(columns) => dispatched(columns, page.details[n - 1], page),
            Err(error) => Err(error),
        }
    }
}

/// Whether the three patterns by which the fields are read compile.
pub open spec fn patterns_compile() -> bool {
    compiles(YEAR@) && compiles(DOLLARS@) && compiles(NUMBER_THEN_AMPERSAND@)
}

/// What a page appends to each column of the dataset. Nothing is read with
/// a pattern that does not compile.
pub open spec fn fields_of(page: DetailPageView) -> Result<Columns, PageError> {
    fields_when(patterns_compile(), page)
}

/// The columns that a result holds.
pub open spec fn columns_of(out: Result<SetData, PageError>) -> Result<Columns, PageError> {
    match out {
        Ok(data) => Ok(data@),
        Err(error) => Err(error),
    }
}

/// The text of a year that was read, or why none was.
pub open spec fn year_text(out: Result<Option<String>, PageError>) -> Result<
    Option<Seq<char>>,
    PageError,
> {
    match out {
        Ok(year) => Ok(text_of(year)),
        Err(error) => Err(error),
    }
}

/// The text of an optional borrowed string.
pub open spec fn borrowed_text(cell: Option<&String>) -> Option<Seq<char>> {
    match cell {
        Some(text) => Some(text@),
        None => None,
    }
}

/// Reads the amount that captured text stands for.
pub fn amount_from_capture(capture: Option<String>) -> (out: Option<Decimal>)
    ensures
        out == amount_of(text_of(capture)),
{
    match capture {
        Some(text) => {
            let digits = strip_separators(text.as_str());
            parse_decimal(digits.as_str())
        },
        None => None,
    }
}

/// Reads the year of a year cell from what was captured in it.
pub fn year_from_capture(cell: Option<&String>, capture: Option<String>) -> (out: Result<
    Option<String>,
    PageError,
>)
    ensures
        year_text(out) == year_of(borrowed_text(cell), text_of(capture)),
{
    match cell {
        None => Ok(None),
        Some(_) => match capture {
            Some(year) => Ok(Some(year)),
            None => Err(PageError::MalformedYear),
        },
    }
}

/// Reads a piece count: a leading run of digits, which may hold one
/// thousands separator, as a decimal.
pub fn read_pieces(text: &str) -> (out: Option<Decimal>)
    ensures
        out == pieces_in(text@),
{
    amount_from_capture(capture_group(NUMBER_THEN_AMPERSAND, READ_GROUP, text))
}

/// Reads a dollar amount: the decimal after the first `$` that has one.
pub fn read_price(text: &str) -> (out: Option<Decimal>)
    ensures
        out == price_in(text@),
{
    amount_from_capture(capture_group(DOLLARS, READ_GROUP, text))
}

/// Reads the year of a year cell.
pub fn read_year(cell: Option<&String>) -> (out: Result<Option<String>, PageError>)
    ensures
        year_text(out) == year_in(borrowed_text(cell)),
{
    let capture = match cell {
        Some(text) => capture_group(YEAR, READ_GROUP, text.as_str()),
        None => None,
    };
    year_from_capture(cell, capture)
}

/// The retail prices of the pricing panel, one for each retail-price label.
pub fn read_retail_prices(prices: &Vec<PriceEntry>) -> (out: Vec<Option<Decimal>>)
    ensures
        out@ == retail_prices(entry_views(prices@)),
{
    let ghost all = entry_views(prices@);
    let mut out: Vec<Option<Decimal>> = Vec::new();
    let mut i: usize = 0;
    while i < prices.len()
        invariant
            i <= prices.len(),
            all == entry_views(prices@),
            out@ == retail_prices(all.take(i as int)),
        decreases prices.len() - i,
    {
        proof {
            assert(all.take(i + 1).drop_last() == all.take(i as int));
            assert(all.take(i + 1).last() == prices@[i as int]@);
        }
        if same_text(prices[i].label.as_str(), RETAIL_PRICE_LABEL) {
            let price = match &prices[i].cell {
                Some(cell) => read_price(cell.inner_html.as_str()),
                None => None,
            };
            out.push(price);
        }
        i += 1;
    }
    assert(all.take(prices.len() as int) == all);
    out
}

/// The value of the pricing panel: that of the first entry labelled as the
/// set's value or market price, if there is one.
pub fn read_first_value(prices: &Vec<PriceEntry>) -> (out: Vec<Option<Decimal>>)
    ensures
        out@ == first_value(entry_views(prices@)),
{
    let ghost all = entry_views(prices@);
    let mut out: Vec<Option<Decimal>> = Vec::new();
    let mut i: usize = 0;
    assert(all.skip(0) == all);
    while i < prices.len()
        invariant
            i <= prices.len(),
            all == entry_views(prices@),
            out@.len() == 0,
            first_value(all) == first_value(all.skip(i as int)),
        decreases prices.len() - i,
    {
        proof {
            assert(all.skip(i as int).drop_first() == all.skip(i + 1));
            assert(all.skip(i as int)[0] == prices@[i as int]@);
        }
        let label = prices[i].label.as_str();
        if same_text(label, VALUE_LABEL) || same_text(label, MARKET_PRICE_LABEL) {
            let value = match &prices[i].cell {
                Some(cell) => read_price(cell.html.as_str()),
                None => None,
            };
            out.push(value);
            assert(out@ =~= seq![value]);
            return out;
        }
        i += 1;
    }
    out
}

/// Appends the page-wide prices to their columns.
fn push_prices(data: &mut SetData, page: &DetailPage)
    ensures
        final(data)@ == with_prices(old(data)@, page@),
{
    let listed = match &page.listed_price {
        Some(text) => read_price(text.as_str()),
        None => None,
    };
    data.listed_price.push(listed);
    let mut retail = read_retail_prices(&page.prices);
    data.retail_price.append(&mut retail);
    let mut value = read_first_value(&page.prices);
    data.value.append(&mut value);
}

/// Dispatches one row of the details section on its label.
fn dispatch(data: &mut SetData, row: &DetailRow, page: &DetailPage) -> (out: Result<(), PageError>)
    ensures
        match out {
            Ok(()) => dispatched(old(data)@, row@, page@) == Ok::<Columns, PageError>(final(data)@),
            Err(error) => dispatched(old(data)@, row@, page@) == Err::<Columns, PageError>(error),
        },
{
    let label = match &row.label {
        Some(label) => label.as_str(),
        None => {
            return Ok(());
        },
    };
    if same_text(label, SET_NUMBER_LABEL) {
        match &row.cell {
            Some(cell) => {
                proof {
                    lemma_push_text(data.set_number@, *cell);
                }
                data.set_number.push(cell.clone());
                push_prices(data, page);
                Ok(())
            },
            None => Err(PageError::MissingCell(Column::SetNumber)),
        }
    } else if same_text(label, NAME_LABEL) {
        match &row.cell {
            Some(cell) => {
                proof {
                    lemma_push_text(data.name@, *cell);
                }
                data.name.push(cell.clone());
                Ok(())
            },
            None => Err(PageError::MissingCell(Column::Name)),
        }
    } else if same_text(label, YEAR_LABEL) {
        match read_year(row.cell.as_ref()) {
            Ok(year) => {
                proof {
                    lemma_push_optional_text(data.year@, year);
                }
                data.year.push(year);
                Ok(())
            },
            Err(error) => Err(error),
        }
    } else if same_text(label, PIECES_LABEL) {
        let pieces = match &row.cell {
            Some(cell) => read_pieces(cell.as_str()),
            None => None,
        };
        data.pieces.push(pieces);
        Ok(())
    } else {
        Ok(())
    }
}

/// What is read from a page once it is known whether the patterns
/// compile: nothing is read with a pattern that does not.
pub open spec fn fields_when(compile: bool, page: DetailPageView) -> Result<Columns, PageError> {
    if compile {
        fields_upto(page, page.details.len() as int)
    } else {
        Err(PageError::InvalidPattern)
    }
}

/// Extracts what a page appends to each column of the dataset, given
/// whether the patterns by which the fields are read compile.
pub fn fields_of_page(compile: bool, page: &DetailPage) -> (out: Result<SetData, PageError>)
    ensures
        columns_of(out) == fields_when(compile, page@),
{
    if !compile {
        return Err(PageError::InvalidPattern);
    }
    let mut data = SetData::new();
    let mut i: usize = 0;
    while i < page.details.len()
        invariant
            compile,
            i <= page.details.len(),
            fields_upto(page@, i as int) == Ok::<Columns, PageError>(data@),
        decreases page.details.len() - i,
    {
        assert(page@.details[i as int] == page.details@[i as int]@);
        match dispatch(&mut data, &page.details[i], page) {
            Ok(()) => {},
            Err(error) => {
                proof {
                    lemma_fields_fail(page@, i + 1, page.details.len() as int);
                }
                return Err(error);
            },
        }
        i += 1;
    }
    Ok(data)
}

/// Extracts what a page appends to each column of the dataset: for each
/// labelled row of the details section, in document order, one value in the
/// column of its label, and with the set number the page-wide prices. The
/// columns of a field that the page lacks stay empty.
pub fn page_fields(page: &DetailPage) -> (out: Result<SetData, PageError>)
    ensures
        columns_of(out) == fields_of(page@),
{
    let compile = pattern_compiles(YEAR) && pattern_compiles(DOLLARS) && pattern_compiles(
        NUMBER_THEN_AMPERSAND,
    );
    fields_of_page(compile, page)
}

/// Once a row cannot be read, the rows after it change nothing.
pub proof fn lemma_fields_fail(page: DetailPageView, failed: int, n: int)
    requires
        failed <= n,
        fields_upto(page, failed) is Err,
    ensures
        fields_upto(page, n) == fields_upto(page, failed),
    decreases n - failed,
{
    if failed < n {
        lemma_fields_fail(page, failed, n - 1);
    }
}

} // verus!
