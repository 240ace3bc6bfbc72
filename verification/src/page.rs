//! The parts of a set's detail page that the extraction rules read, taken
//! out of the page's HTML.

use vstd::prelude::*;
use crate::fields::PageError;
use crate::html::{
    element_views, found, found_scope_views, found_views, found_within, scope_views,
    scoped_views, select_all, select_all_within, Element, ElementView, Scoped, ScopedView,
};
use crate::text::text_of;

verus! {

/// Selects the rows of the two-column details section.
pub const SET_DETAILS: &'static str = "div#SetDetails div.row";

/// Selects the label column of a row.
pub const LABEL_COLUMN: &'static str = "div.col-xs-5";

/// Selects the value column of a row.
pub const VALUE_COLUMN: &'static str = "div.col-xs-7";

/// Selects the asking prices of third-party sellers.
pub const LISTED_PRICE: &'static str = "table#sales_region_table tr td div span.a";

/// Selects the rows of the pricing panel.
pub const PRICE_ROWS: &'static str = "#ContentPlaceHolder1_PanelSetPricing div.row";

/// Selects the hover help in which some pricing labels are nested.
pub const HELP_POPOVER: &'static str = "span.helppopover";

/// One row of the details section: the text of its label column and of its
/// value column, each absent where the row has no such column.
#[derive(Clone, Debug, PartialEq, Eq)]
pub struct DetailRow {
    pub label: Option<String>,
    pub cell: Option<String>,
}

/// The mathematical value of a [`DetailRow`].
pub struct DetailRowView {
    pub label: Option<Seq<char>>,
    pub cell: Option<Seq<char>>,
}

impl View for DetailRow {
    type V = DetailRowView;

    open spec fn view(&self) -> DetailRowView {
        DetailRowView { label: text_of(self.label), cell: text_of(self.cell) }
    }
}

/// One label of the pricing panel with the value that stands beside it.
#[derive(Clone, Debug, PartialEq, Eq)]
pub struct PriceEntry {
    pub label: String,
    pub cell: Option<Element>,
}

/// The mathematical value of a [`PriceEntry`].
pub struct PriceEntryView {
    pub label: Seq<char>,
    pub cell: Option<ElementView>,
}

/// The view of an optional element.
pub open spec fn element_of(e: Option<Element>) -> Option<ElementView> {
    match e {
        Some(found) => Some(found@),
        None => None,
    }
}

impl View for PriceEntry {
    type V = PriceEntryView;

    open spec fn view(&self) -> PriceEntryView {
        PriceEntryView { label: self.label@, cell: element_of(self.cell) }
    }
}

/// What the extraction rules read of one detail page.
#[derive(Clone, Debug, PartialEq, Eq)]
pub struct DetailPage {
    /// The rows of the details section, in document order.
    pub details: Vec<DetailRow>,
    /// The text of the first listed asking price, if the page has one.
    pub listed_price: Option<String>,
    /// The entries of the pricing panel, in document order.
    pub prices: Vec<PriceEntry>,
}

/// The mathematical value of a [`DetailPage`].
pub struct DetailPageView {
    pub details: Seq<DetailRowView>,
    pub listed_price: Option<Seq<char>>,
    pub prices: Seq<PriceEntryView>,
}

/// The values of a run of detail rows.
pub open spec fn row_views(rows: Seq<DetailRow>) -> Seq<DetailRowView> {
    rows.map_values(|row: DetailRow| row@)
}

/// The values of a run of pricing entries.
pub open spec fn entry_views(entries: Seq<PriceEntry>) -> Seq<PriceEntryView> {
    entries.map_values(|entry: PriceEntry| entry@)
}

impl View for DetailPage {
    type V = DetailPageView;

    open spec fn view(&self) -> DetailPageView {
        DetailPageView {
            details: row_views(self.details@),
            listed_price: text_of(self.listed_price),
            prices: entry_views(self.prices@),
        }
    }
}

/// The inner HTML of the first element, if there is one.
pub open spec fn first_inner(found: Seq<ElementView>) -> Option<Seq<char>> {
    if found.len() > 0 {
        Some(found[0].inner_html)
    } else {
        None
    }
}

/// The inner HTML of the first scoped element, if there is one.
pub open spec fn first_scoped_inner(found: Seq<ScopedView>) -> Option<Seq<char>> {
    if found.len() > 0 {
        Some(found[0].element.inner_html)
    } else {
        None
    }
}

/// The scope at position `i`; an empty scope where there is none.
pub open spec fn scope_at(scopes: Seq<Seq<ScopedView>>, i: int) -> Seq<ScopedView> {
    if 0 <= i < scopes.len() {
        scopes[i]
    } else {
        Seq::empty()
    }
}

/// The detail row made of the label columns and value columns selected
/// within one row: the first of each counts.
pub open spec fn detail_row(labels: Seq<ScopedView>, cells: Seq<ScopedView>) -> DetailRowView {
    DetailRowView { label: first_scoped_inner(labels), cell: first_scoped_inner(cells) }
}

/// The detail rows of a details section, given the label columns and the
/// value columns selected within each of its rows.
pub open spec fn detail_rows(labels: Seq<Seq<ScopedView>>, cells: Seq<Seq<ScopedView>>) -> Seq<
    DetailRowView,
> {
    Seq::new(labels.len(), |i: int| detail_row(labels[i], scope_at(cells, i)))
}

/// The text of a pricing label: that of the last hover help nested in it,
/// or its own where none is nested.
pub open spec fn price_label(label: ScopedView) -> Seq<char> {
    if label.within.len() > 0 {
        label.within.last().inner_html
    } else {
        label.element.inner_html
    }
}

/// The pricing entry of one label.
pub open spec fn price_entry(label: ScopedView, cell: Option<ElementView>) -> PriceEntryView {
    PriceEntryView { label: price_label(label), cell }
}

/// The entries of one pricing row: its labels in order, each paired with
/// the value column at the same position, if the row has that many.
pub open spec fn row_entries(labels: Seq<ScopedView>, cells: Seq<ScopedView>) -> Seq<PriceEntryView> {
    Seq::new(
        labels.len(),
        |k: int|
            price_entry(
                labels[k],
                if k < cells.len() {
                    Some(cells[k].element)
                } else {
                    None
                },
            ),
    )
}

/// The entries of the first `n` rows of a pricing panel, row after row.
pub open spec fn entries_upto(labels: Seq<Seq<ScopedView>>, cells: Seq<Seq<ScopedView>>, n: int) -> Seq<
    PriceEntryView,
>
    decreases n,
{
    if n <= 0 {
        Seq::empty()
    } else {
        entries_upto(labels, cells, n - 1) + row_entries(labels[n - 1], scope_at(cells, n - 1))
    }
}

/// The entries of a pricing panel, given the label columns and the value
/// columns selected within each of its rows.
pub open spec fn price_entries(labels: Seq<Seq<ScopedView>>, cells: Seq<Seq<ScopedView>>) -> Seq<
    PriceEntryView,
> {
    entries_upto(labels, cells, labels.len() as int)
}

/// The page made of five selections: the label columns and the value
/// columns of the rows of the details section, the listed prices, and the
/// label columns and the value columns of the rows of the pricing panel. A
/// selection that failed for want of a valid selector leaves no page.
pub open spec fn page_made_of(
    labels: Option<Seq<Seq<ScopedView>>>,
    cells: Option<Seq<Seq<ScopedView>>>,
    listed: Option<Seq<ElementView>>,
    price_labels: Option<Seq<Seq<ScopedView>>>,
    price_cells: Option<Seq<Seq<ScopedView>>>,
) -> Result<DetailPageView, PageError> {
    match (labels, cells, listed, price_labels, price_cells) {
        (Some(labels), Some(cells), Some(listed), Some(price_labels), Some(price_cells)) => Ok(
            DetailPageView {
                details: detail_rows(labels, cells),
                listed_price: first_inner(listed),
                prices: price_entries(price_labels, price_cells),
            },
        ),
        _ => Err(PageError::InvalidSelector),
    }
}

/// What [`parse_page`] reads from a page's HTML. The columns of a row are
/// selected among the row's descendants, and the hover helps of a label
/// among the label's.
pub open spec fn page_of(html: Seq<char>) -> Result<DetailPageView, PageError> {
    page_made_of(
        found_within(html, SET_DETAILS@, LABEL_COLUMN@, HELP_POPOVER@),
        found_within(html, SET_DETAILS@, VALUE_COLUMN@, HELP_POPOVER@),
        found(html, LISTED_PRICE@),
        found_within(html, PRICE_ROWS@, LABEL_COLUMN@, HELP_POPOVER@),
        found_within(html, PRICE_ROWS@, VALUE_COLUMN@, HELP_POPOVER@),
    )
}

/// The page that a result holds.
pub open spec fn page_view(out: Result<DetailPage, PageError>) -> Result<DetailPageView, PageError> {
    match out {
        Ok(page) => Ok(page@),
        Err(error) => Err(error),
    }
}

/// The inner HTML of the first of `found`.
pub fn first_inner_html(found: &Vec<Element>) -> (out: Option<String>)
    ensures
        text_of(out) == first_inner(element_views(found@)),
{
    if found.len() > 0 {
        Some(found[0].inner_html.clone())
    } else {
        None
    }
}

/// Builds a detail row from the label columns and value columns selected
/// within it.
pub fn detail_row_of(labels: &Vec<Scoped>, cells: &Vec<Scoped>) -> (row: DetailRow)
    ensures
        row@ == detail_row(scoped_views(labels@), scoped_views(cells@)),
{
    let label = if labels.len() > 0 {
        Some(labels[0].element.inner_html.clone())
    } else {
        None
    };
    let cell = if cells.len() > 0 {
        Some(cells[0].element.inner_html.clone())
    } else {
        None
    };
    DetailRow { label, cell }
}

/// Builds the detail rows of a details section from the label columns and
/// the value columns selected within each of its rows.
pub fn detail_rows_of(labels: &Vec<Vec<Scoped>>, cells: &Vec<Vec<Scoped>>) -> (rows: Vec<DetailRow>)
    ensures
        row_views(rows@) == detail_rows(scope_views(labels@), scope_views(cells@)),
{
    let ghost wanted = detail_rows(scope_views(labels@), scope_views(cells@));
    let none: Vec<Scoped> = Vec::new();
    let mut rows: Vec<DetailRow> = Vec::new();
    let mut i: usize = 0;
    while i < labels.len()
        invariant
            i <= labels.len(),
            none@.len() == 0,
            wanted == detail_rows(scope_views(labels@), scope_views(cells@)),
            row_views(rows@) == wanted.take(i as int),
        decreases labels.len() - i,
    {
        let beside = if i < cells.len() {
            &cells[i]
        } else {
            &none
        };
        let row = detail_row_of(&labels[i], beside);
        proof {
            assert(scoped_views(beside@) =~= scope_at(scope_views(cells@), i as int));
            assert(row@ == wanted[i as int]);
            assert(wanted.take(i + 1) == wanted.take(i as int).push(wanted[i as int]));
            assert(row_views(rows@.push(row)) == row_views(rows@).push(row@));
        }
        rows.push(row);
        i += 1;
    }
    assert(wanted.take(labels.len() as int) == wanted);
    rows
}

/// Builds a pricing entry from a label with the hover helps selected
/// within it, and the value beside it.
pub fn price_entry_of(label: &Scoped, cell: Option<&Element>) -> (entry: PriceEntry)
    ensures
        entry@ == price_entry(
            label@,
            match cell {
                Some(found) => Some(found@),
                None => None,
            },
        ),
{
    let text = if label.within.len() > 0 {
        label.within[label.within.len() - 1].inner_html.clone()
    } else {
        label.element.inner_html.clone()
    };
    let cell = match cell {
        Some(found) => Some(Element { html: found.html.clone(), inner_html: found.inner_html.clone() }),
        None => None,
    };
    PriceEntry { label: text, cell }
}

/// Appends the entries of one pricing row to `entries`.
fn push_row_entries(entries: &mut Vec<PriceEntry>, labels: &Vec<Scoped>, cells: &Vec<Scoped>)
    ensures
        entry_views(final(entries)@) == entry_views(old(entries)@) + row_entries(
            scoped_views(labels@),
            scoped_views(cells@),
        ),
{
    let ghost before = entry_views(entries@);
    let ghost wanted = row_entries(scoped_views(labels@), scoped_views(cells@));
    let mut k: usize = 0;
    while k < labels.len()
        invariant
            k <= labels.len(),
            wanted == row_entries(scoped_views(labels@), scoped_views(cells@)),
            entry_views(entries@) == before + wanted.take(k as int),
        decreases labels.len() - k,
    {
        let cell = if k < cells.len() {
            Some(&cells[k].element)
        } else {
            None
        };
        let entry = price_entry_of(&labels[k], cell);
        proof {
            assert(entry@ == wanted[k as int]);
            assert(wanted.take(k + 1) == wanted.take(k as int).push(wanted[k as int]));
            assert(entry_views(entries@.push(entry)) == entry_views(entries@).push(entry@));
        }
        entries.push(entry);
        k += 1;
    }
    assert(wanted.take(labels.len() as int) == wanted);
}

/// Builds the entries of a pricing panel from the label columns and the
/// value columns selected within each of its rows.
pub fn price_entries_of(labels: &Vec<Vec<Scoped>>, cells: &Vec<Vec<Scoped>>) -> (entries: Vec<PriceEntry>)
    ensures
        entry_views(entries@) == price_entries(scope_views(labels@), scope_views(cells@)),
{
    let none: Vec<Scoped> = Vec::new();
    let mut entries: Vec<PriceEntry> = Vec::new();
    let mut i: usize = 0;
    while i < labels.len()
        invariant
            i <= labels.len(),
            none@.len() == 0,
            entry_views(entries@) == entries_upto(
                scope_views(labels@),
                scope_views(cells@),
                i as int,
            ),
        decreases labels.len() - i,
    {
        let beside = if i < cells.len() {
            &cells[i]
        } else {
            &none
        };
        proof {
            assert(scoped_views(beside@) =~= scope_at(scope_views(cells@), i as int));
        }
        push_row_entries(&mut entries, &labels[i], beside);
        i += 1;
    }
    entries
}

/// Builds the page from five selections; see [`page_made_of`].
pub fn page_from(
    labels: Option<Vec<Vec<Scoped>>>,
    cells: Option<Vec<Vec<Scoped>>>,
    listed: Option<Vec<Element>>,
    price_labels: Option<Vec<Vec<Scoped>>>,
    price_cells: Option<Vec<Vec<Scoped>>>,
) -> (out: Result<DetailPage, PageError>)
    ensures
        page_view(out) == page_made_of(
            found_scope_views(labels),
            found_scope_views(cells),
            found_views(listed),
            found_scope_views(price_labels),
            found_scope_views(price_cells),
        ),
{
    match (labels, cells, listed, price_labels, price_cells) {
        (Some(labels), Some(cells), Some(listed), Some(price_labels), Some(price_cells)) => Ok(
            DetailPage {
                details: detail_rows_of(&labels, &cells),
                listed_price: first_inner_html(&listed),
                prices: price_entries_of(&price_labels, &price_cells),
            },
        ),
        _ => Err(PageError::InvalidSelector),
    }
}

/// Reads from a page's HTML the rows of its details section, its first
/// listed price and the entries of its pricing panel. The page is parsed
/// once for each selection, and what is selected within a row or a label is
/// selected among its descendants in that parse. In the value columns and in
/// the details section the hover helps are selected and not read.
pub fn parse_page(html: &str) -> (out: Result<DetailPage, PageError>)
    ensures
        page_view(out) == page_of(html@),
{
    page_from(
        select_all_within(html, SET_DETAILS, LABEL_COLUMN, HELP_POPOVER),
        select_all_within(html, SET_DETAILS, VALUE_COLUMN, HELP_POPOVER),
        select_all(html, LISTED_PRICE),
        select_all_within(html, PRICE_ROWS, LABEL_COLUMN, HELP_POPOVER),
        select_all_within(html, PRICE_ROWS, VALUE_COLUMN, HELP_POPOVER),
    )
}

} // verus!
