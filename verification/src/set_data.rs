//! The column-aligned dataset into which scraped pages are accumulated.

use vstd::prelude::*;
use crate::decimal::Decimal;
use crate::text::text_of;

verus! {

/// The columns of the dataset.
#[derive(Clone, Copy, Debug, PartialEq, Eq, Structural)]
pub enum Column {
    SetNumber,
    Name,
    Year,
    RetailPrice,
    Value,
    ListedPrice,
    Pieces,
}

/// Where the data we pull is stored, column by column. Row `i` of every
/// column describes the same page. While a page is being taken in, the
/// columns may differ in length; [`SetData::reconcile`] and
/// [`SetData::absorb`] bring them back into line or report which column
/// cannot be.
#[derive(Clone, Debug, PartialEq, Eq)]
pub struct SetData {
    /// Text, not a number: it is written with a `-`.
    pub set_number: Vec<String>,
    pub name: Vec<String>,
    pub year: Vec<Option<String>>,
    pub retail_price: Vec<Option<Decimal>>,
    /// Either the market price or the site's estimate.
    pub value: Vec<Option<Decimal>>,
    /// A seller's asking price.
    pub listed_price: Vec<Option<Decimal>>,
    pub pieces: Vec<Option<Decimal>>,
}

/// What is known of one set: one row of the dataset.
#[derive(Clone, Debug, PartialEq, Eq)]
pub struct SetRecord {
    pub set_number: String,
    pub name: String,
    pub year: Option<String>,
    pub retail_price: Option<Decimal>,
    pub value: Option<Decimal>,
    pub listed_price: Option<Decimal>,
    pub pieces: Option<Decimal>,
}

impl View for SetRecord {
    type V = Row;

    open spec fn view(&self) -> Row {
        Row {
            set_number: self.set_number@,
            name: self.name@,
            year: text_of(self.year),
            retail_price: self.retail_price,
            value: self.value,
            listed_price: self.listed_price,
            pieces: self.pieces,
        }
    }
}

/// The mathematical value of a [`SetData`]: its columns as sequences.
pub struct Columns {
    pub set_number: Seq<Seq<char>>,
    pub name: Seq<Seq<char>>,
    pub year: Seq<Option<Seq<char>>>,
    pub retail_price: Seq<Option<Decimal>>,
    pub value: Seq<Option<Decimal>>,
    pub listed_price: Seq<Option<Decimal>>,
    pub pieces: Seq<Option<Decimal>>,
}

/// One row of the dataset.
pub struct Row {
    pub set_number: Seq<char>,
    pub name: Seq<char>,
    pub year: Option<Seq<char>>,
    pub retail_price: Option<Decimal>,
    pub value: Option<Decimal>,
    pub listed_price: Option<Decimal>,
    pub pieces: Option<Decimal>,
}

/// The texts of a column of strings.
pub open spec fn texts(column: Seq<String>) -> Seq<Seq<char>> {
    column.map_values(|s: String| s@)
}

/// The texts of a column of optional strings.
pub open spec fn optional_texts(column: Seq<Option<String>>) -> Seq<Option<Seq<char>>> {
    column.map_values(|s: Option<String>| text_of(s))
}

impl View for SetData {
    type V = Columns;

    open spec fn view(&self) -> Columns {
        Columns {
            set_number: texts(self.set_number@),
            name: texts(self.name@),
            year: optional_texts(self.year@),
            retail_price: self.retail_price@,
            value: self.value@,
            listed_price: self.listed_price@,
            pieces: self.pieces@,
        }
    }
}

/// The larger of two lengths.
pub open spec fn longer(a: nat, b: nat) -> nat {
    if a >= b {
        a
    } else {
        b
    }
}

/// `column` with one `None` added if it is shorter than `target`.
pub open spec fn padded<T>(column: Seq<Option<T>>, target: nat) -> Seq<Option<T>> {
    if column.len() < target {
        column.push(None)
    } else {
        column
    }
}

/// The first entry of a column, or `None` where the column is empty.
pub open spec fn first_or_none<T>(column: Seq<Option<T>>) -> Option<T> {
    if column.len() > 0 {
        column[0]
    } else {
        None
    }
}

impl Columns {
    /// The dataset with no rows.
    pub open spec fn empty() -> Columns {
        Columns {
            set_number: Seq::empty(),
            name: Seq::empty(),
            year: Seq::empty(),
            retail_price: Seq::empty(),
            value: Seq::empty(),
            listed_price: Seq::empty(),
            pieces: Seq::empty(),
        }
    }

    /// The number of rows: the length of the set-number column.
    pub open spec fn len(self) -> nat {
        self.set_number.len()
    }

    /// Every column has as many entries as the set-number column.
    pub open spec fn aligned(self) -> bool {
        self.misaligned() is None
    }

    /// The first column, in the order of [`Column`], whose length differs
    /// from that of the set-number column.
    pub open spec fn misaligned(self) -> Option<Column> {
        let n = self.set_number.len();
        if self.name.len() != n {
            Some(Column::Name)
        } else if self.year.len() != n {
            Some(Column::Year)
        } else if self.retail_price.len() != n {
            Some(Column::RetailPrice)
        } else if self.value.len() != n {
            Some(Column::Value)
        } else if self.listed_price.len() != n {
            Some(Column::ListedPrice)
        } else if self.pieces.len() != n {
            Some(Column::Pieces)
        } else {
            None
        }
    }

    /// The length of the longest column.
    pub open spec fn longest(self) -> nat {
        longer(
            self.set_number.len(),
            longer(
                self.name.len(),
                longer(
                    self.year.len(),
                    longer(
                        self.retail_price.len(),
                        longer(self.value.len(), longer(self.listed_price.len(), self.pieces.len())),
                    ),
                ),
            ),
        )
    }

    /// Every optional column that is shorter than the longest column, padded
    /// with one `None`.
    pub open spec fn reconciled(self) -> Columns {
        let target = self.longest();
        Columns {
            set_number: self.set_number,
            name: self.name,
            year: padded(self.year, target),
            retail_price: padded(self.retail_price, target),
            value: padded(self.value, target),
            listed_price: padded(self.listed_price, target),
            pieces: padded(self.pieces, target),
        }
    }

    /// Each column followed by the same column of `more`.
    pub open spec fn extended(self, more: Columns) -> Columns {
        Columns {
            set_number: self.set_number + more.set_number,
            name: self.name + more.name,
            year: self.year + more.year,
            retail_price: self.retail_price + more.retail_price,
            value: self.value + more.value,
            listed_price: self.listed_price + more.listed_price,
            pieces: self.pieces + more.pieces,
        }
    }

    /// Whether every column has an entry at position `i`.
    pub open spec fn holds_row(self, i: int) -> bool {
        &&& 0 <= i < self.set_number.len()
        &&& i < self.name.len()
        &&& i < self.year.len()
        &&& i < self.retail_price.len()
        &&& i < self.value.len()
        &&& i < self.listed_price.len()
        &&& i < self.pieces.len()
    }

    /// Row `i`, read across the columns.
    pub open spec fn row(self, i: int) -> Row
        recommends
            self.aligned(),
            0 <= i < self.len(),
    {
        Row {
            set_number: self.set_number[i],
            name: self.name[i],
            year: self.year[i],
            retail_price: self.retail_price[i],
            value: self.value[i],
            listed_price: self.listed_price[i],
            pieces: self.pieces[i],
        }
    }

    /// The rows of the dataset, in order.
    pub open spec fn rows(self) -> Seq<Row>
        recommends
            self.aligned(),
    {
        Seq::new(self.len(), |i: int| self.row(i))
    }

    /// The row that a page contributes whose columns are `self`: the first
    /// entry of each column, and `None` where an optional column has none.
    pub open spec fn as_row(self) -> Row
        recommends
            self.set_number.len() == 1,
            self.name.len() == 1,
    {
        Row {
            set_number: self.set_number[0],
            name: self.name[0],
            year: first_or_none(self.year),
            retail_price: first_or_none(self.retail_price),
            value: first_or_none(self.value),
            listed_price: first_or_none(self.listed_price),
            pieces: first_or_none(self.pieces),
        }
    }

    /// The columns that taking in a page leaves, where `page` holds what
    /// the page's fields append to each column. A dataset that cannot be
    /// reconciled takes nothing in.
    pub open spec fn after_absorbing(self, page: Columns) -> Columns {
        if self.reconciled().aligned() {
            self.reconciled().extended(page).reconciled()
        } else {
            self.reconciled()
        }
    }

    /// What taking in a page reports: the column that is out of line, or
    /// whether the page contributed a row.
    pub open spec fn absorbing(self, page: Columns) -> Result<bool, Column> {
        if let Some(column) = self.reconciled().misaligned() {
            Err(column)
        } else if page.set_number.len() > 1 {
            Err(Column::SetNumber)
        } else if let Some(column) = self.after_absorbing(page).misaligned() {
            Err(column)
        } else {
            Ok(page.set_number.len() == 1)
        }
    }
}

/// Padding brings an optional column into line with the others exactly
/// where it was short by one entry.
pub proof fn lemma_reconciled_lengths(c: Columns)
    ensures
        c.reconciled().set_number == c.set_number,
        c.reconciled().name == c.name,
        c.aligned() ==> c.reconciled() == c,
        c.reconciled().aligned() <==> {
            let n = c.set_number.len();
            &&& c.name.len() == n
            &&& n - 1 <= c.year.len() <= n
            &&& n - 1 <= c.retail_price.len() <= n
            &&& n - 1 <= c.value.len() <= n
            &&& n - 1 <= c.listed_price.len() <= n
            &&& n - 1 <= c.pieces.len() <= n
        },
{
}

impl SetData {
    /// An empty dataset.
    pub fn new() -> (data: SetData)
        ensures
            data@ == Columns::empty(),
            data@.aligned(),
            data@.rows() == Seq::<Row>::empty(),
    {
        let data = SetData {
            set_number: Vec::new(),
            name: Vec::new(),
            year: Vec::new(),
            retail_price: Vec::new(),
            value: Vec::new(),
            listed_price: Vec::new(),
            pieces: Vec::new(),
        };
        assert(data@.set_number =~= Seq::empty());
        assert(data@.year =~= Seq::empty());
        data
    }

    /// The number of rows.
    pub fn len(&self) -> (n: usize)
        ensures
            n == self@.len(),
    {
        self.set_number.len()
    }

    /// The set number recorded last, for diagnostics.
    pub fn last_set_number(&self) -> (last: Option<&String>)
        ensures
            match last {
                Some(s) => self@.set_number.len() > 0 && s@ == self@.set_number.last(),
                None => self@.set_number.len() == 0,
            },
    {
        let n = self.set_number.len();
        if n > 0 {
            Some(&self.set_number[n - 1])
        } else {
            None
        }
    }

    /// Row `i`, read across the columns, where every column reaches that
    /// far.
    pub fn record(&self, i: usize) -> (out: Option<SetRecord>)
        ensures
            match out {
                Some(record) => self@.holds_row(i as int) && record@ == self@.row(i as int),
                None => !self@.holds_row(i as int),
            },
    {
        if i < self.set_number.len() && i < self.name.len() && i < self.year.len() && i
            < self.retail_price.len() && i < self.value.len() && i < self.listed_price.len() && i
            < self.pieces.len() {
            Some(
                SetRecord {
                    set_number: self.set_number[i].clone(),
                    name: self.name[i].clone(),
                    year: self.year[i].clone(),
                    retail_price: self.retail_price[i],
                    value: self.value[i],
                    listed_price: self.listed_price[i],
                    pieces: self.pieces[i],
                },
            )
        } else {
            None
        }
    }

    /// Checks that every column is as long as the set-number column, and
    /// names the first one that is not.
    pub fn check_aligned(&self) -> (out: Result<(), Column>)
        ensures
            out == match self@.misaligned() {
                Some(column) => Err::<(), Column>(column),
                None => Ok(()),
            },
    {
        let n = self.set_number.len();
        if self.name.len() != n {
            Err(Column::Name)
        } else if self.year.len() != n {
            Err(Column::Year)
        } else if self.retail_price.len() != n {
            Err(Column::RetailPrice)
        } else if self.value.len() != n {
            Err(Column::Value)
        } else if self.listed_price.len() != n {
            Err(Column::ListedPrice)
        } else if self.pieces.len() != n {
            Err(Column::Pieces)
        } else {
            Ok(())
        }
    }

    /// The length of the longest column.
    pub fn longest(&self) -> (n: usize)
        ensures
            n == self@.longest(),
    {
        let mut n = self.set_number.len();
        if self.name.len() > n {
            n = self.name.len();
        }
        if self.year.len() > n {
            n = self.year.len();
        }
        if self.retail_price.len() > n {
            n = self.retail_price.len();
        }
        if self.value.len() > n {
            n = self.value.len();
        }
        if self.listed_price.len() > n {
            n = self.listed_price.len();
        }
        if self.pieces.len() > n {
            n = self.pieces.len();
        }
        n
    }

    /// Pads with one `None` every optional column that is shorter than the
    /// longest column, then checks the alignment. On `Err` the named column
    /// is still out of line: it was short by more than one entry, or it is a
    /// column that cannot be padded.
    pub fn reconcile(&mut self) -> (out: Result<(), Column>)
        ensures
            final(self)@ == old(self)@.reconciled(),
            out == match final(self)@.misaligned() {
                Some(column) => Err::<(), Column>(column),
                None => Ok(()),
            },
            out is Ok <==> final(self)@.aligned(),
    {
        let target = self.longest();
        if self.year.len() < target {
            proof {
                lemma_push_optional_text(self.year@, None);
            }
            self.year.push(None);
        }
        if self.retail_price.len() < target {
            self.retail_price.push(None);
        }
        if self.value.len() < target {
            self.value.push(None);
        }
        if self.listed_price.len() < target {
            self.listed_price.push(None);
        }
        if self.pieces.len() < target {
            self.pieces.push(None);
        }
        self.check_aligned()
    }

    /// Takes in what one page appends to each column: `page` holds, column
    /// by column, the values that the page's fields yield, none for a field
    /// that the page lacks.
    ///
    /// The dataset is first reconciled; a column that is then still out of
    /// line is reported and nothing is taken in. Then the page's values are
    /// appended and the dataset is reconciled again, so that a field the
    /// page lacks reads `None` in the page's row. A page may add one row or
    /// none: one that yields more than one set number, or leaves a column out
    /// of line, is reported with that column. `Ok` tells whether the page
    /// contributed a row.
    pub fn absorb(&mut self, page: SetData) -> (out: Result<bool, Column>)
        ensures
            final(self)@ == old(self)@.after_absorbing(page@),
            out == old(self)@.absorbing(page@),
            out is Ok ==> final(self)@.aligned(),
            out matches Ok(contributed) ==> final(self)@.rows() == old(self)@.reconciled().rows() + (
            if contributed {
                seq![page@.as_row()]
            } else {
                Seq::<Row>::empty()
            }),
    {
        let mut page = page;
        let ghost taken = page@;
        match self.reconcile() {
            Err(column) => {
                return Err(column);
            },
            Ok(()) => {},
        }
        let ghost base = self@;
        let more = page.set_number.len();
        proof {
            assert(texts(self.set_number@ + page.set_number@) =~= texts(self.set_number@) + texts(
                page.set_number@,
            ));
            assert(texts(self.name@ + page.name@) =~= texts(self.name@) + texts(page.name@));
            assert(optional_texts(self.year@ + page.year@) =~= optional_texts(self.year@)
                + optional_texts(page.year@));
        }
        self.set_number.append(&mut page.set_number);
        self.name.append(&mut page.name);
        self.year.append(&mut page.year);
        self.retail_price.append(&mut page.retail_price);
        self.value.append(&mut page.value);
        self.listed_price.append(&mut page.listed_price);
        self.pieces.append(&mut page.pieces);
        let aligned = self.reconcile();
        if more > 1 {
            return Err(Column::SetNumber);
        }
        match aligned {
            Err(column) => Err(column),
            Ok(()) => {
                proof {
                    lemma_absorbed_rows(base, taken);
                }
                Ok(more == 1)
            },
        }
    }
}

/// A page that is taken in without complaint adds exactly its own row to
/// the rows that were there, or nothing where it yields no set number.
pub proof fn lemma_absorbed_rows(base: Columns, page: Columns)
    requires
        base.aligned(),
        page.set_number.len() <= 1,
        base.extended(page).reconciled().aligned(),
    ensures
        base.extended(page).reconciled().rows() == base.rows() + (if page.set_number.len() == 1 {
            seq![page.as_row()]
        } else {
            Seq::<Row>::empty()
        }),
{
    let grown = base.extended(page).reconciled();
    lemma_reconciled_lengths(base.extended(page));
    let n = base.len() as int;
    if page.set_number.len() == 1 {
        let wanted = base.rows() + seq![page.as_row()];
        assert(grown.rows().len() == wanted.len());
        assert forall|i: int| 0 <= i < wanted.len() implies grown.rows()[i] == wanted[i] by {
            if i < n {
                assert(grown.row(i) == base.row(i));
            } else {
                assert(grown.row(i) == page.as_row());
            }
        }
        assert(grown.rows() =~= wanted);
    } else {
        assert forall|i: int| 0 <= i < n implies grown.rows()[i] == base.rows()[i] by {
            assert(grown.row(i) == base.row(i));
        }
        assert(grown.rows() =~= base.rows());
    }
}

/// Whether what a page appends makes one row or none: at most one set
/// number, as many names, and in no optional column more values than set
/// numbers.
pub open spec fn is_row_or_nothing(page: Columns) -> bool {
    let n = page.set_number.len();
    &&& n <= 1
    &&& page.name.len() == n
    &&& page.year.len() <= n
    &&& page.retail_price.len() <= n
    &&& page.value.len() <= n
    &&& page.listed_price.len() <= n
    &&& page.pieces.len() <= n
}

/// An aligned dataset takes in exactly the pages that make one row or
/// none, whichever of their optional fields are there.
pub proof fn lemma_absorbing_succeeds(data: Columns, page: Columns)
    requires
        data.aligned(),
    ensures
        data.absorbing(page) is Ok <==> is_row_or_nothing(page),
{
    lemma_reconciled_lengths(data);
    lemma_reconciled_lengths(data.extended(page));
}

/// What a run of pages leaves of a dataset: each page is taken in after the
/// other, and the first complaint ends the run.
pub open spec fn absorbing_all(start: Columns, pages: Seq<Columns>) -> Result<Columns, Column>
    decreases pages.len(),
{
    if pages.len() == 0 {
        Ok(start)
    } else {
        match absorbing_all(start, pages.drop_last()) {
            Ok(so_far) => match so_far.absorbing(pages.last()) {
                Ok(_) => Ok(so_far.after_absorbing(pages.last())),
                Err(column) => Err(column),
            },
            Err(column) => Err(column),
        }
    }
}

/// The rows that a run of pages contributes: one for each page that yields
/// a set number, in the order of the pages.
pub open spec fn contributed_rows(pages: Seq<Columns>) -> Seq<Row>
    decreases pages.len(),
{
    if pages.len() == 0 {
        Seq::empty()
    } else if pages.last().set_number.len() > 0 {
        contributed_rows(pages.drop_last()).push(pages.last().as_row())
    } else {
        contributed_rows(pages.drop_last())
    }
}

/// Whatever fields the pages of a run have or lack, a run that ends without
/// complaint leaves every column with the same length: one entry for each
/// page that yielded a set number. Row `i` of every column then comes from
/// the same page: the rows are those that were there, followed by the row
/// of each contributing page in turn.
pub proof fn lemma_pages_stay_aligned(start: Columns, pages: Seq<Columns>)
    requires
        start.aligned(),
    ensures
        absorbing_all(start, pages) matches Ok(data) ==> {
            &&& data.aligned()
            &&& data.rows() == start.rows() + contributed_rows(pages)
            &&& data.len() == start.len() + contributed_rows(pages).len()
        },
    decreases pages.len(),
{
    if pages.len() == 0 {
        assert(start.rows() + contributed_rows(pages) =~= start.rows());
    } else {
        lemma_pages_stay_aligned(start, pages.drop_last());
        if let Ok(so_far) = absorbing_all(start, pages.drop_last()) {
            let page = pages.last();
            if so_far.absorbing(page) is Ok {
                lemma_reconciled_lengths(so_far);
                lemma_absorbed_rows(so_far, page);
                let data = so_far.after_absorbing(page);
                assert(data.rows() =~= start.rows() + contributed_rows(pages));
            }
        }
    }
}

/// A run of pages that each make one row or none ends without complaint,
/// whatever subsets of the optional fields the pages have.
pub proof fn lemma_pages_are_absorbed(start: Columns, pages: Seq<Columns>)
    requires
        start.aligned(),
        forall|i: int| 0 <= i < pages.len() ==> is_row_or_nothing(#[trigger] pages[i]),
    ensures
        absorbing_all(start, pages) is Ok,
    decreases pages.len(),
{
    if pages.len() > 0 {
        let before = pages.drop_last();
        assert forall|i: int| 0 <= i < before.len() implies is_row_or_nothing(#[trigger] before[i]) by {
            assert(before[i] == pages[i]);
        }
        lemma_pages_are_absorbed(start, before);
        lemma_pages_stay_aligned(start, before);
        lemma_absorbing_succeeds(absorbing_all(start, before)->Ok_0, pages.last());
    }
}

/// The texts of a column after one more string.
pub proof fn lemma_push_text(column: Seq<String>, s: String)
    ensures
        texts(column.push(s)) == texts(column).push(s@),
{
    assert(texts(column.push(s)) =~= texts(column).push(s@));
}

/// The texts of a column after one more optional string.
pub proof fn lemma_push_optional_text(column: Seq<Option<String>>, s: Option<String>)
    ensures
        optional_texts(column.push(s)) == optional_texts(column).push(text_of(s)),
{
    assert(optional_texts(column.push(s)) =~= optional_texts(column).push(text_of(s)));
}

} // verus!
