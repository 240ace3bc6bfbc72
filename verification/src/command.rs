//! The command and the course of a run: which sets are asked for, what is
//! done with each response, and what the run hands over at its end.

use vstd::prelude::*;
use vstd::string::StringExecFns;
use crate::decimal::Decimal;
use crate::fields::{fields_of, page_fields, PageError};
use crate::metrics::{consolidate, kept_metrics, metrics, ranked, ranking, MetricRow};
use crate::page::{page_of, parse_page};
use crate::set_data::{texts, Column, Columns, SetData};
use crate::set_list::{
    entries, filter, identifier, is_listed, is_merge, merge, passing, reference_rows,
    set_identifier, to_reference_rows, years_of, Entry, ReferenceListEntry,
};

verus! {

/// The address of a set's detail page, up to the set's identifier.
pub const SET_URL: &'static str = "https://www.brickeconomy.com/set/";

/// The status of a response that carries a page.
pub const STATUS_OK: u16 = 200;

/// The first set number scraped where no range is given.
pub const DEFAULT_LOW: u32 = 10000;

/// The last set number scraped where no range is given.
pub const DEFAULT_HIGH: u32 = 10050;

/// What is asked of a run.
#[derive(Clone, Debug, PartialEq, Eq)]
pub struct Leget {
    /// The years of the sets to scan for.
    pub years: Option<Vec<u16>>,
    /// Scrape every set number of the range, known to the set list or not.
    pub skip_set_list: bool,
    /// Scrape by set number: the first and the last number of the range.
    pub set_range: Option<Vec<u32>>,
    /// The piece count that a set must exceed.
    pub min_pieces: Decimal,
    /// The piece count that a set must stay below.
    pub max_pieces: Decimal,
    /// Update the set list from this range of set numbers.
    pub update_set_list: Option<Vec<u32>>,
}

/// Why a run ends without a result.
#[derive(Clone, Copy, Debug, PartialEq, Eq, Structural)]
pub enum RunError {
    /// Both a range to scrape and a range to update the set list from.
    ConflictingRanges,
    /// A range that is not two numbers, the first at most the second.
    BadRange,
    /// The set list lets no set of the range through: it is empty or was
    /// never updated for this range.
    EmptySetList,
    /// A response with a status other than success.
    HttpStatus(u16),
    /// A page that cannot be read.
    Page(PageError),
    /// A column that is out of line with the others.
    Misaligned(Column),
}

/// A run under way.
#[derive(Clone, Debug, PartialEq, Eq)]
pub struct Run {
    /// The next set number to consider.
    pub next: u32,
    /// The last set number to consider.
    pub high: u32,
    /// Whether set numbers are left to consider.
    pub open: bool,
    /// The identifiers that the set list lets through; `None` where the set
    /// list is not consulted.
    pub allowed: Option<Vec<String>>,
    /// Whether the run updates the set list.
    pub update: bool,
    pub min_pieces: Decimal,
    pub max_pieces: Decimal,
    /// What was scraped so far.
    pub data: SetData,
}

/// The mathematical value of a [`Run`].
pub struct RunView {
    pub next: u32,
    pub high: u32,
    pub open: bool,
    pub allowed: Option<Seq<Seq<char>>>,
    pub update: bool,
    pub min_pieces: Decimal,
    pub max_pieces: Decimal,
    pub data: Columns,
}

/// The texts of an optional list of strings.
pub open spec fn allowed_texts(allowed: Option<Vec<String>>) -> Option<Seq<Seq<char>>> {
    match allowed {
        Some(list) => Some(texts(list@)),
        None => None,
    }
}

impl View for Run {
    type V = RunView;

    open spec fn view(&self) -> RunView {
        RunView {
            next: self.next,
            high: self.high,
            open: self.open,
            allowed: allowed_texts(self.allowed),
            update: self.update,
            min_pieces: self.min_pieces,
            max_pieces: self.max_pieces,
            data: self.data@,
        }
    }
}

/// A page to fetch.
#[derive(Clone, Debug, PartialEq, Eq)]
pub struct Request {
    pub set_number: String,
    pub url: String,
}

/// What a run hands over at its end.
#[derive(Clone, Debug, PartialEq, Eq)]
pub enum Outcome {
    /// The updated set list, to be stored.
    SetList(Vec<ReferenceListEntry>),
    /// The ranked table, to be written out.
    Table(Vec<MetricRow>),
}

/// Whether a range is two numbers, the first at most the second.
pub open spec fn is_range(range: Seq<u32>) -> bool {
    range.len() == 2 && range[0] <= range[1]
}

/// The numbers of an optional range.
pub open spec fn range_of(range: Option<Vec<u32>>) -> Option<Seq<u32>> {
    match range {
        Some(numbers) => Some(numbers@),
        None => None,
    }
}

/// The address of the detail page of the set with identifier `id`.
pub open spec fn url_of(id: Seq<char>) -> Seq<char> {
    (SET_URL@ + id).push('/')
}

/// A run that has yet to scrape the set numbers from `low` to `high`.
pub open spec fn fresh_run(
    low: u32,
    high: u32,
    open: bool,
    allowed: Option<Seq<Seq<char>>>,
    update: bool,
    min_pieces: Decimal,
    max_pieces: Decimal,
) -> RunView {
    RunView { next: low, high, open, allowed, update, min_pieces, max_pieces, data: Columns::empty() }
}

impl Leget {
    /// The run that the command starts, given the entries of the stored set
    /// list, or the reason why it starts none.
    ///
    /// A command that updates the set list scrapes every set number of its
    /// update range and does not consult the list. Any other command scrapes
    /// its range, or the default range where it names none; unless it skips
    /// the set list, only the identifiers that the list lets through are
    /// scraped, and there must be at least one. A command that skips the set
    /// list and names no range scrapes nothing.
    pub open spec fn plan(self, set_list: Seq<Entry>) -> Result<RunView, RunError> {
        let (min, max) = (self.min_pieces, self.max_pieces);
        match (range_of(self.set_range), range_of(self.update_set_list)) {
            (Some(_), Some(_)) => Err(RunError::ConflictingRanges),
            (None, Some(range)) => if is_range(range) {
                Ok(fresh_run(range[0], range[1], true, None, true, min, max))
            } else {
                Err(RunError::BadRange)
            },
            (Some(range), None) => if !is_range(range) {
                Err(RunError::BadRange)
            } else if self.skip_set_list {
                Ok(fresh_run(range[0], range[1], true, None, false, min, max))
            } else {
                listed_run(
                    range[0],
                    range[1],
                    passing(set_list, range[0], range[1], min, max, years_of(self.years)),
                    min,
                    max,
                )
            },
            (None, None) => if self.skip_set_list {
                Ok(fresh_run(0, 0, false, None, false, min, max))
            } else {
                listed_run(
                    DEFAULT_LOW,
                    DEFAULT_HIGH,
                    passing(set_list, DEFAULT_LOW, DEFAULT_HIGH, min, max, years_of(self.years)),
                    min,
                    max,
                )
            },
        }
    }

    /// Asks for the sets numbered in `set_numbers`, in place of any range
    /// asked for before.
    pub fn change_set_range(&mut self, set_numbers: Vec<u32>)
        ensures
            final(self).set_range == Some(set_numbers),
            final(self).years == old(self).years,
            final(self).skip_set_list == old(self).skip_set_list,
            final(self).min_pieces == old(self).min_pieces,
            final(self).max_pieces == old(self).max_pieces,
            final(self).update_set_list == old(self).update_set_list,
    {
        self.set_range = Some(set_numbers);
    }

    /// Starts the run: checks the command, consults the set list, and hands
    /// back the run that is to be driven with [`Run::next_request`],
    /// [`Run::on_response`] and [`Run::finish`]. Nothing has been fetched
    /// when a command is refused.
    pub fn exec(self, set_list: &Vec<ReferenceListEntry>) -> (out: Result<Run, RunError>)
        ensures
            run_of(out) == self.plan(entries(set_list@)),
    {
        let (min, max) = (self.min_pieces, self.max_pieces);
        if let Some(range) = &self.update_set_list {
            if self.set_range.is_some() {
                return Err(RunError::ConflictingRanges);
            }
            if range.len() != 2 || range[0] > range[1] {
                return Err(RunError::BadRange);
            }
            return Ok(start(range[0], range[1], true, None, true, min, max));
        }
        let (low, high) = match &self.set_range {
            Some(range) => {
                if range.len() != 2 || range[0] > range[1] {
                    return Err(RunError::BadRange);
                }
                (range[0], range[1])
            },
            None => {
                if self.skip_set_list {
                    return Ok(start(0, 0, false, None, false, min, max));
                }
                (DEFAULT_LOW, DEFAULT_HIGH)
            },
        };
        if self.skip_set_list {
            return Ok(start(low, high, true, None, false, min, max));
        }
        let allowed = filter(set_list, low, high, min, max, &self.years);
        if allowed.len() == 0 {
            return Err(RunError::EmptySetList);
        }
        Ok(start(low, high, true, Some(allowed), false, min, max))
    }
}

/// The run that consults the set list, where the list lets `allowed`
/// through: none where that is nothing.
pub open spec fn listed_run(
    low: u32,
    high: u32,
    allowed: Seq<Seq<char>>,
    min_pieces: Decimal,
    max_pieces: Decimal,
) -> Result<RunView, RunError> {
    if allowed.len() == 0 {
        Err(RunError::EmptySetList)
    } else {
        Ok(fresh_run(low, high, true, Some(allowed), false, min_pieces, max_pieces))
    }
}

/// The run that a result holds.
pub open spec fn run_of(out: Result<Run, RunError>) -> Result<RunView, RunError> {
    match out {
        Ok(run) => Ok(run@),
        Err(error) => Err(error),
    }
}

/// A run that has scraped nothing yet.
fn start(
    low: u32,
    high: u32,
    open: bool,
    allowed: Option<Vec<String>>,
    update: bool,
    min_pieces: Decimal,
    max_pieces: Decimal,
) -> (run: Run)
    ensures
        run@ == fresh_run(low, high, open, allowed_texts(allowed), update, min_pieces, max_pieces),
{
    Run { next: low, high, open, allowed, update, min_pieces, max_pieces, data: SetData::new() }
}

/// Whether a run whose set list lets `allowed` through scrapes set `number`.
pub open spec fn is_wanted(allowed: Option<Seq<Seq<char>>>, number: u32) -> bool {
    match allowed {
        Some(list) => list.contains(identifier(number as nat)),
        None => true,
    }
}

/// Whether `number` is the first set number from `from` to `high` that the
/// run scrapes.
pub open spec fn is_next_wanted(allowed: Option<Seq<Seq<char>>>, from: u32, high: u32, number: u32) -> bool {
    &&& from <= number <= high
    &&& is_wanted(allowed, number)
    &&& forall|earlier: u32| from <= earlier < number ==> !is_wanted(allowed, earlier)
}

/// Whether the run scrapes none of the set numbers from `from` to `high`.
pub open spec fn none_wanted(allowed: Option<Seq<Seq<char>>>, from: u32, high: u32) -> bool {
    forall|number: u32| from <= number <= high ==> !is_wanted(allowed, number)
}

/// The run after it has moved past set `number`.
pub open spec fn moved_past(run: RunView, number: u32) -> RunView {
    if number < run.high {
        RunView { next: (number + 1) as u32, ..run }
    } else {
        RunView { next: number, open: false, ..run }
    }
}

/// The run after it has passed over every set number that was left. Its
/// next number is the last of the range where numbers were left.
pub open spec fn run_out(run: RunView) -> RunView {
    if run.open && run.next <= run.high {
        RunView { next: run.high, open: false, ..run }
    } else {
        RunView { open: false, ..run }
    }
}

/// Whether a run hands out the request for `set_number` at `url` and is
/// `after` once it has: the request is for the first set number left that
/// the run scrapes, and the run has moved past that number.
pub open spec fn hands_out(before: RunView, after: RunView, set_number: Seq<char>, url: Seq<char>) -> bool {
    exists|number: u32|
        {
            &&& before.open
            &&& #[trigger] is_next_wanted(before.allowed, before.next, before.high, number)
            &&& set_number == identifier(number as nat)
            &&& url == url_of(identifier(number as nat))
            &&& after == moved_past(before, number)
        }
}

/// Whether a run has no request left to hand out and is `after` once it
/// has said so.
pub open spec fn runs_out(before: RunView, after: RunView) -> bool {
    &&& before.open ==> none_wanted(before.allowed, before.next, before.high)
    &&& after == run_out(before)
}

/// What the body of a response appends to each column of the dataset.
pub open spec fn read_fields(body: Seq<char>) -> Result<Columns, PageError> {
    match page_of(body) {
        Ok(page) => fields_of(page),
        Err(error) => Err(error),
    }
}

/// What a response does to the data of a run, and what is reported of it.
pub open spec fn received(data: Columns, status: u16, body: Seq<char>) -> (Columns, Result<bool, RunError>) {
    if status != STATUS_OK {
        (data, Err(RunError::HttpStatus(status)))
    } else {
        match read_fields(body) {
            Err(error) => (data, Err(RunError::Page(error))),
            Ok(page) => (
                data.after_absorbing(page),
                match data.absorbing(page) {
                    Ok(contributed) => Ok(contributed),
                    Err(column) => Err(RunError::Misaligned(column)),
                },
            ),
        }
    }
}

impl Run {
    /// The next page to fetch, or `None` when the run has no set number
    /// left. The set numbers of the range are taken in ascending order, and
    /// those that the set list does not let through are passed over.
    pub fn next_request(&mut self) -> (out: Option<Request>)
        ensures
            match out {
                Some(request) => hands_out(
                    old(self)@,
                    final(self)@,
                    request.set_number@,
                    request.url@,
                ),
                None => runs_out(old(self)@, final(self)@),
            },
    {
        let ghost before = self@;
        while self.open && self.next <= self.high
            invariant
                before == old(self)@,
                before.next <= self.next,
                before.next <= before.high ==> self.next <= before.high,
                !before.open || before.next > before.high ==> self.next == before.next,
                self.high == before.high,
                self.open ==> before.open,
                self@ == (RunView { next: self.next, open: self.open, ..before }),
                forall|earlier: u32|
                    before.next <= earlier < self.next ==> !is_wanted(before.allowed, earlier),
                !self.open && before.open ==> self.next == before.high && before.next <= before.high
                    && !is_wanted(before.allowed, before.high),
            decreases self.high - self.next + (if self.open { 1int } else { 0int }),
        {
            let number = self.next;
            let id = set_identifier(number);
            let wanted = match &self.allowed {
                Some(list) => is_listed(list, id.as_str()),
                None => true,
            };
            if number < self.high {
                self.next = number + 1;
            } else {
                self.open = false;
            }
            if wanted {
                let mut url = SET_URL.to_owned();
                url.append(id.as_str());
                url.push('/');
                proof {
                    assert(is_next_wanted(before.allowed, before.next, before.high, number));
                    assert(self@ == moved_past(before, number));
                    assert(hands_out(before, self@, id@, url@));
                }
                return Some(Request { set_number: id, url });
            }
        }
        self.open = false;
        None
    }

    /// Takes in the response to the request handed out last. A status
    /// other than success ends the run, and so does a page that cannot be
    /// read or that leaves the columns out of line. `Ok` tells whether the
    /// page contributed a row.
    pub fn on_response(&mut self, status: u16, body: &str) -> (out: Result<bool, RunError>)
        ensures
            final(self)@ == (RunView { data: received(old(self)@.data, status, body@).0, ..old(self)@ }),
            out == received(old(self)@.data, status, body@).1,
            out is Ok ==> final(self)@.data.aligned(),
    {
        if status != STATUS_OK {
            return Err(RunError::HttpStatus(status));
        }
        let page = match parse_page(body) {
            Ok(page) => page,
            Err(error) => {
                return Err(RunError::Page(error));
            },
        };
        match page_fields(&page) {
            Err(error) => Err(RunError::Page(error)),
            Ok(fields) => match self.data.absorb(fields) {
                Ok(contributed) => Ok(contributed),
                Err(column) => Err(RunError::Misaligned(column)),
            },
        }
    }

    /// Ends the run. A run that updates the set list hands over the merge
    /// of its rows into `set_list`; any other run hands over the ranked
    /// table. Columns that are out of line end the run without a result.
    pub fn finish(self, set_list: &Vec<ReferenceListEntry>) -> (out: Result<Outcome, RunError>)
        ensures
            match out {
                Ok(Outcome::SetList(merged)) => {
                    &&& self@.data.aligned()
                    &&& self@.update
                    &&& is_merge(
                        entries(set_list@),
                        reference_rows(self@.data, self@.data.len() as int),
                        entries(merged@),
                    )
                },
                Ok(Outcome::Table(table)) => {
                    &&& self@.data.aligned()
                    &&& !self@.update
                    &&& metrics(table@) == ranking(
                        kept_metrics(self@.data.rows(), self@.min_pieces, self@.max_pieces),
                    )
                    &&& ranked(metrics(table@))
                },
                Err(error) => self@.data.misaligned() matches Some(column) && error
                    == RunError::Misaligned(column),
            },
    {
        match self.data.check_aligned() {
            Err(column) => {
                return Err(RunError::Misaligned(column));
            },
            Ok(()) => {},
        }
        if self.update {
            let rows = to_reference_rows(&self.data);
            Ok(Outcome::SetList(merge(set_list, &rows)))
        } else {
            Ok(Outcome::Table(consolidate(&self.data, self.min_pieces, self.max_pieces)))
        }
    }
}

} // verus!
