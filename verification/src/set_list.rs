//! The reference list of sets that are known to exist: which of a range of
//! set numbers it lets through, and how newly scraped rows are merged into
//! it.

use vstd::prelude::*;
use crate::decimal::Decimal;
use crate::set_data::{lemma_push_text, texts, Columns, SetData};
use crate::text::{
    chars_of, decimal_digits, lemma_decimal_digits, lemma_precedes_asymmetric,
    lemma_precedes_irreflexive, lemma_precedes_transitive, number_of, number_text, place,
    precedes, same_text, text_of, Place,
};

verus! {

/// One known set: its number, and its year and piece count where known.
#[derive(Clone, Debug, PartialEq, Eq)]
pub struct ReferenceListEntry {
    pub set_number: String,
    pub year: Option<String>,
    pub pieces: Option<Decimal>,
}

/// The mathematical value of a [`ReferenceListEntry`].
pub struct Entry {
    pub set_number: Seq<char>,
    pub year: Option<Seq<char>>,
    pub pieces: Option<Decimal>,
}

impl View for ReferenceListEntry {
    type V = Entry;

    open spec fn view(&self) -> Entry {
        Entry { set_number: self.set_number@, year: text_of(self.year), pieces: self.pieces }
    }
}

/// The values of a list of entries.
pub open spec fn entries(list: Seq<ReferenceListEntry>) -> Seq<Entry> {
    list.map_values(|e: ReferenceListEntry| e@)
}

/// The identifier of the first variant of set `number`: `75192` gives
/// `"75192-1"`.
pub open spec fn identifier(number: nat) -> Seq<char> {
    decimal_digits(number) + seq!['-', '1']
}

/// Writes the identifier of the first variant of set `number`.
pub fn set_identifier(number: u32) -> (out: String)
    ensures
        out@ == identifier(number as nat),
{
    let mut out = number_text(number);
    out.push('-');
    out.push('1');
    assert(out@ =~= identifier(number as nat));
    out
}

/// Reads the set number out of the identifier of a first variant. `None`
/// for text that is the identifier of no set.
pub fn identifier_number(text: &str) -> (out: Option<u32>)
    ensures
        match out {
            Some(n) => text@ == identifier(n as nat),
            None => forall|n: u32| text@ != identifier(n as nat),
        },
{
    let cs = chars_of(text);
    let len = cs.len();
    if len < 2 || cs[len - 2] != '-' || cs[len - 1] != '1' {
        proof {
            assert forall|n: u32| text@ != identifier(n as nat) by {
                let id = identifier(n as nat);
                assert(id[id.len() - 2] == '-');
                assert(id[id.len() - 1] == '1');
            }
        }
        return None;
    }
    let found = number_of(&cs, len - 2);
    proof {
        let digits = cs@.take(len - 2);
        assert(cs@ =~= digits + seq!['-', '1']);
        assert forall|n: u32| text@ == identifier(n as nat) implies digits == decimal_digits(
            n as nat,
        ) by {
            assert(identifier(n as nat).take(len - 2) =~= decimal_digits(n as nat));
        }
    }
    found
}

/// Whether the entry is the first variant of a set numbered from `low` to
/// `high`.
pub open spec fn in_range(entry: Entry, low: u32, high: u32) -> bool {
    exists|n: u32| low <= n <= high && entry.set_number == identifier(n as nat)
}

/// Whether the entry's year is one of `years`; every entry passes where no
/// years are asked for.
pub open spec fn in_years(entry: Entry, years: Option<Seq<u16>>) -> bool {
    match years {
        Some(wanted) => listed_year(entry.year, wanted),
        None => true,
    }
}

/// Whether `year` is one of `wanted`, written in base ten.
pub open spec fn listed_year(year: Option<Seq<char>>, wanted: Seq<u16>) -> bool {
    exists|i: int| 0 <= i < wanted.len() && year == Some(decimal_digits(#[trigger] wanted[i] as nat))
}

/// Whether a piece count lies strictly between the two bounds. An unknown
/// piece count lies between no bounds.
pub open spec fn within_pieces(pieces: Option<Decimal>, min: Decimal, max: Decimal) -> bool {
    match pieces {
        Some(count) => min.hundredths < count.hundredths < max.hundredths,
        None => false,
    }
}

/// Whether the reference list lets the entry through.
pub open spec fn passes(
    entry: Entry,
    low: u32,
    high: u32,
    min: Decimal,
    max: Decimal,
    years: Option<Seq<u16>>,
) -> bool {
    in_range(entry, low, high) && within_pieces(entry.pieces, min, max) && in_years(entry, years)
}

/// The set numbers of the entries that pass, in the order of the list.
pub open spec fn passing(
    list: Seq<Entry>,
    low: u32,
    high: u32,
    min: Decimal,
    max: Decimal,
    years: Option<Seq<u16>>,
) -> Seq<Seq<char>>
    decreases list.len(),
{
    if list.len() == 0 {
        Seq::empty()
    } else if passes(list.last(), low, high, min, max, years) {
        passing(list.drop_last(), low, high, min, max, years).push(list.last().set_number)
    } else {
        passing(list.drop_last(), low, high, min, max, years)
    }
}

/// The reference list lets an identifier through exactly if it is the set
/// number of an entry that passes.
pub proof fn lemma_passing_contains(
    list: Seq<Entry>,
    low: u32,
    high: u32,
    min: Decimal,
    max: Decimal,
    years: Option<Seq<u16>>,
    id: Seq<char>,
)
    ensures
        passing(list, low, high, min, max, years).contains(id) <==> exists|i: int|
            0 <= i < list.len() && (#[trigger] list[i]).set_number == id && passes(
                list[i],
                low,
                high,
                min,
                max,
                years,
            ),
    decreases list.len(),
{
    let out = passing(list, low, high, min, max, years);
    if list.len() > 0 {
        let front = list.drop_last();
        let rest = passing(front, low, high, min, max, years);
        lemma_passing_contains(front, low, high, min, max, years, id);
        if out.contains(id) {
            let k = choose|k: int| 0 <= k < out.len() && out[k] == id;
            if k < rest.len() {
                assert(rest[k] == id);
                let i = choose|i: int|
                    0 <= i < front.len() && (#[trigger] front[i]).set_number == id && passes(
                        front[i],
                        low,
                        high,
                        min,
                        max,
                        years,
                    );
                assert(list[i] == front[i]);
            } else {
                assert(list[list.len() - 1].set_number == id);
            }
        }
        if exists|i: int|
            0 <= i < list.len() && (#[trigger] list[i]).set_number == id && passes(
                list[i],
                low,
                high,
                min,
                max,
                years,
            ) {
            let i = choose|i: int|
                0 <= i < list.len() && (#[trigger] list[i]).set_number == id && passes(
                    list[i],
                    low,
                    high,
                    min,
                    max,
                    years,
                );
            if i < front.len() {
                assert(front[i] == list[i]);
                assert(rest.contains(id));
                let k = choose|k: int| 0 <= k < rest.len() && rest[k] == id;
                assert(out[k] == id);
            } else {
                assert(out[out.len() - 1] == id);
            }
        }
    }
}

/// The years of an optional list, as a sequence.
pub open spec fn years_of(years: Option<Vec<u16>>) -> Option<Seq<u16>> {
    match years {
        Some(wanted) => Some(wanted@),
        None => None,
    }
}

/// Exec form of [`within_pieces`].
pub fn pieces_within(pieces: Option<Decimal>, min: Decimal, max: Decimal) -> (yes: bool)
    ensures
        yes == within_pieces(pieces, min, max),
{
    match pieces {
        Some(count) => min.hundredths < count.hundredths && count.hundredths < max.hundredths,
        None => false,
    }
}

/// Exec form of [`in_range`].
pub fn entry_in_range(entry: &ReferenceListEntry, low: u32, high: u32) -> (yes: bool)
    ensures
        yes == in_range(entry@, low, high),
{
    match identifier_number(entry.set_number.as_str()) {
        Some(n) => {
            proof {
                if in_range(entry@, low, high) {
                    let m = choose|m: u32| low <= m <= high && entry@.set_number == identifier(m as nat);
                    lemma_identifier_injective(n as nat, m as nat);
                }
            }
            low <= n && n <= high
        },
        None => false,
    }
}

/// Different numbers have different identifiers.
pub proof fn lemma_identifier_injective(a: nat, b: nat)
    requires
        identifier(a) == identifier(b),
    ensures
        a == b,
{
    let x = decimal_digits(a);
    let y = decimal_digits(b);
    assert(identifier(a).len() == x.len() + 2);
    assert(identifier(b).len() == y.len() + 2);
    assert(identifier(a).take(x.len() as int) =~= x);
    assert(identifier(b).take(y.len() as int) =~= y);
    lemma_decimal_digits(a);
    lemma_decimal_digits(b);
}

/// Exec form of [`in_years`].
pub fn entry_in_years(entry: &ReferenceListEntry, years: &Option<Vec<u16>>) -> (yes: bool)
    ensures
        yes == in_years(entry@, years_of(*years)),
{
    let wanted = match years {
        Some(wanted) => wanted,
        None => {
            return true;
        },
    };
    let year = match &entry.year {
        Some(year) => year,
        None => {
            return false;
        },
    };
    let mut i: usize = 0;
    while i < wanted.len()
        invariant
            i <= wanted.len(),
            entry@.year == Some(year@),
            years_of(*years) == Some(wanted@),
            forall|j: int| 0 <= j < i ==> year@ != decimal_digits(wanted@[j] as nat),
        decreases wanted.len() - i,
    {
        let text = number_text(wanted[i] as u32);
        if same_text(year.as_str(), text.as_str()) {
            proof {
                let k = i as int;
                assert(0 <= k < wanted@.len() && entry@.year == Some(
                    decimal_digits(wanted@[k] as nat),
                ));
                assert(listed_year(entry@.year, wanted@));
            }
            return true;
        }
        i += 1;
    }
    false
}

/// The identifiers that the reference list lets through: those of the
/// entries that are first variants of sets numbered from `low` to `high`,
/// whose piece count is known and lies strictly between `min_pieces` and
/// `max_pieces`, and whose year, where years are asked for, is one of them.
pub fn filter(
    cache: &Vec<ReferenceListEntry>,
    low: u32,
    high: u32,
    min_pieces: Decimal,
    max_pieces: Decimal,
    years: &Option<Vec<u16>>,
) -> (out: Vec<String>)
    ensures
        texts(out@) == passing(entries(cache@), low, high, min_pieces, max_pieces, years_of(*years)),
{
    let ghost all = entries(cache@);
    let mut out: Vec<String> = Vec::new();
    let mut i: usize = 0;
    assert(texts(out@) =~= Seq::empty());
    while i < cache.len()
        invariant
            i <= cache.len(),
            all == entries(cache@),
            texts(out@) == passing(
                all.take(i as int),
                low,
                high,
                min_pieces,
                max_pieces,
                years_of(*years),
            ),
        decreases cache.len() - i,
    {
        let entry = &cache[i];
        proof {
            assert(all.take(i + 1).drop_last() == all.take(i as int));
            assert(all.take(i + 1).last() == entry@);
        }
        if entry_in_range(entry, low, high) && pieces_within(entry.pieces, min_pieces, max_pieces)
            && entry_in_years(entry, years) {
            proof {
                lemma_push_text(out@, entry.set_number);
            }
            out.push(entry.set_number.clone());
        }
        i += 1;
    }
    assert(all.take(cache.len() as int) == all);
    out
}

/// Whether `set_number` is one of `list`.
pub fn is_listed(list: &Vec<String>, set_number: &str) -> (yes: bool)
    ensures
        yes == texts(list@).contains(set_number@),
{
    let mut i: usize = 0;
    while i < list.len()
        invariant
            i <= list.len(),
            forall|j: int| 0 <= j < i ==> texts(list@)[j] != set_number@,
        decreases list.len() - i,
    {
        if same_text(list[i].as_str(), set_number) {
            assert(texts(list@)[i as int] == set_number@);
            return true;
        }
        i += 1;
    }
    false
}

/// The rows of a dataset that go into the reference list: set number, year
/// and piece count of every row whose piece count is known and above one.
pub open spec fn reference_rows(data: Columns, n: int) -> Seq<Entry>
    decreases n,
{
    if n <= 0 {
        Seq::empty()
    } else if data.pieces[n - 1] matches Some(count) && count.hundredths > 100 {
        reference_rows(data, n - 1).push(
            Entry { set_number: data.set_number[n - 1], year: data.year[n - 1], pieces: data.pieces[n - 1] },
        )
    } else {
        reference_rows(data, n - 1)
    }
}

/// Projects a dataset onto the columns of the reference list and keeps the
/// rows whose piece count is known and above one.
pub fn to_reference_rows(data: &SetData) -> (out: Vec<ReferenceListEntry>)
    requires
        data@.aligned(),
    ensures
        entries(out@) == reference_rows(data@, data@.len() as int),
{
    let mut out: Vec<ReferenceListEntry> = Vec::new();
    let n = data.set_number.len();
    let mut i: usize = 0;
    assert(entries(out@) =~= Seq::empty());
    while i < n
        invariant
            i <= n,
            n == data@.len(),
            data@.aligned(),
            entries(out@) == reference_rows(data@, i as int),
        decreases n - i,
    {
        let keep = match data.pieces[i] {
            Some(count) => count.hundredths > 100,
            None => false,
        };
        if keep {
            let entry = ReferenceListEntry {
                set_number: data.set_number[i].clone(),
                year: data.year[i].clone(),
                pieces: data.pieces[i],
            };
            proof {
                assert(entries(out@.push(entry)) =~= entries(out@).push(entry@));
            }
            out.push(entry);
        }
        i += 1;
    }
    out
}

/// Whether some entry of the list has the set number `key`.
pub open spec fn has_key(list: Seq<Entry>, key: Seq<char>) -> bool {
    exists|i: int| 0 <= i < list.len() && #[trigger] list[i].set_number == key
}

/// Whether `entry` stands in the list with no entry of the same set number
/// before it.
pub open spec fn first_with_key(list: Seq<Entry>, entry: Entry) -> bool {
    exists|i: int| 0 <= i < list.len() && #[trigger] list[i] == entry && no_key_before(list, i)
}

/// No entry before position `i` has the set number of the entry at `i`.
pub open spec fn no_key_before(list: Seq<Entry>, i: int) -> bool {
    forall|j: int| 0 <= j < i ==> #[trigger] list[j].set_number != list[i].set_number
}

/// The set numbers of the list rise strictly in dictionary order.
pub open spec fn ascending(list: Seq<Entry>) -> bool {
    forall|i: int, j: int|
        0 <= i < j < list.len() ==> precedes(#[trigger] list[i].set_number, #[trigger] list[j].set_number)
}

/// Whether `out` is the reference list that results from merging `rows`
/// into `cache`: of the entries of `cache` followed by `rows`, it holds for
/// each set number the one seen first, and nothing else, in ascending order
/// of set number.
pub open spec fn is_merge(cache: Seq<Entry>, rows: Seq<Entry>, out: Seq<Entry>) -> bool {
    &&& ascending(out)
    &&& forall|entry: Entry| #[trigger] out.contains(entry) <==> first_with_key(cache + rows, entry)
}

/// A copy of an entry.
pub fn copy_entry(entry: &ReferenceListEntry) -> (out: ReferenceListEntry)
    ensures
        out@ == entry@,
{
    ReferenceListEntry {
        set_number: entry.set_number.clone(),
        year: entry.year.clone(),
        pieces: entry.pieces,
    }
}

/// Puts `entry` into an ascending list at its place, unless the list
/// already has an entry of that set number. Tells whether it was put in.
pub fn insert_entry(list: &mut Vec<ReferenceListEntry>, entry: &ReferenceListEntry) -> (added: bool)
    requires
        ascending(entries(old(list)@)),
    ensures
        ascending(entries(final(list)@)),
        added == !has_key(entries(old(list)@), entry@.set_number),
        !added ==> entries(final(list)@) == entries(old(list)@),
        added ==> forall|other: Entry|
            #[trigger] entries(final(list)@).contains(other) <==> (entries(old(list)@).contains(other)
                || other == entry@),
{
    let ghost before = entries(list@);
    let key = entry.set_number.as_str();
    let mut at: usize = list.len();
    let mut searching = true;
    while searching && at > 0
        invariant
            at <= list.len(),
            before == entries(list@),
            ascending(before),
            key@ == entry@.set_number,
            forall|j: int| at <= j < before.len() ==> precedes(key@, #[trigger] before[j].set_number),
            !searching ==> at > 0 && precedes(before[at - 1].set_number, key@),
        decreases (if searching { at + 1 } else { 0 }),
    {
        match place(key, list[at - 1].set_number.as_str()) {
            Place::Before => {
                at -= 1;
            },
            Place::Same => {
                assert(before[at - 1].set_number == key@);
                return false;
            },
            Place::After => {
                searching = false;
            },
        }
    }
    proof {
        assert forall|j: int| 0 <= j < at implies precedes(#[trigger] before[j].set_number, key@) by {
            if j < at - 1 {
                lemma_precedes_transitive(before[j].set_number, before[at - 1].set_number, key@);
            }
        }
        assert(!has_key(before, key@)) by {
            if has_key(before, key@) {
                let j = choose|j: int| 0 <= j < before.len() && #[trigger] before[j].set_number == key@;
                lemma_precedes_irreflexive(key@);
            }
        }
    }
    let copy = copy_entry(entry);
    list.insert(at, copy);
    proof {
        let after = entries(list@);
        assert(after =~= before.insert(at as int, entry@));
        assert forall|i: int, j: int| 0 <= i < j < after.len() implies precedes(
            #[trigger] after[i].set_number,
            #[trigger] after[j].set_number,
        ) by {
            let a = if i < at { i } else { i - 1 };
            let b = if j < at { j } else { j - 1 };
            if i != at && j != at {
                assert(after[i] == before[a]);
                assert(after[j] == before[b]);
            } else if i == at {
                assert(after[j] == before[b]);
            } else {
                assert(after[i] == before[a]);
            }
        }
        assert forall|other: Entry| #[trigger] after.contains(other) <==> (before.contains(other)
            || other == entry@) by {
            if after.contains(other) {
                let i = choose|i: int| 0 <= i < after.len() && after[i] == other;
                if i < at {
                    assert(before[i] == other);
                } else if i > at {
                    assert(before[i - 1] == other);
                }
            }
            if before.contains(other) {
                let i = choose|i: int| 0 <= i < before.len() && before[i] == other;
                if i < at {
                    assert(after[i] == other);
                } else {
                    assert(after[i + 1] == other);
                }
            }
            if other == entry@ {
                assert(after[at as int] == other);
            }
        }
    }
    true
}

/// An entry stands first with its set number in a list with one more entry
/// exactly if it stood so before, or is the new entry and its set number is
/// new.
pub proof fn lemma_first_with_key_push(list: Seq<Entry>, last: Entry, entry: Entry)
    ensures
        first_with_key(list.push(last), entry) <==> (first_with_key(list, entry) || (entry == last
            && !has_key(list, last.set_number))),
{
    let longer = list.push(last);
    if first_with_key(longer, entry) {
        let i = choose|i: int| 0 <= i < longer.len() && #[trigger] longer[i] == entry && no_key_before(longer, i);
        if i < list.len() {
            assert(list[i] == entry);
            assert forall|j: int| 0 <= j < i implies #[trigger] list[j].set_number != list[i].set_number by {
                assert(longer[j].set_number != longer[i].set_number);
            }
            assert(no_key_before(list, i));
        } else {
            if has_key(list, last.set_number) {
                let j = choose|j: int| 0 <= j < list.len() && #[trigger] list[j].set_number == last.set_number;
                assert(longer[j].set_number == longer[i].set_number);
            }
        }
    }
    if first_with_key(list, entry) {
        let i = choose|i: int| 0 <= i < list.len() && #[trigger] list[i] == entry && no_key_before(list, i);
        assert(longer[i] == entry);
        assert forall|j: int| 0 <= j < i implies #[trigger] longer[j].set_number != longer[i].set_number by {
            assert(list[j].set_number != list[i].set_number);
        }
        assert(no_key_before(longer, i));
    }
    if entry == last && !has_key(list, last.set_number) {
        let i = list.len() as int;
        assert(longer[i] == entry);
        assert forall|j: int| 0 <= j < i implies #[trigger] longer[j].set_number != longer[i].set_number by {
            assert(list[j].set_number != last.set_number);
        }
        assert(no_key_before(longer, i));
    }
}

/// Every set number of a list belongs to the entry that stands first with
/// it.
pub proof fn lemma_first_with_key_exists(list: Seq<Entry>, key: Seq<char>)
    requires
        has_key(list, key),
    ensures
        exists|entry: Entry| #[trigger] first_with_key(list, entry) && entry.set_number == key,
    decreases list.len(),
{
    let front = list.drop_last();
    assert(list =~= front.push(list.last()));
    if has_key(front, key) {
        lemma_first_with_key_exists(front, key);
        let entry = choose|entry: Entry| #[trigger] first_with_key(front, entry) && entry.set_number == key;
        lemma_first_with_key_push(front, list.last(), entry);
        assert(first_with_key(list, entry));
    } else {
        let i = choose|i: int| 0 <= i < list.len() && #[trigger] list[i].set_number == key;
        if i < front.len() {
            assert(front[i].set_number == key);
        }
        lemma_first_with_key_push(front, list.last(), list.last());
        assert(first_with_key(list, list.last()));
    }
}

/// Where a list holds exactly the entries that stand first with their set
/// number in another, the two have the same set numbers.
pub proof fn lemma_same_keys(out: Seq<Entry>, all: Seq<Entry>, key: Seq<char>)
    requires
        forall|entry: Entry| #[trigger] out.contains(entry) <==> first_with_key(all, entry),
    ensures
        has_key(out, key) <==> has_key(all, key),
{
    if has_key(out, key) {
        let i = choose|i: int| 0 <= i < out.len() && #[trigger] out[i].set_number == key;
        assert(out.contains(out[i]));
        let entry = out[i];
        let j = choose|j: int| 0 <= j < all.len() && #[trigger] all[j] == entry && no_key_before(all, j);
        assert(all[j].set_number == key);
    }
    if has_key(all, key) {
        lemma_first_with_key_exists(all, key);
        let entry = choose|entry: Entry| #[trigger] first_with_key(all, entry) && entry.set_number == key;
        assert(out.contains(entry));
        let i = choose|i: int| 0 <= i < out.len() && out[i] == entry;
        assert(out[i].set_number == key);
    }
}

/// Takes the entries of `more` into the ascending list `list`, each unless
/// its set number is there already.
fn insert_all(list: &mut Vec<ReferenceListEntry>, more: &Vec<ReferenceListEntry>, Ghost(seen): Ghost<Seq<Entry>>)
    requires
        ascending(entries(old(list)@)),
        forall|entry: Entry| #[trigger] entries(old(list)@).contains(entry) <==> first_with_key(seen, entry),
    ensures
        ascending(entries(final(list)@)),
        forall|entry: Entry| #[trigger]
            entries(final(list)@).contains(entry) <==> first_with_key(seen + entries(more@), entry),
{
    let ghost added = entries(more@);
    let mut i: usize = 0;
    assert(seen + added.take(0) =~= seen);
    while i < more.len()
        invariant
            i <= more.len(),
            added == entries(more@),
            ascending(entries(list@)),
            forall|entry: Entry| #[trigger]
                entries(list@).contains(entry) <==> first_with_key(seen + added.take(i as int), entry),
        decreases more.len() - i,
    {
        let ghost so_far = seen + added.take(i as int);
        let ghost before = entries(list@);
        let ghost next = more@[i as int]@;
        proof {
            assert(seen + added.take(i + 1) =~= so_far.push(next));
            lemma_same_keys(before, so_far, next.set_number);
        }
        let put = insert_entry(list, &more[i]);
        proof {
            let after = entries(list@);
            assert forall|entry: Entry| #[trigger] after.contains(entry) <==> first_with_key(
                so_far.push(next),
                entry,
            ) by {
                lemma_first_with_key_push(so_far, next, entry);
                assert(before.contains(entry) <==> first_with_key(so_far, entry));
            }
        }
        i += 1;
    }
    assert(added.take(more.len() as int) =~= added);
}

/// Merges newly scraped rows into the reference list: of the entries of
/// `cache` followed by `rows`, the one seen first is kept for each set
/// number, and the result is in ascending order of set number.
pub fn merge(cache: &Vec<ReferenceListEntry>, rows: &Vec<ReferenceListEntry>) -> (out: Vec<ReferenceListEntry>)
    ensures
        is_merge(entries(cache@), entries(rows@), entries(out@)),
{
    let mut out: Vec<ReferenceListEntry> = Vec::new();
    proof {
        let nothing = Seq::<Entry>::empty();
        assert(entries(out@) =~= nothing);
        assert forall|entry: Entry| #[trigger] entries(out@).contains(entry) <==> first_with_key(
            nothing,
            entry,
        ) by {}
    }
    insert_all(&mut out, cache, Ghost(Seq::<Entry>::empty()));
    assert(Seq::<Entry>::empty() + entries(cache@) =~= entries(cache@));
    insert_all(&mut out, rows, Ghost(entries(cache@)));
    out
}

/// Two ascending lists that hold the same entries are the same list.
pub proof fn lemma_ascending_lists_equal(a: Seq<Entry>, b: Seq<Entry>)
    requires
        ascending(a),
        ascending(b),
        forall|entry: Entry| #[trigger] a.contains(entry) <==> b.contains(entry),
    ensures
        a == b,
    decreases a.len(),
{
    if a.len() == 0 {
        if b.len() > 0 {
            assert(b[0] == b[0] && b.contains(b[0]));
            assert(a.contains(b[0]));
        }
        assert(a =~= b);
    } else {
        assert(a[0] == a[0] && a.contains(a[0]));
        assert(b.contains(a[0]));
        let la = a.last();
        let lb = b.last();
        assert(a[a.len() - 1] == la && a.contains(la));
        assert(b[b.len() - 1] == lb && b.contains(lb));
        assert(b.contains(la));
        assert(a.contains(lb));
        let j = choose|j: int| 0 <= j < b.len() && b[j] == la;
        let i = choose|i: int| 0 <= i < a.len() && a[i] == lb;
        if j < b.len() - 1 {
            assert(precedes(b[j].set_number, b[b.len() - 1].set_number));
            if i < a.len() - 1 {
                assert(precedes(a[i].set_number, a[a.len() - 1].set_number));
                lemma_precedes_asymmetric(la.set_number, lb.set_number);
            } else {
                lemma_precedes_irreflexive(la.set_number);
            }
        }
        assert(la == lb);
        let x = a.drop_last();
        let y = b.drop_last();
        assert forall|entry: Entry| #[trigger] x.contains(entry) <==> y.contains(entry) by {
            if x.contains(entry) {
                let p = choose|p: int| 0 <= p < x.len() && x[p] == entry;
                assert(a[p] == entry);
                assert(precedes(a[p].set_number, a[a.len() - 1].set_number));
                lemma_precedes_asymmetric(entry.set_number, la.set_number);
                assert(a.contains(entry));
                assert(b.contains(entry));
                let q = choose|q: int| 0 <= q < b.len() && b[q] == entry;
                assert(y[q] == entry);
            }
            if y.contains(entry) {
                let p = choose|p: int| 0 <= p < y.len() && y[p] == entry;
                assert(b[p] == entry);
                assert(precedes(b[p].set_number, b[b.len() - 1].set_number));
                lemma_precedes_asymmetric(entry.set_number, lb.set_number);
                assert(b.contains(entry));
                assert(a.contains(entry));
                let q = choose|q: int| 0 <= q < a.len() && a[q] == entry;
                assert(x[q] == entry);
            }
        }
        assert forall|i: int, j: int| 0 <= i < j < x.len() implies precedes(
            #[trigger] x[i].set_number,
            #[trigger] x[j].set_number,
        ) by {
            assert(precedes(a[i].set_number, a[j].set_number));
        }
        assert forall|i: int, j: int| 0 <= i < j < y.len() implies precedes(
            #[trigger] y[i].set_number,
            #[trigger] y[j].set_number,
        ) by {
            assert(precedes(b[i].set_number, b[j].set_number));
        }
        lemma_ascending_lists_equal(x, y);
        assert(a =~= x.push(la));
        assert(b =~= y.push(lb));
    }
}

/// Merging is determined: a cache and rows have one merge.
pub proof fn lemma_merge_unique(cache: Seq<Entry>, rows: Seq<Entry>, a: Seq<Entry>, b: Seq<Entry>)
    requires
        is_merge(cache, rows, a),
        is_merge(cache, rows, b),
    ensures
        a == b,
{
    assert forall|entry: Entry| #[trigger] a.contains(entry) <==> b.contains(entry) by {
        assert(a.contains(entry) <==> first_with_key(cache + rows, entry));
        assert(b.contains(entry) <==> first_with_key(cache + rows, entry));
    }
    lemma_ascending_lists_equal(a, b);
}

/// Merging the same rows into the reference list a second time changes
/// nothing: the merge of `rows` into the merge of `rows` into `cache` is the
/// merge of `rows` into `cache`.
pub proof fn lemma_merge_idempotent(cache: Seq<Entry>, rows: Seq<Entry>, once: Seq<Entry>, twice: Seq<Entry>)
    requires
        is_merge(cache, rows, once),
        is_merge(once, rows, twice),
    ensures
        twice == once,
{
    assert forall|entry: Entry| #[trigger] twice.contains(entry) <==> once.contains(entry) by {
        assert(twice.contains(entry) <==> first_with_key(once + rows, entry));
        let again = once + rows;
        if once.contains(entry) {
            let i = choose|i: int| 0 <= i < once.len() && once[i] == entry;
            assert(again[i] == entry);
            assert forall|j: int| 0 <= j < i implies #[trigger] again[j].set_number != again[i].set_number by {
                assert(precedes(once[j].set_number, once[i].set_number));
                lemma_precedes_asymmetric(once[j].set_number, once[i].set_number);
            }
            assert(no_key_before(again, i));
        }
        if first_with_key(again, entry) {
            let i = choose|i: int| 0 <= i < again.len() && #[trigger] again[i] == entry && no_key_before(again, i);
            if i < once.len() {
                assert(once[i] == entry);
            } else {
                let k = i - once.len();
                assert(rows[k] == entry);
                let all = cache + rows;
                assert(all[cache.len() + k] == entry);
                assert(has_key(all, entry.set_number));
                lemma_same_keys(once, all, entry.set_number);
                let m = choose|m: int| 0 <= m < once.len() && #[trigger] once[m].set_number == entry.set_number;
                assert(again[m].set_number == again[i].set_number);
            }
        }
    }
    lemma_ascending_lists_equal(twice, once);
}

} // verus!
