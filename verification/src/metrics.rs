//! The consolidation of a finished dataset into the ranked table: which
//! rows are kept, the discount of each, and the order of the table.

use vstd::prelude::*;
use vstd::seq_lib::{to_multiset_build, to_multiset_insert};
use crate::decimal::Decimal;
use crate::set_data::{Row, SetData};
use crate::set_list::{pieces_within, within_pieces};
use crate::text::text_of;

verus! {

/// A fraction, held exactly. One whose denominator is zero stands for no
/// number.
#[derive(Clone, Copy, Debug, PartialEq, Eq, Structural)]
pub struct Ratio {
    pub numerator: i64,
    pub denominator: u64,
}

/// One row of the ranked table.
#[derive(Clone, Debug, PartialEq, Eq)]
pub struct MetricRow {
    pub set_number: String,
    pub name: String,
    pub year: Option<String>,
    pub retail_price: Option<Decimal>,
    pub value: Decimal,
    pub listed_price: Decimal,
    pub pieces: Decimal,
    /// `(listed_price - value) / value`.
    pub percent_discount_from_value: Ratio,
    /// `(listed_price - value) / (value * pieces)`.
    pub percent_discount_from_value_per_piece: Ratio,
}

/// The mathematical value of a [`MetricRow`].
pub struct Metric {
    pub set_number: Seq<char>,
    pub name: Seq<char>,
    pub year: Option<Seq<char>>,
    pub retail_price: Option<Decimal>,
    pub value: Decimal,
    pub listed_price: Decimal,
    pub pieces: Decimal,
    pub percent_discount_from_value: Ratio,
    pub percent_discount_from_value_per_piece: Ratio,
}

impl View for MetricRow {
    type V = Metric;

    open spec fn view(&self) -> Metric {
        Metric {
            set_number: self.set_number@,
            name: self.name@,
            year: text_of(self.year),
            retail_price: self.retail_price,
            value: self.value,
            listed_price: self.listed_price,
            pieces: self.pieces,
            percent_discount_from_value: self.percent_discount_from_value,
            percent_discount_from_value_per_piece: self.percent_discount_from_value_per_piece,
        }
    }
}

/// The values of a table.
pub open spec fn metrics(table: Seq<MetricRow>) -> Seq<Metric> {
    table.map_values(|row: MetricRow| row@)
}

/// Whether a row goes into the table: its listed price and its value are
/// known, and its piece count is known and lies strictly between the bounds.
pub open spec fn kept(row: Row, min_pieces: Decimal, max_pieces: Decimal) -> bool {
    &&& row.listed_price is Some
    &&& row.value is Some
    &&& within_pieces(row.pieces, min_pieces, max_pieces)
}

/// `(listed - value) / value`, as a fraction of hundredths.
pub open spec fn discount(listed: Decimal, value: Decimal) -> Ratio {
    Ratio {
        numerator: (listed.hundredths - value.hundredths) as i64,
        denominator: value.hundredths as u64,
    }
}

/// `(listed - value) / (value * pieces)`: with every amount in hundredths,
/// the numerator is a hundred times the difference and the denominator the
/// product.
pub open spec fn discount_per_piece(listed: Decimal, value: Decimal, pieces: Decimal) -> Ratio {
    Ratio {
        numerator: ((listed.hundredths - value.hundredths) * 100) as i64,
        denominator: (value.hundredths * pieces.hundredths) as u64,
    }
}

/// The table row of a kept row.
pub open spec fn metric_of(row: Row) -> Metric
    recommends
        row.listed_price is Some,
        row.value is Some,
        row.pieces is Some,
{
    let listed = row.listed_price->Some_0;
    let value = row.value->Some_0;
    let pieces = row.pieces->Some_0;
    Metric {
        set_number: row.set_number,
        name: row.name,
        year: row.year,
        retail_price: row.retail_price,
        value,
        listed_price: listed,
        pieces,
        percent_discount_from_value: discount(listed, value),
        percent_discount_from_value_per_piece: discount_per_piece(listed, value, pieces),
    }
}

/// The table rows of the kept rows, in the order of the dataset.
pub open spec fn kept_metrics(rows: Seq<Row>, min_pieces: Decimal, max_pieces: Decimal) -> Seq<Metric>
    decreases rows.len(),
{
    if rows.len() == 0 {
        Seq::empty()
    } else if kept(rows.last(), min_pieces, max_pieces) {
        kept_metrics(rows.drop_last(), min_pieces, max_pieces).push(metric_of(rows.last()))
    } else {
        kept_metrics(rows.drop_last(), min_pieces, max_pieces)
    }
}

/// Whether fraction `a` is at most fraction `b`. Fractions with a zero
/// denominator come after every number and are equal among themselves.
pub open spec fn at_most(a: Ratio, b: Ratio) -> bool {
    if a.denominator == 0 {
        b.denominator == 0
    } else if b.denominator == 0 {
        true
    } else {
        a.numerator * b.denominator <= b.numerator * a.denominator
    }
}

/// The table is in ascending order of discount per piece.
pub open spec fn ranked(table: Seq<Metric>) -> bool {
    forall|i: int, j: int|
        0 <= i < j < table.len() ==> at_most(
            #[trigger] table[i].percent_discount_from_value_per_piece,
            #[trigger] table[j].percent_discount_from_value_per_piece,
        )
}

/// The ranked table with one more row: the row stands behind every row that
/// it is not strictly below, so behind its equals.
pub open spec fn placed(table: Seq<Metric>, row: Metric) -> Seq<Metric>
    decreases table.len(),
{
    if table.len() == 0 || at_most(
        table.last().percent_discount_from_value_per_piece,
        row.percent_discount_from_value_per_piece,
    ) {
        table.push(row)
    } else {
        placed(table.drop_last(), row).push(table.last())
    }
}

/// The rows in ascending order of discount per piece; rows of equal
/// discount keep the order in which they are given.
pub open spec fn ranking(rows: Seq<Metric>) -> Seq<Metric>
    decreases rows.len(),
{
    if rows.len() == 0 {
        Seq::empty()
    } else {
        placed(ranking(rows.drop_last()), rows.last())
    }
}

/// Of two fractions one is at most the other.
pub proof fn lemma_at_most_total(a: Ratio, b: Ratio)
    ensures
        at_most(a, b) || at_most(b, a),
{
}

/// The order of fractions is transitive.
pub proof fn lemma_at_most_transitive(a: Ratio, b: Ratio, c: Ratio)
    requires
        at_most(a, b),
        at_most(b, c),
    ensures
        at_most(a, c),
{
    if a.denominator != 0 && b.denominator != 0 && c.denominator != 0 {
        let (an, ad) = (a.numerator as int, a.denominator as int);
        let (bn, bd) = (b.numerator as int, b.denominator as int);
        let (cn, cd) = (c.numerator as int, c.denominator as int);
        assert(an * cd <= cn * ad) by (nonlinear_arith)
            requires
                an * bd <= bn * ad,
                bn * cd <= cn * bd,
                ad > 0,
                bd > 0,
                cd > 0,
        {
            assert(an * bd * cd <= bn * ad * cd);
            assert(bn * cd * ad <= cn * bd * ad);
            assert(bn * ad * cd == bn * cd * ad);
            assert((an * cd) * bd <= (cn * ad) * bd);
        }
    }
}

/// A row without a piece count is kept by no bounds.
pub proof fn lemma_unknown_pieces_excluded(row: Row, min_pieces: Decimal, max_pieces: Decimal)
    requires
        row.pieces is None,
    ensures
        !kept(row, min_pieces, max_pieces),
{
}

/// Whether fraction `a` is at most fraction `b`.
pub fn ratio_at_most(a: Ratio, b: Ratio) -> (yes: bool)
    ensures
        yes == at_most(a, b),
{
    if a.denominator == 0 {
        b.denominator == 0
    } else if b.denominator == 0 {
        true
    } else {
        let (an, ad) = (a.numerator as i128, a.denominator as i128);
        let (bn, bd) = (b.numerator as i128, b.denominator as i128);
        assert(-0x8000_0000_0000_0000 * 0xffff_ffff_ffff_ffff <= an * bd <= 0x7fff_ffff_ffff_ffff
            * 0xffff_ffff_ffff_ffff) by (nonlinear_arith)
            requires
                -0x8000_0000_0000_0000 <= an <= 0x7fff_ffff_ffff_ffff,
                0 <= bd <= 0xffff_ffff_ffff_ffff,
        ;
        assert(-0x8000_0000_0000_0000 * 0xffff_ffff_ffff_ffff <= bn * ad <= 0x7fff_ffff_ffff_ffff
            * 0xffff_ffff_ffff_ffff) by (nonlinear_arith)
            requires
                -0x8000_0000_0000_0000 <= bn <= 0x7fff_ffff_ffff_ffff,
                0 <= ad <= 0xffff_ffff_ffff_ffff,
        ;
        an * bd <= bn * ad
    }
}

/// Computes `(listed - value) / value`.
pub fn discount_of(listed: Decimal, value: Decimal) -> (out: Ratio)
    ensures
        out == discount(listed, value),
        out.numerator == listed.hundredths - value.hundredths,
        out.denominator == value.hundredths,
{
    Ratio {
        numerator: listed.hundredths as i64 - value.hundredths as i64,
        denominator: value.hundredths as u64,
    }
}

/// Computes `(listed - value) / (value * pieces)`.
pub fn discount_per_piece_of(listed: Decimal, value: Decimal, pieces: Decimal) -> (out: Ratio)
    ensures
        out == discount_per_piece(listed, value, pieces),
        out.numerator == (listed.hundredths - value.hundredths) * 100,
        out.denominator == value.hundredths * pieces.hundredths,
{
    let difference = listed.hundredths as i64 - value.hundredths as i64;
    let (v, p) = (value.hundredths as u64, pieces.hundredths as u64);
    assert(0 <= v * p <= 0xffff_ffff * 0xffff_ffff) by (nonlinear_arith)
        requires
            0 <= v <= 0xffff_ffff,
            0 <= p <= 0xffff_ffff,
    ;
    Ratio { numerator: difference * 100, denominator: v * p }
}

/// Puts a row into a ranked table behind every row that it is not
/// strictly below.
fn insert_ranked(table: &mut Vec<MetricRow>, row: MetricRow)
    requires
        ranked(metrics(old(table)@)),
    ensures
        ranked(metrics(final(table)@)),
        metrics(final(table)@) == placed(metrics(old(table)@), row@),
        metrics(final(table)@).to_multiset() == metrics(old(table)@).to_multiset().insert(row@),
{
    let ghost before = metrics(table@);
    assert(before.take(before.len() as int) == before);
    assert(before.skip(before.len() as int) =~= Seq::empty());
    assert(placed(before, row@) + Seq::<Metric>::empty() =~= placed(before, row@));
    let key = row.percent_discount_from_value_per_piece;
    let mut at: usize = table.len();
    while at > 0 && !ratio_at_most(table[at - 1].percent_discount_from_value_per_piece, key)
        invariant
            at <= table.len(),
            before == metrics(table@),
            key == row@.percent_discount_from_value_per_piece,
            placed(before, row@) == placed(before.take(at as int), row@) + before.skip(at as int),
            forall|j: int|
                at <= j < before.len() ==> at_most(
                    key,
                    #[trigger] before[j].percent_discount_from_value_per_piece,
                ),
        decreases at,
    {
        proof {
            lemma_at_most_total(before[at - 1].percent_discount_from_value_per_piece, key);
            let front = before.take(at as int);
            assert(front.last() == before[at - 1]);
            assert(front.drop_last() == before.take(at - 1));
            assert(placed(front, row@) == placed(before.take(at - 1), row@).push(before[at - 1]));
            assert(placed(before.take(at - 1), row@).push(before[at - 1]) + before.skip(at as int)
                =~= placed(before.take(at - 1), row@) + before.skip(at - 1));
        }
        at -= 1;
    }
    proof {
        let front = before.take(at as int);
        if at > 0 {
            assert(front.last() == before[at - 1]);
        }
        assert(placed(front, row@) == front.push(row@));
        assert(front.push(row@) + before.skip(at as int) =~= before.insert(at as int, row@));
        assert forall|j: int| 0 <= j < at implies at_most(
            #[trigger] before[j].percent_discount_from_value_per_piece,
            key,
        ) by {
            if j < at - 1 {
                lemma_at_most_transitive(
                    before[j].percent_discount_from_value_per_piece,
                    before[at - 1].percent_discount_from_value_per_piece,
                    key,
                );
            }
        }
        to_multiset_insert(before, at as int, row@);
    }
    table.insert(at, row);
    proof {
        let after = metrics(table@);
        assert(after =~= before.insert(at as int, row@));
        assert forall|i: int, j: int| 0 <= i < j < after.len() implies at_most(
            #[trigger] after[i].percent_discount_from_value_per_piece,
            #[trigger] after[j].percent_discount_from_value_per_piece,
        ) by {
            let a = if i < at { i } else { i - 1 };
            let b = if j < at { j } else { j - 1 };
            if i != at && j != at {
                assert(after[i] == before[a]);
                assert(after[j] == before[b]);
            } else if i == at {
                assert(after[j] == before[b]);
            } else {
                assert(after[i] == before[a]);
            }
        }
    }
}

/// Consolidates a finished dataset into the ranked table. Rows whose listed
/// price or value is unknown are dropped, and rows whose piece count is
/// unknown or not strictly between `min_pieces` and `max_pieces`. Each row
/// that is left gets its two discounts, and the table is put in ascending
/// order of discount per piece, the best discount first.
pub fn consolidate(data: &SetData, min_pieces: Decimal, max_pieces: Decimal) -> (table: Vec<MetricRow>)
    requires
        data@.aligned(),
    ensures
        metrics(table@) == ranking(kept_metrics(data@.rows(), min_pieces, max_pieces)),
        ranked(metrics(table@)),
        metrics(table@).to_multiset() == kept_metrics(data@.rows(), min_pieces, max_pieces).to_multiset(),
{
    let mut table: Vec<MetricRow> = Vec::new();
    let n = data.set_number.len();
    let ghost rows = data@.rows();
    let mut i: usize = 0;
    proof {
        assert(metrics(table@) =~= Seq::empty());
        assert(rows.take(0) =~= Seq::empty());
    }
    while i < n
        invariant
            i <= n,
            n == data@.len(),
            data@.aligned(),
            rows == data@.rows(),
            ranked(metrics(table@)),
            metrics(table@) == ranking(kept_metrics(rows.take(i as int), min_pieces, max_pieces)),
            metrics(table@).to_multiset() == kept_metrics(
                rows.take(i as int),
                min_pieces,
                max_pieces,
            ).to_multiset(),
        decreases n - i,
    {
        proof {
            assert(rows.take(i + 1).drop_last() == rows.take(i as int));
            assert(rows.take(i + 1).last() == data@.row(i as int));
        }
        match (data.listed_price[i], data.value[i], data.pieces[i]) {
            (Some(listed), Some(value), Some(pieces)) => {
                if pieces_within(Some(pieces), min_pieces, max_pieces) {
                    let row = MetricRow {
                        set_number: data.set_number[i].clone(),
                        name: data.name[i].clone(),
                        year: data.year[i].clone(),
                        retail_price: data.retail_price[i],
                        value,
                        listed_price: listed,
                        pieces,
                        percent_discount_from_value: discount_of(listed, value),
                        percent_discount_from_value_per_piece: discount_per_piece_of(
                            listed,
                            value,
                            pieces,
                        ),
                    };
                    proof {
                        assert(row@ == metric_of(data@.row(i as int)));
                        let so_far = kept_metrics(rows.take(i as int), min_pieces, max_pieces);
                        to_multiset_build(so_far, row@);
                        assert(so_far.push(row@).drop_last() == so_far);
                    }
                    insert_ranked(&mut table, row);
                }
            },
            _ => {},
        }
        i += 1;
    }
    assert(rows.take(n as int) == rows);
    table
}

} // verus!
