//! The filters that are applied to the data.

use vstd::prelude::*;

verus! {

/// The first year of which the catalogue lists sets.
pub const MIN_YEAR_BRICK_ECONOMY: u16 = 1949;

/// The filters that will be applied to our data.
#[derive(Clone, Debug, PartialEq, Eq)]
pub struct Query {
    pub years: Option<Vec<u16>>,
    pub set_range: Option<Vec<u32>>,
}

/// The years from [`MIN_YEAR_BRICK_ECONOMY`] to `last`, in order.
pub open spec fn years_through(last: u16) -> Seq<u16> {
    Seq::new(
        if last >= MIN_YEAR_BRICK_ECONOMY {
            (last - MIN_YEAR_BRICK_ECONOMY + 1) as nat
        } else {
            0
        },
        |i: int| (MIN_YEAR_BRICK_ECONOMY + i) as u16,
    )
}

impl Query {
    /// A query without filters.
    pub fn new() -> (query: Query)
        ensures
            query.years is None,
            query.set_range is None,
    {
        Query { years: None, set_range: None }
    }

    /// Asks for the sets of `years`, in place of any years asked for before.
    pub fn set_years(&mut self, years: Vec<u16>)
        ensures
            final(self).years == Some(years),
            final(self).set_range == old(self).set_range,
    {
        self.years = Some(years);
    }

    /// Asks for the sets of every year from [`MIN_YEAR_BRICK_ECONOMY`] to
    /// `current_year`.
    pub fn set_all_years(&mut self, current_year: u16)
        ensures
            final(self).years is Some,
            final(self).years->Some_0@ == years_through(current_year),
            final(self).set_range == old(self).set_range,
    {
        let mut all: Vec<u16> = Vec::new();
        let mut year: u16 = MIN_YEAR_BRICK_ECONOMY;
        if current_year >= MIN_YEAR_BRICK_ECONOMY {
            while year < current_year
                invariant
                    MIN_YEAR_BRICK_ECONOMY <= year <= current_year,
                    all@ == years_through(current_year).take(year - MIN_YEAR_BRICK_ECONOMY),
                decreases current_year - year,
            {
                proof {
                    let wanted = years_through(current_year);
                    let k = year - MIN_YEAR_BRICK_ECONOMY;
                    assert(wanted.take(k + 1) =~= wanted.take(k).push(year));
                }
                all.push(year);
                year += 1;
            }
            proof {
                let wanted = years_through(current_year);
                let k = year - MIN_YEAR_BRICK_ECONOMY;
                assert(wanted.take(k).push(year) =~= wanted);
            }
            all.push(year);
        } else {
            assert(all@ =~= years_through(current_year));
        }
        self.set_years(all);
    }

    /// Asks for the sets numbered in `set_numbers`, in place of any range
    /// asked for before.
    pub fn change_set_range(&mut self, set_numbers: Vec<u32>)
        ensures
            final(self).set_range == Some(set_numbers),
            final(self).years == old(self).years,
    {
        self.set_range = Some(set_numbers);
    }

    /// Asks for the sets numbered in `set_numbers`, in place of any range
    /// asked for before.
    pub fn set_set_number_range(&mut self, set_numbers: Vec<u32>)
        ensures
            final(self).set_range == Some(set_numbers),
            final(self).years == old(self).years,
    {
        self.change_set_range(set_numbers);
    }
}

} // verus!
