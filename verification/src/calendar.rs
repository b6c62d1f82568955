//! Days, months and hours of the year.
use vstd::prelude::*;

verus! {

/// The days of the first `m` months of a year with the given month lengths.
pub open spec fn days_to(dims: Seq<u32>, m: nat) -> nat
    decreases m,
{
    if m == 0 {
        0
    } else {
        days_to(dims, (m - 1) as nat) + dims[m - 1] as nat
    }
}

proof fn days_to_grows(dims: Seq<u32>, a: nat, b: nat)
    requires
        a <= b,
    ensures
        days_to(dims, a) <= days_to(dims, b),
    decreases b,
{
    if a < b {
        days_to_grows(dims, a, (b - 1) as nat);
    }
}

/// The day of the year, from 0, of a date with month and day from 1.
pub fn day_of_year(month: u32, day: u32, dims: &[u32; 12]) -> (r: u32)
    requires
        1 <= month <= 13,
        1 <= days_to(dims@, (month - 1) as nat) + day <= u32::MAX,
    ensures
        r == days_to(dims@, (month - 1) as nat) + day - 1,
{
    let mut doy: u32 = 0;
    let months: usize = (month - 1) as usize;
    for m in 0..months
        invariant
            months <= 12,
            doy == days_to(dims@, m as nat),
            days_to(dims@, months as nat) <= u32::MAX,
    {
        proof {
            days_to_grows(dims@, (m + 1) as nat, months as nat);
        }
        doy = doy + dims[m];
    }
    doy + day - 1
}

/// `(month, day)`, from 1, is the date of the day `day_index` of the year, from 0.
pub open spec fn is_date_of(month: u32, day: u32, day_index: int, dims: Seq<u32>) -> bool {
    &&& 1 <= month <= 12
    &&& 1 <= day <= dims[month - 1]
    &&& day_index == days_to(dims, (month - 1) as nat) + day - 1
}

/// `found` is the date of an hour of the year, or the last of December where the hour is
/// past the end of the year.
pub open spec fn is_date_of_hour(found: (u32, u32), hour_of_year: int, dims: Seq<u32>) -> bool {
    if hour_of_year / 24 < days_to(dims, 12) {
        is_date_of(found.0, found.1, hour_of_year / 24, dims)
    } else {
        found == (12u32, 31u32)
    }
}

/// The date of an hour of the year; the last day of the year where it is too late.
pub fn month_day_from_hour(hour_of_year: u32, dims: &[u32; 12]) -> (r: (u32, u32))
    ensures
        is_date_of_hour(r, hour_of_year as int, dims@),
{
    let day_of_year: u32 = hour_of_year / 24;
    let mut remaining: u32 = day_of_year;
    for m in 0..12usize
        invariant
            day_of_year == hour_of_year / 24,
            day_of_year == days_to(dims@, m as nat) + remaining,
    {
        let days: u32 = dims[m];
        proof {
            days_to_grows(dims@, (m + 1) as nat, 12);
        }
        if remaining < days {
            return ((m + 1) as u32, remaining + 1);
        }
        remaining = remaining - days;
    }
    (12, 31)
}

/// A day of the year has at most one date.
pub proof fn date_is_unique(m1: u32, d1: u32, m2: u32, d2: u32, day_index: int, dims: Seq<u32>)
    requires
        is_date_of(m1, d1, day_index, dims),
        is_date_of(m2, d2, day_index, dims),
    ensures
        m1 == m2,
        d1 == d2,
{
    if m1 < m2 {
        days_to_grows(dims, m1 as nat, (m2 - 1) as nat);
    }
    if m2 < m1 {
        days_to_grows(dims, m2 as nat, (m1 - 1) as nat);
    }
}

/// A date comes back from any hour of its day.
pub proof fn hour_of_date_has_that_date(
    month: u32,
    day: u32,
    hour: u32,
    dims: Seq<u32>,
    found: (u32, u32),
)
    requires
        1 <= month <= 12,
        1 <= day <= dims[month - 1],
        hour < 24,
        is_date_of_hour(
            found,
            (days_to(dims, (month - 1) as nat) + day - 1) * 24 + hour,
            dims,
        ),
    ensures
        found == (month, day),
{
    let index = days_to(dims, (month - 1) as nat) + day - 1;
    assert((index * 24 + hour) / 24 == index);
    days_to_grows(dims, month as nat, 12);
    date_is_unique(month, day, found.0, found.1, index, dims);
}

} // verus!
