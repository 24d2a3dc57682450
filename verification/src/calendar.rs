//! Dates of the Gregorian calendar, counted in days from the first of January 1970.
use vstd::prelude::*;
use vstd::string::*;

use crate::numerals::{
    decimal, law_padded_reads_back, padded_decimal_text, unsigned_value, zero_padded,
};

verus! {

/// A date.
#[derive(Clone, Copy, PartialEq, Eq, Structural, Debug)]
pub struct Date {
    pub year: u64,
    pub month: u64,
    pub day: u64,
}

/// Whether a year has a 29th of February.
pub open spec fn is_leap(year: int) -> bool {
    year % 4 == 0 && (year % 100 != 0 || year % 400 == 0)
}

/// One for a leap year, none otherwise.
pub open spec fn leap_day(year: int) -> int {
    if is_leap(year) {
        1
    } else {
        0
    }
}

/// The days of a month.
pub open spec fn days_in_month(year: int, month: int) -> int {
    if month == 2 {
        28 + leap_day(year)
    } else if month == 4 || month == 6 || month == 9 || month == 11 {
        30
    } else {
        31
    }
}

/// The days of a year that come before a month.
pub open spec fn days_before_month(year: int, month: int) -> int
    decreases month,
{
    if month <= 1 {
        0
    } else {
        days_before_month(year, month - 1) + days_in_month(year, month - 1)
    }
}

/// The days between the first of January of the year 1 and that of `year`.
pub open spec fn days_before_year(year: int) -> int {
    365 * (year - 1) + (year - 1) / 4 - (year - 1) / 100 + (year - 1) / 400
}

impl Date {
    /// Whether there is such a day.
    pub open spec fn valid(self) -> bool {
        &&& self.year >= 1
        &&& 1 <= self.month <= 12
        &&& 1 <= self.day <= days_in_month(self.year as int, self.month as int)
    }

    /// The days from the first of January 1970 to the date.
    pub open spec fn day_number(self) -> int {
        days_before_year(self.year as int) - days_before_year(1970) + days_before_month(
            self.year as int,
            self.month as int,
        ) + self.day - 1
    }

    /// The date as `YYYY-MM-DD`; a longer year stands as it is.
    pub open spec fn text(self) -> Seq<char> {
        zero_padded(decimal(self.year as nat), 4) + "-"@ + zero_padded(
            decimal(self.month as nat),
            2,
        ) + "-"@ + zero_padded(decimal(self.day as nat), 2)
    }

    /// The date as `YYYY-MM-DD`.
    pub fn to_text(&self) -> (r: String)
        ensures
            r@ == self.text(),
    {
        let mut s = padded_decimal_text(self.year, 4);
        s.append("-");
        let m = padded_decimal_text(self.month, 2);
        s.append(m.as_str());
        s.append("-");
        let d = padded_decimal_text(self.day, 2);
        s.append(d.as_str());
        s
    }
}

proof fn lemma_months(year: int)
    ensures
        days_before_month(year, 1) == 0,
        days_before_month(year, 2) == 31,
        days_before_month(year, 3) == 59 + leap_day(year),
        days_before_month(year, 4) == 90 + leap_day(year),
        days_before_month(year, 5) == 120 + leap_day(year),
        days_before_month(year, 6) == 151 + leap_day(year),
        days_before_month(year, 7) == 181 + leap_day(year),
        days_before_month(year, 8) == 212 + leap_day(year),
        days_before_month(year, 9) == 243 + leap_day(year),
        days_before_month(year, 10) == 273 + leap_day(year),
        days_before_month(year, 11) == 304 + leap_day(year),
        days_before_month(year, 12) == 334 + leap_day(year),
{
    reveal_with_fuel(days_before_month, 13);
}

proof fn lemma_step(y: int, n: int)
    requires
        n == 4 || n == 100 || n == 400,
    ensures
        y / n - (y - 1) / n == (if y % n == 0 {
            1int
        } else {
            0
        }),
{
    if n == 4 {
        assert(y / 4 - (y - 1) / 4 == if y % 4 == 0 {
            1int
        } else {
            0
        });
    } else if n == 100 {
        assert(y / 100 - (y - 1) / 100 == if y % 100 == 0 {
            1int
        } else {
            0
        });
    } else {
        assert(y / 400 - (y - 1) / 400 == if y % 400 == 0 {
            1int
        } else {
            0
        });
    }
}

proof fn lemma_nested(y: int)
    ensures
        y % 400 == 0 ==> y % 100 == 0,
        y % 100 == 0 ==> y % 4 == 0,
{
    if y % 400 == 0 {
        let k = y / 400;
        assert(y == 100 * (4 * k));
    }
    if y % 100 == 0 {
        let k = y / 100;
        assert(y == 4 * (25 * k));
    }
}

proof fn lemma_year_length(year: int)
    ensures
        days_before_year(year + 1) == days_before_year(year) + 365 + leap_day(year),
{
    lemma_step(year, 4);
    lemma_step(year, 100);
    lemma_step(year, 400);
    lemma_nested(year);
}

/// The date that lies `days` days after the first of January 1970.
fn civil_from_days(days: u64) -> (r: Date)
    requires
        days <= u64::MAX / 86_400,
    ensures
        r.valid(),
        r.day_number() == days,
{
    // Days from the first of March of the year 0, in cycles of four hundred years.
    let z: u64 = days + 719_468;
    let era: u64 = z / 146_097;
    let doe: u64 = z % 146_097;
    let c: u64 = if doe / 36_524 < 3 {
        doe / 36_524
    } else {
        3
    };
    let doc: u64 = doe - 36_524 * c;
    let q: u64 = doc / 1_461;
    let doq: u64 = doc % 1_461;
    let r: u64 = if doq / 365 < 3 {
        doq / 365
    } else {
        3
    };
    let doy: u64 = doq - 365 * r;
    let y: u64 = 400 * era + 100 * c + 4 * q + r;
    proof {
        assert(q <= 24);
        let s = y as int;
        assert(s / 4 == 100 * era + 25 * c + q);
        assert(s / 100 == 4 * era + c);
        assert(s / 400 == era);
        assert(z == 365 * s + s / 4 - s / 100 + s / 400 + doy);
        lemma_year_length(s);
        lemma_months(s);
        lemma_months(s + 1);
        assert(z == days_before_year(s + 1) + doy);
        assert(days_before_year(1970) == 719_162);
        if doy == 365 {
            assert(r == 3 && doq == 1460);
            assert((s + 1) % 4 == 0);
            if q == 24 {
                assert(doc == 36_524);
                assert(c == 3);
                assert((s + 1) % 400 == 0);
            } else {
                assert((s + 1) % 100 != 0);
            }
            assert(is_leap(s + 1));
        }
    }
    if doy < 31 {
        Date { year: y, month: 3, day: doy + 1 }
    } else if doy < 61 {
        Date { year: y, month: 4, day: doy - 30 }
    } else if doy < 92 {
        Date { year: y, month: 5, day: doy - 60 }
    } else if doy < 122 {
        Date { year: y, month: 6, day: doy - 91 }
    } else if doy < 153 {
        Date { year: y, month: 7, day: doy - 121 }
    } else if doy < 184 {
        Date { year: y, month: 8, day: doy - 152 }
    } else if doy < 214 {
        Date { year: y, month: 9, day: doy - 183 }
    } else if doy < 245 {
        Date { year: y, month: 10, day: doy - 213 }
    } else if doy < 275 {
        Date { year: y, month: 11, day: doy - 244 }
    } else if doy < 306 {
        Date { year: y, month: 12, day: doy - 274 }
    } else if doy < 337 {
        Date { year: y + 1, month: 1, day: doy - 305 }
    } else {
        Date { year: y + 1, month: 2, day: doy - 336 }
    }
}

/// The UTC date at a time given in seconds from the first of January 1970.
pub open spec fn is_date_at(d: Date, secs: int) -> bool {
    d.valid() && d.day_number() == secs / 86_400
}

/// The UTC date at a time given in seconds from the first of January 1970.
pub fn utc_date(secs: u64) -> (r: Date)
    ensures
        is_date_at(r, secs as int),
{
    civil_from_days(secs / 86_400)
}

/// The date that a log file of that moment carries in its name.
pub fn today_for_filename(secs: u64) -> (r: String)
    ensures
        exists|d: Date| #[trigger] is_date_at(d, secs as int) && r@ == d.text(),
{
    let d = utc_date(secs);
    d.to_text()
}

// ----- laws -----

proof fn lemma_years_in_order(a: int, b: int)
    requires
        1 <= a < b,
    ensures
        days_before_year(a) + 365 + leap_day(a) <= days_before_year(b),
    decreases b - a,
{
    lemma_year_length(a);
    if a + 1 < b {
        lemma_years_in_order(a + 1, b);
    }
}

proof fn lemma_months_in_order(year: int, a: int, b: int)
    requires
        1 <= a < b,
    ensures
        days_before_month(year, a) + days_in_month(year, a) <= days_before_month(year, b),
    decreases b,
{
    if a + 1 < b {
        lemma_months_in_order(year, a, b - 1);
    }
}

/// A later date has a larger day number.
pub proof fn law_dates_are_in_order(a: Date, b: Date)
    requires
        a.valid(),
        b.valid(),
        a.year < b.year || (a.year == b.year && (a.month < b.month || (a.month == b.month && a.day
            < b.day))),
    ensures
        a.day_number() < b.day_number(),
{
    lemma_months(a.year as int);
    lemma_months(b.year as int);
    if a.year < b.year {
        lemma_years_in_order(a.year as int, b.year as int);
        if a.month < 12 {
            lemma_months_in_order(a.year as int, a.month as int, 12);
        }
        if b.month > 1 {
            lemma_months_in_order(b.year as int, 1, b.month as int);
        }
    } else if a.month < b.month {
        lemma_months_in_order(a.year as int, a.month as int, b.month as int);
    }
}

/// There is no more than one date for a day number.
pub proof fn law_date_is_unique(a: Date, b: Date)
    requires
        a.valid(),
        b.valid(),
        a.day_number() == b.day_number(),
    ensures
        a == b,
{
    if a.year < b.year || (a.year == b.year && (a.month < b.month || (a.month == b.month && a.day
        < b.day))) {
        law_dates_are_in_order(a, b);
    } else if a != b {
        law_dates_are_in_order(b, a);
    }
}

/// Every fourth year is a leap year, but of the years that end a century only every fourth is.
/// February has a day more then; the other months have the days they always have.
pub proof fn law_months_have_their_days(year: int, k: int)
    ensures
        is_leap(400 * k),
        k % 4 != 0 ==> !is_leap(100 * k),
        k % 25 != 0 ==> is_leap(4 * k),
        year % 4 != 0 ==> !is_leap(year),
        days_in_month(year, 1) == 31 && days_in_month(year, 3) == 31 && days_in_month(year, 5) == 31,
        days_in_month(year, 7) == 31 && days_in_month(year, 8) == 31 && days_in_month(year, 10) == 31,
        days_in_month(year, 12) == 31,
        days_in_month(year, 4) == 30 && days_in_month(year, 6) == 30,
        days_in_month(year, 9) == 30 && days_in_month(year, 11) == 30,
        is_leap(year) ==> days_in_month(year, 2) == 29,
        !is_leap(year) ==> days_in_month(year, 2) == 28,
{
    assert((400 * k) % 4 == 0 && (400 * k) % 400 == 0) by (nonlinear_arith);
    assert((100 * k) % 100 == 0) by (nonlinear_arith);
    assert(k % 4 != 0 ==> (100 * k) % 400 != 0) by {
        assert(k == 4 * (k / 4) + k % 4);
        assert(100 * k == 400 * (k / 4) + 100 * (k % 4));
    }
    assert(k % 25 != 0 ==> (4 * k) % 100 != 0) by {
        assert(k == 25 * (k / 25) + k % 25);
        assert(4 * k == 100 * (k / 25) + 4 * (k % 25));
    }
    assert((4 * k) % 4 == 0);
}

/// The day after a date: the next of the month, or the first of the next month.
pub open spec fn next_day(d: Date) -> Date {
    if d.day < days_in_month(d.year as int, d.month as int) {
        Date { year: d.year, month: d.month, day: (d.day + 1) as u64 }
    } else if d.month < 12 {
        Date { year: d.year, month: (d.month + 1) as u64, day: 1 }
    } else {
        Date { year: (d.year + 1) as u64, month: 1, day: 1 }
    }
}

/// Days are counted one by one from the first of January 1970 on: each date is followed by the next,
/// and a date lasts from one midnight to the next.
pub proof fn law_days_are_counted_one_by_one(d: Date, secs: int)
    requires
        d.valid(),
        d.year < u64::MAX,
    ensures
        (Date { year: 1970, month: 1, day: 1 }).day_number() == 0,
        next_day(d).valid(),
        next_day(d).day_number() == d.day_number() + 1,
        is_date_at(d, secs) <==> 86_400 * d.day_number() <= secs < 86_400 * (d.day_number() + 1),
{
    let y = d.year as int;
    lemma_months(y);
    lemma_months(1970);
    lemma_year_length(y);
    lemma_months(y + 1);
    let n = d.day_number();
    assert(secs / 86_400 == n <==> 86_400 * n <= secs < 86_400 * (n + 1));
}

/// A date is written as its year, month and day, each in digits that read back, with dashes between
/// them; in years of four digits at most it takes up ten places.
pub proof fn law_date_reads_back(d: Date)
    requires
        d.valid(),
        d.year <= 9999,
    ensures
        d.text().len() == 10,
        d.text()[4] == '-' && d.text()[7] == '-',
        unsigned_value(d.text().subrange(0, 4)) == Some(d.year as nat),
        unsigned_value(d.text().subrange(5, 7)) == Some(d.month as nat),
        unsigned_value(d.text().subrange(8, 10)) == Some(d.day as nat),
{
    reveal_strlit("-");
    assert("-"@ =~= seq!['-']);
    law_padded_reads_back(d.year as nat, 4);
    law_padded_reads_back(d.month as nat, 2);
    law_padded_reads_back(d.day as nat, 2);
    assert(d.day <= 31);
    lemma_digits_needed(d.year as nat);
    lemma_digits_needed(d.month as nat);
    lemma_digits_needed(d.day as nat);
    let a = zero_padded(decimal(d.year as nat), 4);
    let b = zero_padded(decimal(d.month as nat), 2);
    let c = zero_padded(decimal(d.day as nat), 2);
    assert(a.len() == 4 && b.len() == 2 && c.len() == 2);
    assert(d.text().subrange(0, 4) =~= a);
    assert(d.text().subrange(5, 7) =~= b);
    assert(d.text().subrange(8, 10) =~= c);
}

proof fn lemma_digits_needed(n: nat)
    ensures
        n < 100 ==> decimal(n).len() <= 2,
        n < 10000 ==> decimal(n).len() <= 4,
{
    reveal_with_fuel(decimal, 5);
}

} // verus!
