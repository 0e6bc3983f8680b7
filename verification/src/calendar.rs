//! Dates of the proleptic Gregorian calendar, counted in days from the Unix
//! epoch (1970-01-01).
use vstd::prelude::*;

verus! {

/// Year `y` has a 29th of February.
pub open spec fn is_leap_year(y: int) -> bool {
    y % 4 == 0 && (y % 100 != 0 || y % 400 == 0)
}

/// The number of days in year `y`.
pub open spec fn year_days(y: int) -> nat {
    if is_leap_year(y) {
        366
    } else {
        365
    }
}

/// The number of days in month `m` (1 to 12) of year `y`.
pub open spec fn month_days(y: int, m: int) -> nat {
    if m == 2 {
        if is_leap_year(y) {
            29
        } else {
            28
        }
    } else if m == 4 || m == 6 || m == 9 || m == 11 {
        30
    } else {
        31
    }
}

/// The date `days` days after the first of month `m` of year `y`, as year,
/// month and day of the month.
pub open spec fn date_in_year(y: int, m: int, days: nat) -> (int, int, nat)
    decreases 12 - m,
{
    if 1 <= m < 12 && days >= month_days(y, m) {
        date_in_year(y, m + 1, (days - month_days(y, m)) as nat)
    } else {
        (y, m, days + 1)
    }
}

/// The date `days` days after the first of January of year `y`.
pub open spec fn date_from_year(y: int, days: nat) -> (int, int, nat)
    decreases days,
{
    if days >= year_days(y) {
        date_from_year(y + 1, (days - year_days(y)) as nat)
    } else {
        date_in_year(y, 1, days)
    }
}

/// The date `days` days after 1970-01-01.
pub open spec fn civil_date(days: nat) -> (int, int, nat) {
    date_from_year(1970, days)
}

/// Year, month and day form a date of the calendar.
pub open spec fn valid_date(d: (int, int, nat)) -> bool {
    1 <= d.1 <= 12 && 1 <= d.2 <= month_days(d.0, d.1)
}

/// The days of the `k` years from year `y` on.
pub open spec fn years_days(y: int, k: nat) -> nat
    decreases k,
{
    if k == 0 {
        0
    } else {
        year_days(y) + years_days(y + 1, (k - 1) as nat)
    }
}

/// The days of the months `m` to 12 of year `y`.
pub open spec fn days_left(y: int, m: int) -> nat
    decreases 13 - m,
{
    if m > 12 {
        0
    } else {
        month_days(y, m) + days_left(y, m + 1)
    }
}

proof fn lemma_skip_years(y: int, days: nat, k: nat)
    ensures
        date_from_year(y, days + years_days(y, k)) == date_from_year(y + k, days),
    decreases k,
{
    if k > 0 {
        lemma_skip_years(y + 1, days, (k - 1) as nat);
        assert((days + years_days(y, k)) - year_days(y) == days + years_days(y + 1, (k - 1) as nat));
    }
}

proof fn lemma_year_days_period(y: int)
    ensures
        year_days(y + 400) == year_days(y),
{
    assert((y + 400) % 4 == y % 4);
    assert((y + 400) % 100 == y % 100);
    assert((y + 400) % 400 == y % 400);
}

proof fn lemma_years_days_split(y: int, k: nat)
    ensures
        years_days(y, k + 1) == years_days(y, k) + year_days(y + k),
{
    lemma_years_days_concat(y, k, 1);
    assert(years_days(y + k, 1) == year_days(y + k) + years_days(y + k + 1, 0));
}

proof fn lemma_years_days_concat(y: int, a: nat, b: nat)
    ensures
        years_days(y, a + b) == years_days(y, a) + years_days(y + a, b),
    decreases a,
{
    if a > 0 {
        lemma_years_days_concat(y + 1, (a - 1) as nat, b);
        assert((a + b - 1) as nat == (a - 1) as nat + b);
    }
}

proof fn lemma_four_years(y: int)
    requires
        y % 4 == 0,
    ensures
        years_days(y, 4) == 3 * 365 + year_days(y),
{
    reveal_with_fuel(years_days, 5);
    assert((y + 1) % 4 == 1 && (y + 2) % 4 == 2 && (y + 3) % 4 == 3);
}

proof fn lemma_leap_quads(y: int, n: nat)
    requires
        y % 4 == 0,
        4 <= y % 100,
        y % 100 + 4 * n <= 100,
    ensures
        years_days(y, 4 * n) == 1461 * n,
    decreases n,
{
    if n > 0 {
        lemma_four_years(y);
        assert(y % 100 != 0);
        lemma_years_days_concat(y, 4, (4 * (n - 1)) as nat);
        assert(4 + (4 * (n - 1)) as nat == 4 * n);
        if n > 1 {
            assert((y + 4) % 100 == y % 100 + 4);
            assert((y + 4) % 4 == 0);
            lemma_leap_quads(y + 4, (n - 1) as nat);
        } else {
            assert(years_days(y + 4, 0) == 0);
        }
    }
}

proof fn lemma_century(y: int)
    requires
        y % 100 == 0,
    ensures
        years_days(y, 100) == 36524 + (if y % 400 == 0 { 1nat } else { 0nat }),
{
    assert(y % 4 == 0);
    lemma_four_years(y);
    lemma_years_days_concat(y, 4, 96);
    assert((y + 4) % 100 == 4 && (y + 4) % 4 == 0);
    lemma_leap_quads(y + 4, 24);
}

proof fn lemma_first_cycle()
    ensures
        years_days(0, 400) == 146097,
{
    lemma_years_days_concat(0, 100, 300);
    lemma_years_days_concat(100, 100, 200);
    lemma_years_days_concat(200, 100, 100);
    lemma_century(0);
    lemma_century(100);
    lemma_century(200);
    lemma_century(300);
}

proof fn lemma_cycle_days(y: nat)
    ensures
        years_days(y as int, 400) == 146097,
    decreases y,
{
    if y == 0 {
        lemma_first_cycle();
    } else {
        let p = (y - 1) as int;
        lemma_cycle_days((y - 1) as nat);
        lemma_years_days_split(p, 400);
        lemma_year_days_period(p);
        assert(years_days(p, 401) == year_days(p) + years_days(p + 1, 400));
    }
}

proof fn lemma_skip_cycles(y: nat, days: nat, q: nat)
    ensures
        date_from_year(y as int, days + 146097 * q) == date_from_year((y + 400 * q) as int, days),
    decreases q,
{
    if q > 0 {
        lemma_cycle_days(y);
        lemma_skip_years(y as int, (days + 146097 * (q - 1)) as nat, 400);
        assert(days + 146097 * (q - 1) + 146097 == days + 146097 * q);
        lemma_skip_cycles(y + 400, days, (q - 1) as nat);
        assert(y + 400 + 400 * (q - 1) == y + 400 * q);
    }
}

proof fn lemma_date_in_year_valid(y: int, m: int, days: nat)
    requires
        1 <= m <= 12,
        days < days_left(y, m),
    ensures
        valid_date(date_in_year(y, m, days)),
        date_in_year(y, m, days).0 == y,
    decreases 12 - m,
{
    if m < 12 && days >= month_days(y, m) {
        lemma_date_in_year_valid(y, m + 1, (days - month_days(y, m)) as nat);
    } else if m == 12 {
        assert(days_left(y, 13) == 0);
    }
}

proof fn lemma_year_is_its_months(y: int)
    ensures
        days_left(y, 1) == year_days(y),
{
    reveal_with_fuel(days_left, 13);
}

proof fn lemma_date_from_year_valid(y: int, days: nat)
    ensures
        valid_date(date_from_year(y, days)),
        date_from_year(y, days).0 >= y,
    decreases days,
{
    if days >= year_days(y) {
        lemma_date_from_year_valid(y + 1, (days - year_days(y)) as nat);
    } else {
        lemma_year_is_its_months(y);
        lemma_date_in_year_valid(y, 1, days);
    }
}

/// Every day from the epoch on falls on a date of the calendar: a month from
/// 1 to 12, a day that the month has, in 1970 or later.
pub proof fn lemma_civil_date_valid(days: nat)
    ensures
        valid_date(civil_date(days)),
        civil_date(days).0 >= 1970,
{
    lemma_date_from_year_valid(1970, days);
}

fn year_length(y: u64) -> (r: u64)
    ensures
        r == year_days(y as int),
{
    if y % 4 == 0 && (y % 100 != 0 || y % 400 == 0) {
        366
    } else {
        365
    }
}

fn month_length(y: u64, m: u64) -> (r: u64)
    ensures
        r == month_days(y as int, m as int),
{
    if m == 2 {
        if y % 4 == 0 && (y % 100 != 0 || y % 400 == 0) {
            29
        } else {
            28
        }
    } else if m == 4 || m == 6 || m == 9 || m == 11 {
        30
    } else {
        31
    }
}

/// The date `days` days after 1970-01-01, as year, month and day.
pub fn civil_from_days(days: u64) -> (r: (u64, u64, u64))
    requires
        days <= u64::MAX / 86400,
    ensures
        r.0 as int == civil_date(days as nat).0,
        r.1 as int == civil_date(days as nat).1,
        r.2 as nat == civil_date(days as nat).2,
{
    let cycles = days / 146097;
    let mut left: u64 = days % 146097;
    let mut y: u64 = 1970 + 400 * cycles;
    proof {
        lemma_skip_cycles(1970, left as nat, cycles as nat);
    }
    while left >= year_length(y)
        invariant
            left <= days <= u64::MAX / 86400,
            1970 <= y,
            y - 1970 <= days - left,
            date_from_year(y as int, left as nat) == civil_date(days as nat),
        decreases left,
    {
        let n = year_length(y);
        left = left - n;
        y = y + 1;
    }
    assert(date_from_year(y as int, left as nat) == date_in_year(y as int, 1, left as nat));
    let mut m: u64 = 1;
    while m < 12 && left >= month_length(y, m)
        invariant
            1 <= m <= 12,
            left <= days,
            date_in_year(y as int, m as int, left as nat) == civil_date(days as nat),
        decreases 12 - m,
    {
        let n = month_length(y, m);
        left = left - n;
        m = m + 1;
    }
    (y, m, left + 1)
}

} // verus!
