//! Budget variance report: the budget periods of each fiscal year, the month
//! arithmetic behind them, the budget queries and the report's columns.
use vstd::prelude::*;
use crate::calendar::{days_in_month, is_leap};
use crate::text::{joined, join_strs, concat, i64_text, int_text, owned, parse_i32, parse_i32_spec, parse_u32, parse_u32_spec, scrub_runs, scrubbed_runs, split_char, split_on, str_eq};

verus! {

#[derive(Debug, PartialEq, Eq)]
pub struct BudgetVarianceFilters {
    pub company: String,
    pub budget_against: String,
    pub from_fiscal_year: String,
    pub to_fiscal_year: String,
    pub period: String,
    pub show_cumulative: bool,
    pub budget_against_filter: Option<Vec<String>>,
}

#[derive(Debug, PartialEq, Eq)]
pub struct FiscalYear {
    pub name: String,
    pub year_start_date: String,
    pub year_end_date: String,
}

/// A calendar date as the report reads it; the parts need not make a valid date.
#[derive(Clone, Copy, Debug, PartialEq, Eq, Structural)]
pub struct ErpDate {
    pub year: i32,
    pub month: u32,
    pub day: u32,
}

/// Dates ordered by year, then month, then day.
pub open spec fn before_or_on(a: ErpDate, b: ErpDate) -> bool {
    a.year < b.year || (a.year == b.year && (a.month < b.month || (a.month == b.month && a.day <= b.day)))
}

fn date_le(a: ErpDate, b: ErpDate) -> (r: bool)
    ensures
        r == before_or_on(a, b),
{
    a.year < b.year || (a.year == b.year && (a.month < b.month || (a.month == b.month && a.day <= b.day)))
}

/// Length of a month; 30 for a number that is no month.
pub open spec fn month_days(year: int, month: int) -> int {
    if month == 1 || month == 3 || month == 5 || month == 7 || month == 8 || month == 10 || month == 12 {
        31
    } else if month == 4 || month == 6 || month == 9 || month == 11 {
        30
    } else if month == 2 {
        if is_leap(year) { 29 } else { 28 }
    } else {
        30
    }
}

fn is_leap_year(year: i32) -> (r: bool)
    ensures
        r == is_leap(year as int),
{
    crate::calendar::is_leap_year(year)
}

fn last_day_of_month(year: i32, month: u32) -> (r: u32)
    ensures
        r == month_days(year as int, month as int),
{
    if month == 1 || month == 3 || month == 5 || month == 7 || month == 8 || month == 10 || month == 12 {
        31
    } else if month == 4 || month == 6 || month == 9 || month == 11 {
        30
    } else if month == 2 {
        if is_leap_year(year) { 29 } else { 28 }
    } else {
        30
    }
}

/// The following day: the next day of the month, else the first of the next
/// month, else the first of January of the next year.
pub open spec fn following_day(d: ErpDate) -> ErpDate {
    if (d.day as int) < month_days(d.year as int, d.month as int) {
        ErpDate { day: (d.day + 1) as u32, ..d }
    } else if d.month < 12 {
        ErpDate { year: d.year, month: (d.month + 1) as u32, day: 1 }
    } else {
        ErpDate { year: (d.year + 1) as i32, month: 1, day: 1 }
    }
}

/// The preceding day: the previous day of the month, else the last day of the
/// previous month, else the 31st of December of the previous year.
pub open spec fn preceding_day(d: ErpDate) -> ErpDate {
    if d.day > 1 {
        ErpDate { day: (d.day - 1) as u32, ..d }
    } else if d.month > 1 {
        ErpDate { year: d.year, month: (d.month - 1) as u32, day: month_days(d.year as int, d.month - 1) as u32 }
    } else {
        ErpDate { year: (d.year - 1) as i32, month: 12, day: 31 }
    }
}

/// `n` days later (earlier for negative `n`), one day at a time.
pub open spec fn days_later(d: ErpDate, n: int) -> ErpDate
    decreases (if n >= 0 { n } else { -n }),
{
    if n == 0 {
        d
    } else if n > 0 {
        days_later(following_day(d), n - 1)
    } else {
        days_later(preceding_day(d), n + 1)
    }
}

/// A real calendar date, with room for a year on either side.
pub open spec fn valid_erp_date(d: ErpDate) -> bool {
    &&& 1 <= d.month <= 12
    &&& 1 <= d.day <= month_days(d.year as int, d.month as int)
    &&& i32::MIN < d.year < i32::MAX
}

/// The day after the day before, and the day before the day after, are the
/// day itself; the day before comes strictly before it and the day after
/// strictly after; both are real dates, in the same year or the next or
/// previous one.
pub proof fn lemma_following_preceding(d: ErpDate)
    requires
        valid_erp_date(d),
    ensures
        preceding_day(following_day(d)) == d,
        following_day(preceding_day(d)) == d,
        before_or_on(d, following_day(d)) && !before_or_on(following_day(d), d),
        before_or_on(preceding_day(d), d) && !before_or_on(d, preceding_day(d)),
        1 <= following_day(d).month <= 12,
        1 <= following_day(d).day <= month_days(following_day(d).year as int, following_day(d).month as int),
        d.year <= following_day(d).year <= d.year + 1,
        1 <= preceding_day(d).month <= 12,
        1 <= preceding_day(d).day <= month_days(preceding_day(d).year as int, preceding_day(d).month as int),
        d.year - 1 <= preceding_day(d).year <= d.year,
{
}

/// Moving `a` days and then `b` days forward is moving `a + b` days; the
/// same holds backward; moving no days stays put.
pub proof fn lemma_days_later_compose(d: ErpDate, a: int, b: int)
    requires
        (a >= 0 && b >= 0) || (a <= 0 && b <= 0),
    ensures
        days_later(d, 0) == d,
        days_later(days_later(d, a), b) == days_later(d, a + b),
    decreases (if a >= 0 { a } else { -a }),
{
    if a > 0 {
        lemma_days_later_compose(following_day(d), a - 1, b);
    } else if a < 0 {
        lemma_days_later_compose(preceding_day(d), a + 1, b);
    }
}

proof fn lemma_forward_valid(d: ErpDate, n: int)
    requires
        valid_erp_date(d),
        n >= 0,
        d.year + n < i32::MAX,
    ensures
        valid_erp_date(days_later(d, n)),
        d.year <= days_later(d, n).year <= d.year + n,
        n > 0 ==> days_later(d, n) == following_day(days_later(d, n - 1)),
    decreases n,
{
    if n > 0 {
        lemma_forward_valid(d, n - 1);
        lemma_following_preceding(days_later(d, n - 1));
        lemma_days_later_compose(d, n - 1, 1);
        reveal_with_fuel(days_later, 2);
        assert(days_later(days_later(d, n - 1), 1) == following_day(days_later(d, n - 1)));
    }
}

/// Moving `n` days forward and then `n` days back returns to the date, and
/// moving one day either way is the following or preceding day.
pub proof fn lemma_days_later_inverse(d: ErpDate, n: int)
    requires
        valid_erp_date(d),
        n >= 0,
        d.year + n < i32::MAX,
    ensures
        days_later(days_later(d, n), -n) == d,
        days_later(d, 1) == following_day(d),
        days_later(d, -1) == preceding_day(d),
    decreases n,
{
    reveal_with_fuel(days_later, 2);
    if n > 0 {
        lemma_days_later_inverse(d, n - 1);
        lemma_forward_valid(d, n);
        let before = days_later(d, n - 1);
        lemma_forward_valid(d, n - 1);
        lemma_following_preceding(before);
        assert(days_later(days_later(d, n), -n) == days_later(preceding_day(days_later(d, n)), -n + 1));
    }
}

proof fn lemma_backward_valid(d: ErpDate, n: int)
    requires
        valid_erp_date(d),
        n >= 0,
        d.year - n > i32::MIN,
    ensures
        valid_erp_date(days_later(d, -n)),
        d.year - n <= days_later(d, -n).year <= d.year,
        n > 0 ==> days_later(d, -n) == preceding_day(days_later(d, -(n - 1))),
    decreases n,
{
    if n > 0 {
        lemma_backward_valid(d, n - 1);
        lemma_following_preceding(days_later(d, -(n - 1)));
        lemma_days_later_compose(d, -(n - 1), -1);
        reveal_with_fuel(days_later, 2);
        assert(days_later(days_later(d, -(n - 1)), -1) == preceding_day(days_later(d, -(n - 1))));
    }
}

/// Moving `n` days back and then `n` days forward returns to the date.
pub proof fn lemma_days_earlier_inverse(d: ErpDate, n: int)
    requires
        valid_erp_date(d),
        n >= 0,
        d.year - n > i32::MIN,
    ensures
        days_later(days_later(d, -n), n) == d,
    decreases n,
{
    reveal_with_fuel(days_later, 2);
    if n > 0 {
        lemma_days_earlier_inverse(d, n - 1);
        lemma_backward_valid(d, n);
        let before = days_later(d, -(n - 1));
        lemma_backward_valid(d, n - 1);
        lemma_following_preceding(before);
        assert(days_later(days_later(d, -n), n) == days_later(following_day(days_later(d, -n)), n - 1));
    }
}

/// Moving `n` days, either way, and then `n` days back returns to the date,
/// as long as the years passed through stay strictly inside 32 bits.
pub proof fn lemma_days_later_round_trip(d: ErpDate, n: int)
    requires
        valid_erp_date(d),
        d.year + n < i32::MAX,
        d.year - n < i32::MAX,
        d.year + n > i32::MIN,
        d.year - n > i32::MIN,
    ensures
        days_later(days_later(d, n), -n) == d,
{
    if n >= 0 {
        lemma_days_later_inverse(d, n);
    } else {
        lemma_days_earlier_inverse(d, -n);
    }
}

/// The month count from year zero's January of the month `months` later, with
/// the month read as `i32` the way the report casts it.
pub open spec fn shifted_month_index(d: ErpDate, months: int) -> int {
    (d.month as i32) as int - 1 + months
}

/// Whether shifting `d` by `months` stays inside 32-bit arithmetic.
pub open spec fn months_shift_fits(d: ErpDate, months: int) -> bool {
    let zero_based = shifted_month_index(d, months);
    &&& (d.month as i32) as int - 1 >= i32::MIN
    &&& i32::MIN <= zero_based <= i32::MAX
    &&& i32::MIN <= d.year + zero_based / 12 <= i32::MAX
}

/// The same day `months` months later, clamped to the length of that month.
pub open spec fn months_later(d: ErpDate, months: int) -> ErpDate {
    let zero_based = shifted_month_index(d, months);
    let year = d.year + zero_based / 12;
    let month = zero_based % 12 + 1;
    let last = month_days(year, month);
    ErpDate { year: year as i32, month: month as u32, day: if (d.day as int) < last { d.day } else { last as u32 } }
}

impl ErpDate {
    pub fn next_day(self) -> (r: Self)
        requires
            self.year < i32::MAX,
        ensures
            r == following_day(self),
    {
        let month_last_day = last_day_of_month(self.year, self.month);
        if self.day < month_last_day {
            ErpDate { day: self.day + 1, ..self }
        } else if self.month < 12 {
            ErpDate { year: self.year, month: self.month + 1, day: 1 }
        } else {
            ErpDate { year: self.year + 1, month: 1, day: 1 }
        }
    }

    pub fn previous_day(self) -> (r: Self)
        requires
            self.year > i32::MIN,
        ensures
            r == preceding_day(self),
    {
        if self.day > 1 {
            ErpDate { day: self.day - 1, ..self }
        } else if self.month > 1 {
            let month = self.month - 1;
            ErpDate { year: self.year, month, day: last_day_of_month(self.year, month) }
        } else {
            ErpDate { year: self.year - 1, month: 12, day: 31 }
        }
    }

    pub fn add_days(self, days: i32) -> (r: Self)
        requires
            days >= 0 ==> self.year + days <= i32::MAX,
            days < 0 ==> self.year + days >= i32::MIN,
        ensures
            r == days_later(self, days as int),
    {
        let mut date = self;
        if days >= 0 {
            let mut i: i32 = 0;
            while i < days
                invariant
                    0 <= i <= days,
                    self.year <= date.year <= self.year + i,
                    self.year + days <= i32::MAX,
                    days_later(self, days as int) == days_later(date, (days - i) as int),
                decreases days - i,
            {
                date = date.next_day();
                i = i + 1;
            }
        } else {
            let mut i: i32 = days;
            while i < 0
                invariant
                    days <= i <= 0,
                    self.year - (i - days) <= date.year <= self.year,
                    self.year + days >= i32::MIN,
                    days_later(self, days as int) == days_later(date, i as int),
                decreases 0 - i,
            {
                date = date.previous_day();
                i = i + 1;
            }
        }
        date
    }

    pub fn add_months(self, months: i32) -> (r: Self)
        requires
            months_shift_fits(self, months as int),
        ensures
            r == months_later(self, months as int),
    {
        let zero_based: i32 = self.month as i32 - 1 + months;
        let mut quotient: i32 = zero_based / 12;
        let mut remainder: i32 = zero_based % 12;
        if remainder < 0 {
            remainder = remainder + 12;
            quotient = quotient - 1;
        }
        proof {
            vstd::arithmetic::div_mod::lemma_fundamental_div_mod_converse(zero_based as int, 12, quotient as int, remainder as int);
        }
        let year: i32 = self.year + quotient;
        let month: u32 = remainder as u32 + 1;
        let last = last_day_of_month(year, month);
        let day = if self.day < last { self.day } else { last };
        ErpDate { year, month, day }
    }
}


/// Month 1 to 12 and a day of at most 31.
pub open spec fn normalized(d: ErpDate) -> bool {
    1 <= d.month <= 12 && d.day <= 31
}

/// A number that grows with the date order among normalized dates.
pub open spec fn rank(d: ErpDate) -> int {
    d.year * 416 + d.month * 32 + d.day
}

pub proof fn lemma_rank_order(a: ErpDate, b: ErpDate)
    requires
        normalized(a),
        before_or_on(a, b),
    ensures
        rank(a) <= rank(b),
        normalized(b) && !before_or_on(b, a) ==> rank(a) < rank(b),
{
    if a.year < b.year {
        assert(a.year * 416 + 416 <= b.year * 416) by (nonlinear_arith)
            requires a.year < b.year;
    }
}

pub proof fn lemma_month_step(d: ErpDate, months: int)
    requires
        normalized(d),
        1 <= months <= 12,
        i32::MIN < d.year < i32::MAX,
    ensures
        months_shift_fits(d, months),
        normalized(months_later(d, months)),
        before_or_on(d, months_later(d, months)),
        !before_or_on(months_later(d, months), d),
        months_later(d, months).year <= d.year + 1,
        months_later(d, months).year >= d.year,
        months_later(d, months).day >= 1 || d.day < 1,
{
    let zero_based = shifted_month_index(d, months);
    assert((d.month as i32) as int == d.month as int);
    assert(0 <= zero_based < 24);
    assert(zero_based / 12 == 0 || zero_based / 12 == 1);
}

/// The first of each month from `current` on, by steps of one month, while
/// not after `end`.
pub open spec fn month_run(current: ErpDate, end: ErpDate) -> Seq<ErpDate>
    decreases rank(end) - rank(current) when normalized(current) && end.year < i32::MAX && current.year > i32::MIN
{
    if before_or_on(current, end) {
        let next = months_later(current, 1);
        proof {
            lemma_month_step(current, 1);
            lemma_rank_order(current, end);
            lemma_rank_order(current, next);
        }
        seq![current] + if before_or_on(next, end) { month_run(next, end) } else { Seq::empty() }
    } else {
        Seq::empty()
    }
}

/// The dates one month apart from `start` while not after `end`.
pub open spec fn month_dates(start: ErpDate, end: ErpDate) -> Seq<ErpDate> {
    if before_or_on(start, end) {
        let next = months_later(start, 1);
        seq![start] + if before_or_on(next, end) { month_run(next, end) } else { Seq::empty() }
    } else {
        Seq::empty()
    }
}

/// The dates from `start` to `end` can be stepped through by months within
/// 32-bit arithmetic.
pub open spec fn month_steps_fit(start: ErpDate, end: ErpDate) -> bool {
    &&& months_shift_fits(start, 1)
    &&& end.year < i32::MAX
    &&& months_later(start, 1).year > i32::MIN
}

fn month_dates_between(start: ErpDate, end: ErpDate) -> (r: Vec<ErpDate>)
    requires
        month_steps_fit(start, end),
    ensures
        r@ == month_dates(start, end),
{
    let mut months: Vec<ErpDate> = Vec::new();
    if !date_le(start, end) {
        return months;
    }
    months.push(start);
    let mut current = start.add_months(1);
    proof {
        assert(months_later(start, 1).month >= 1);
    }
    let ghost first_next = current;
    assert(normalized(current)) by {
        assert(1 <= months_later(start, 1).month <= 12);
        assert(months_later(start, 1).day <= 31);
    }
    while date_le(current, end)
        invariant
            normalized(current),
            end.year < i32::MAX,
            current.year > i32::MIN,
            month_dates(start, end) == months@ + if before_or_on(current, end) { month_run(current, end) } else { Seq::<ErpDate>::empty() },
        decreases if before_or_on(current, end) { rank(end) - rank(current) + 1 } else { 0 },
    {
        proof {
            lemma_month_step(current, 1);
            lemma_rank_order(current, end);
            lemma_rank_order(current, months_later(current, 1));
        }
        let ghost before = months@;
        months.push(current);
        let next = current.add_months(1);
        assert(months@ + (if before_or_on(next, end) { month_run(next, end) } else { Seq::<ErpDate>::empty() })
            =~= before + month_run(current, end));
        current = next;
    }
    assert(months@ =~= month_dates(start, end));
    months
}


/// The month's name; empty for a number that is no month.
pub open spec fn spec_month_name(month: u32) -> Seq<char> {
    if month == 1 { "January"@ }
    else if month == 2 { "February"@ }
    else if month == 3 { "March"@ }
    else if month == 4 { "April"@ }
    else if month == 5 { "May"@ }
    else if month == 6 { "June"@ }
    else if month == 7 { "July"@ }
    else if month == 8 { "August"@ }
    else if month == 9 { "September"@ }
    else if month == 10 { "October"@ }
    else if month == 11 { "November"@ }
    else if month == 12 { "December"@ }
    else { ""@ }
}

pub fn month_name(month: u32) -> (r: &'static str)
    ensures
        r@ == spec_month_name(month),
{
    if month == 1 {
        "January"
    } else if month == 2 {
        "February"
    } else if month == 3 {
        "March"
    } else if month == 4 {
        "April"
    } else if month == 5 {
        "May"
    } else if month == 6 {
        "June"
    } else if month == 7 {
        "July"
    } else if month == 8 {
        "August"
    } else if month == 9 {
        "September"
    } else if month == 10 {
        "October"
    } else if month == 11 {
        "November"
    } else if month == 12 {
        "December"
    } else {
        ""
    }
}

/// The month's three-letter name; empty for a number that is no month.
pub open spec fn spec_month_abbr(month: u32) -> Seq<char> {
    if month == 1 { "Jan"@ }
    else if month == 2 { "Feb"@ }
    else if month == 3 { "Mar"@ }
    else if month == 4 { "Apr"@ }
    else if month == 5 { "May"@ }
    else if month == 6 { "Jun"@ }
    else if month == 7 { "Jul"@ }
    else if month == 8 { "Aug"@ }
    else if month == 9 { "Sep"@ }
    else if month == 10 { "Oct"@ }
    else if month == 11 { "Nov"@ }
    else if month == 12 { "Dec"@ }
    else { ""@ }
}

fn month_abbr(month: u32) -> (r: &'static str)
    ensures
        r@ == spec_month_abbr(month),
{
    if month == 1 {
        "Jan"
    } else if month == 2 {
        "Feb"
    } else if month == 3 {
        "Mar"
    } else if month == 4 {
        "Apr"
    } else if month == 5 {
        "May"
    } else if month == 6 {
        "Jun"
    } else if month == 7 {
        "Jul"
    } else if month == 8 {
        "Aug"
    } else if month == 9 {
        "Sep"
    } else if month == 10 {
        "Oct"
    } else if month == 11 {
        "Nov"
    } else if month == 12 {
        "Dec"
    } else {
        ""
    }
}

/// A `year-month-day` text read part by part: a part that is missing or does
/// not read as a number counts as year 0, month 1 or day 1.
pub open spec fn read_date(value: Seq<char>) -> ErpDate {
    let parts = split_on(value, '-');
    ErpDate {
        year: match parse_i32_spec(parts[0]) { Some(v) => v, None => 0 },
        month: if parts.len() > 1 { match parse_u32_spec(parts[1]) { Some(v) => v, None => 1 } } else { 1 },
        day: if parts.len() > 2 { match parse_u32_spec(parts[2]) { Some(v) => v, None => 1 } } else { 1 },
    }
}

pub fn parse_date(value: &str) -> (r: ErpDate)
    ensures
        r == read_date(value@),
{
    let parts = split_char(value, '-');
    proof { crate::text::lemma_split_on_len(value@, '-'); }
    assert(parts.deep_view()[0] == parts@[0]@);
    let year = match parse_i32(parts[0].as_str()) {
        Some(v) => v,
        None => 0,
    };
    let month = if parts.len() > 1 {
        assert(parts.deep_view()[1] == parts@[1]@);
        match parse_u32(parts[1].as_str()) {
            Some(v) => v,
            None => 1,
        }
    } else {
        1
    };
    let day = if parts.len() > 2 {
        assert(parts.deep_view()[2] == parts@[2]@);
        match parse_u32(parts[2].as_str()) {
            Some(v) => v,
            None => 1,
        }
    } else {
        1
    };
    ErpDate { year, month, day }
}

pub fn get_months_in_range(start_date: &str, end_date: &str) -> (r: Vec<ErpDate>)
    requires
        month_steps_fit(read_date(start_date@), read_date(end_date@)),
    ensures
        r@ == month_dates(read_date(start_date@), read_date(end_date@)),
{
    let start = parse_date(start_date);
    let end = parse_date(end_date);
    month_dates_between(start, end)
}

/// The month names of the dates.
pub open spec fn month_names(dates: Seq<ErpDate>) -> Seq<Seq<char>> {
    dates.map_values(|d: ErpDate| spec_month_name(d.month))
}

pub fn get_months_between(from_date: ErpDate, to_date: ErpDate) -> (r: Vec<String>)
    requires
        month_steps_fit(from_date, to_date),
    ensures
        r.deep_view() == month_names(month_dates(from_date, to_date)),
{
    let dates = month_dates_between(from_date, to_date);
    let mut months: Vec<String> = Vec::new();
    let mut i: usize = 0;
    while i < dates.len()
        invariant
            i <= dates@.len(),
            months.deep_view() == month_names(dates@.subrange(0, i as int)),
        decreases dates@.len() - i,
    {
        let ghost before = months.deep_view();
        let name = owned(month_name(dates[i].month));
        months.push(name);
        assert(months.deep_view() =~= before.push(name@));
        assert(month_names(dates@.subrange(0, i + 1)) =~= month_names(dates@.subrange(0, i as int)).push(spec_month_name(dates@[i as int].month)));
        i = i + 1;
    }
    assert(dates@.subrange(0, i as int) =~= dates@);
    months
}

/// The name of the first fiscal year whose dates hold `date`; else the date's
/// year written out.
pub open spec fn fiscal_year_name(date: ErpDate, fiscal_years: Seq<FiscalYear>) -> Seq<char>
    decreases fiscal_years.len(),
{
    if fiscal_years.len() == 0 {
        int_text(date.year as int)
    } else {
        let fy = fiscal_years[0];
        if before_or_on(read_date(fy.year_start_date@), date) && before_or_on(date, read_date(fy.year_end_date@)) {
            fy.name@
        } else {
            fiscal_year_name(date, fiscal_years.skip(1))
        }
    }
}

pub fn fiscal_year_for_date(date: ErpDate, fiscal_years: &Vec<FiscalYear>) -> (r: String)
    ensures
        r@ == fiscal_year_name(date, fiscal_years@),
{
    let mut i: usize = 0;
    assert(fiscal_years@.skip(0) =~= fiscal_years@);
    while i < fiscal_years.len()
        invariant
            i <= fiscal_years@.len(),
            fiscal_year_name(date, fiscal_years@) == fiscal_year_name(date, fiscal_years@.skip(i as int)),
        decreases fiscal_years@.len() - i,
    {
        let fy = &fiscal_years[i];
        assert(fiscal_years@.skip(i as int)[0] == *fy);
        assert(fiscal_years@.skip(i as int).skip(1) =~= fiscal_years@.skip(i + 1));
        if date_le(parse_date(fy.year_start_date.as_str()), date) && date_le(date, parse_date(fy.year_end_date.as_str())) {
            return fy.name.clone();
        }
        i = i + 1;
    }
    assert(fiscal_years@.skip(i as int) =~= Seq::<FiscalYear>::empty());
    i64_text(date.year as i64)
}

pub fn scrub(value: &str) -> (r: String)
    ensures
        r@ == scrubbed_runs(value@),
{
    scrub_runs(value)
}


/// A budget period of a fiscal year: its dates and its label suffix.
pub struct Period {
    pub fiscal_year: String,
    pub from_date: ErpDate,
    pub to_date: ErpDate,
    pub label_suffix: String,
}

/// fiscal year, from date, to date, label suffix
pub type PeriodView = (Seq<char>, ErpDate, ErpDate, Seq<char>);

impl DeepView for Period {
    type V = PeriodView;

    open spec fn deep_view(&self) -> PeriodView {
        (self.fiscal_year@, self.from_date, self.to_date, self.label_suffix@)
    }
}

/// Months per period: 12 yearly, 6 half-yearly, 3 quarterly, else 1.
pub open spec fn period_step(period: Seq<char>) -> int {
    if period == "Yearly"@ { 12 } else if period == "Half-Yearly"@ { 6 } else if period == "Quarterly"@ { 3 } else { 1 }
}

/// The label suffix of a period: the fiscal year yearly, the month monthly,
/// else the first and last month.
pub open spec fn period_suffix(period: Seq<char>, fiscal_year: Seq<char>, from: ErpDate, to: ErpDate) -> Seq<char> {
    if period == "Yearly"@ {
        fiscal_year
    } else if period == "Monthly"@ {
        spec_month_abbr(from.month)
    } else {
        spec_month_abbr(from.month) + "-"@ + spec_month_abbr(to.month)
    }
}

/// The English month names and their three-letter forms: distinct months
/// have distinct names and distinct three-letter names, and each three-letter
/// name is the first three letters of the month's name.
pub proof fn lemma_month_names(m1: u32, m2: u32)
    requires
        1 <= m1 <= 12,
        1 <= m2 <= 12,
    ensures
        spec_month_name(m1).len() >= 3,
        spec_month_abbr(m1).len() == 3,
        spec_month_abbr(m1) == spec_month_name(m1).subrange(0, 3),
        m1 != m2 ==> spec_month_name(m1) != spec_month_name(m2),
        m1 != m2 ==> spec_month_abbr(m1) != spec_month_abbr(m2),
{
    reveal_strlit("January"); reveal_strlit("February"); reveal_strlit("March"); reveal_strlit("April");
    reveal_strlit("May"); reveal_strlit("June"); reveal_strlit("July"); reveal_strlit("August");
    reveal_strlit("September"); reveal_strlit("October"); reveal_strlit("November"); reveal_strlit("December");
    reveal_strlit("Jan"); reveal_strlit("Feb"); reveal_strlit("Mar"); reveal_strlit("Apr");
    reveal_strlit("Jun"); reveal_strlit("Jul"); reveal_strlit("Aug");
    reveal_strlit("Sep"); reveal_strlit("Oct"); reveal_strlit("Nov"); reveal_strlit("Dec");
    assert(spec_month_abbr(m1) =~= spec_month_name(m1).subrange(0, 3));
    if m1 != m2 {
        let a = spec_month_abbr(m1);
        let b = spec_month_abbr(m2);
        assert(a != b) by {
            if a == b {
                assert(a[0] == b[0] && a[1] == b[1] && a[2] == b[2]);
            }
        }
        assert(spec_month_abbr(m2) =~= spec_month_name(m2).subrange(0, 3));
        let x = spec_month_name(m1);
        let y = spec_month_name(m2);
        if x == y {
            assert(x.subrange(0, 3) == y.subrange(0, 3));
            assert(a == b);
        }
    }
}

/// The month names follow the calendar: the months of thirty days are
/// April, June, September and November, and February is the one month of
/// fewer days.
pub proof fn lemma_month_names_calendar(y: int, m: u32)
    requires
        1 <= m <= 12,
    ensures
        (days_in_month(y, m as int) == 30) <==> (spec_month_name(m) == "April"@ || spec_month_name(m) == "June"@
            || spec_month_name(m) == "September"@ || spec_month_name(m) == "November"@),
        (days_in_month(y, m as int) < 30) <==> spec_month_name(m) == "February"@,
{
    reveal_strlit("January"); reveal_strlit("February"); reveal_strlit("March"); reveal_strlit("April");
    reveal_strlit("May"); reveal_strlit("June"); reveal_strlit("July"); reveal_strlit("August");
    reveal_strlit("September"); reveal_strlit("October"); reveal_strlit("November"); reveal_strlit("December");
    let n = spec_month_name(m);
    assert(n.len() >= 3);
    if n == "April"@ { assert(n[0] == "April"@[0] && n[1] == "April"@[1] && n[2] == "April"@[2]); }
    if n == "June"@ { assert(n[0] == "June"@[0] && n[1] == "June"@[1] && n[2] == "June"@[2]); }
    if n == "September"@ { assert(n[0] == "September"@[0] && n[1] == "September"@[1] && n[2] == "September"@[2]); }
    if n == "November"@ { assert(n[0] == "November"@[0] && n[1] == "November"@[1] && n[2] == "November"@[2]); }
    if n == "February"@ { assert(n[0] == "February"@[0] && n[1] == "February"@[1] && n[2] == "February"@[2]); }
}

/// Monthly periods starting in different months have different label
/// suffixes, and each suffix is the first three letters of the name of the
/// month the period starts in.
pub proof fn lemma_monthly_suffixes(fiscal_year: Seq<char>, from1: ErpDate, to1: ErpDate, from2: ErpDate, to2: ErpDate)
    requires
        1 <= from1.month <= 12,
        1 <= from2.month <= 12,
    ensures
        period_suffix("Monthly"@, fiscal_year, from1, to1) == spec_month_name(from1.month).subrange(0, 3),
        from1.month != from2.month ==> period_suffix("Monthly"@, fiscal_year, from1, to1)
            != period_suffix("Monthly"@, fiscal_year, from2, to2),
{
    reveal_strlit("Monthly");
    reveal_strlit("Yearly");
    assert("Monthly"@ != "Yearly"@) by {
        assert("Monthly"@.len() != "Yearly"@.len());
    }
    lemma_month_names(from1.month, from2.month);
}

/// The last day of the period that starts on `from`, at most `end`.
pub open spec fn period_end(from: ErpDate, end: ErpDate, step: int) -> ErpDate {
    let to = preceding_day(months_later(from, step));
    if before_or_on(to, end) { to } else { end }
}

pub proof fn lemma_following(d: ErpDate)
    requires
        d.year < i32::MAX,
    ensures
        before_or_on(d, following_day(d)),
        !before_or_on(following_day(d), d),
        normalized(d) ==> normalized(following_day(d)),
        following_day(d).year <= d.year + 1,
{
}

pub proof fn lemma_period_end_after(from: ErpDate, step: int)
    requires
        normalized(from),
        1 <= step <= 12,
        i32::MIN < from.year < i32::MAX,
    ensures
        before_or_on(from, preceding_day(months_later(from, step))),
        normalized(preceding_day(months_later(from, step))),
        preceding_day(months_later(from, step)).year <= from.year + 1,
{
    lemma_month_step(from, step);
    let zb = shifted_month_index(from, step);
    assert((from.month as i32) as int == from.month as int);
    vstd::arithmetic::div_mod::lemma_fundamental_div_mod(zb, 12);
    let z = months_later(from, step);
    assert(z.year * 12 + z.month - 1 == from.year * 12 + from.month - 1 + step);
}

/// The periods from `from` on, each `step` months long and cut at `end`.
pub open spec fn period_run(from: ErpDate, end: ErpDate, step: int, period: Seq<char>, fiscal_year: Seq<char>) -> Seq<PeriodView>
    decreases rank(end) - rank(from) when normalized(from) && end.year < i32::MAX && from.year > i32::MIN && 1 <= step <= 12
{
    if before_or_on(from, end) {
        let to = period_end(from, end, step);
        let next = following_day(to);
        proof {
            lemma_period_end_after(from, step);
            lemma_following(to);
            lemma_rank_order(from, end);
            lemma_rank_order(from, to);
            if before_or_on(next, end) {
                lemma_rank_order(to, next);
            }
        }
        seq![(fiscal_year, from, to, period_suffix(period, fiscal_year, from, to))]
            + if before_or_on(next, end) { period_run(next, end, step, period, fiscal_year) } else { Seq::empty() }
    } else {
        Seq::empty()
    }
}

/// The periods of a fiscal year from `start` to `end`.
pub open spec fn period_dates(start: ErpDate, end: ErpDate, step: int, period: Seq<char>, fiscal_year: Seq<char>) -> Seq<PeriodView> {
    if before_or_on(start, end) {
        let to = period_end(start, end, step);
        let next = following_day(to);
        seq![(fiscal_year, start, to, period_suffix(period, fiscal_year, start, to))]
            + if before_or_on(next, end) { period_run(next, end, step, period, fiscal_year) } else { Seq::empty() }
    } else {
        Seq::empty()
    }
}

/// The fiscal year's dates can be cut into periods of `step` months within
/// 32-bit arithmetic.
pub open spec fn periods_fit(start: ErpDate, end: ErpDate, step: int) -> bool {
    &&& months_shift_fits(start, step)
    &&& months_later(start, step).year > i32::MIN
    &&& i32::MIN + 1 < start.year
    &&& end.year < i32::MAX - 1
}

fn period_label(period: &str, fiscal_year: &str, from: ErpDate, to: ErpDate) -> (r: String)
    ensures
        r@ == period_suffix(period@, fiscal_year@, from, to),
{
    if str_eq(period, "Yearly") {
        owned(fiscal_year)
    } else if str_eq(period, "Monthly") {
        owned(month_abbr(from.month))
    } else {
        let mut r = concat(month_abbr(from.month), "-");
        r.append(month_abbr(to.month));
        r
    }
}

fn get_period_date_ranges(filters: &BudgetVarianceFilters, fiscal_year: &FiscalYear) -> (r: Vec<Period>)
    requires
        periods_fit(read_date(fiscal_year.year_start_date@), read_date(fiscal_year.year_end_date@), period_step(filters.period@)),
    ensures
        r.deep_view() == period_dates(read_date(fiscal_year.year_start_date@), read_date(fiscal_year.year_end_date@),
            period_step(filters.period@), filters.period@, fiscal_year.name@),
{
    let start = parse_date(fiscal_year.year_start_date.as_str());
    let end = parse_date(fiscal_year.year_end_date.as_str());
    let step_months: i32 = if str_eq(filters.period.as_str(), "Yearly") {
        12
    } else if str_eq(filters.period.as_str(), "Half-Yearly") {
        6
    } else if str_eq(filters.period.as_str(), "Quarterly") {
        3
    } else {
        1
    };
    let ghost step = step_months as int;
    let ghost name = fiscal_year.name@;
    let ghost period = filters.period@;
    let mut periods: Vec<Period> = Vec::new();
    if !date_le(start, end) {
        assert(periods.deep_view() =~= Seq::<PeriodView>::empty());
        return periods;
    }
    let mut from_date = start;
    let first_to = from_date.add_months(step_months).add_days(-1);
    let to_date = if !date_le(first_to, end) { end } else { first_to };
    proof {
        assert(days_later(months_later(from_date, step), -1) == preceding_day(months_later(from_date, step))) by {
            reveal_with_fuel(days_later, 2);
        }
        lemma_following(to_date);
    }
    let label_suffix = period_label(filters.period.as_str(), fiscal_year.name.as_str(), from_date, to_date);
    periods.push(Period { fiscal_year: fiscal_year.name.clone(), from_date, to_date, label_suffix });
    from_date = to_date.add_days(1);
    proof {
        assert(days_later(to_date, 1) == following_day(to_date)) by {
            reveal_with_fuel(days_later, 2);
        }
        if before_or_on(from_date, end) {
            assert(to_date == first_to);
        }
    }
    assert(periods.deep_view() =~= seq![(name, start, to_date, period_suffix(period, name, start, to_date))]);
    proof {
    if before_or_on(from_date, end) {
        assert(normalized(from_date)) by {
            assert(normalized(months_later(start, step))) by {
                let zb = shifted_month_index(start, step);
                vstd::arithmetic::div_mod::lemma_fundamental_div_mod(zb, 12);
            }
            assert(normalized(preceding_day(months_later(start, step))));
            lemma_following(preceding_day(months_later(start, step)));
        }
    }
    }
    while date_le(from_date, end)
        invariant
            before_or_on(from_date, end) ==> normalized(from_date),
            end.year < i32::MAX - 1,
            from_date.year > i32::MIN,
            1 <= step <= 12,
            step == step_months as int,
            step == period_step(period),
            name == fiscal_year.name@,
            period == filters.period@,
            period_dates(start, end, step, period, name) == periods.deep_view()
                + if before_or_on(from_date, end) { period_run(from_date, end, step, period, name) } else { Seq::<PeriodView>::empty() },
        decreases if before_or_on(from_date, end) { rank(end) - rank(from_date) + 1 } else { 0 },
    {
        proof {
            lemma_period_end_after(from_date, step);
            lemma_month_step(from_date, step);
        }
        let shifted = from_date.add_months(step_months);
        let back = shifted.add_days(-1);
        proof {
            assert(days_later(shifted, -1) == preceding_day(shifted)) by {
                reveal_with_fuel(days_later, 2);
            }
        }
        let to_date = if !date_le(back, end) { end } else { back };
        proof {
            lemma_following(to_date);
            lemma_rank_order(from_date, end);
            lemma_rank_order(from_date, to_date);
        }
        let label_suffix = period_label(filters.period.as_str(), fiscal_year.name.as_str(), from_date, to_date);
        let ghost before = periods.deep_view();
        let item = Period { fiscal_year: fiscal_year.name.clone(), from_date, to_date, label_suffix };
        periods.push(item);
        assert(periods.deep_view() =~= before.push(item.deep_view()));
        let next = to_date.add_days(1);
        proof {
            assert(days_later(to_date, 1) == following_day(to_date)) by {
                reveal_with_fuel(days_later, 2);
            }
            if before_or_on(next, end) {
                lemma_rank_order(to_date, next);
            }
        }
        assert(periods.deep_view() + (if before_or_on(next, end) { period_run(next, end, step, period, name) } else { Seq::<PeriodView>::empty() })
            =~= before + period_run(from_date, end, step, period, name));
        from_date = next;
    }
    assert(periods.deep_view() =~= period_dates(start, end, step, period, name));
    periods
}


/// The periods of each fiscal year in turn.
pub open spec fn all_periods(filters: BudgetVarianceFilters, fiscal_years: Seq<FiscalYear>) -> Seq<PeriodView>
    decreases fiscal_years.len(),
{
    if fiscal_years.len() == 0 {
        Seq::empty()
    } else {
        let fy = fiscal_years.last();
        all_periods(filters, fiscal_years.drop_last()) + period_dates(read_date(fy.year_start_date@),
            read_date(fy.year_end_date@), period_step(filters.period@), filters.period@, fy.name@)
    }
}

/// Every fiscal year can be cut into periods.
pub open spec fn fiscal_years_fit(filters: BudgetVarianceFilters, fiscal_years: Seq<FiscalYear>) -> bool {
    forall|i: int| 0 <= i < fiscal_years.len() ==> periods_fit(read_date((#[trigger] fiscal_years[i]).year_start_date@),
        read_date(fiscal_years[i].year_end_date@), period_step(filters.period@))
}

pub fn get_periods(filters: &BudgetVarianceFilters, fiscal_years: &Vec<FiscalYear>) -> (r: Vec<Period>)
    requires
        fiscal_years_fit(*filters, fiscal_years@),
    ensures
        r.deep_view() == all_periods(*filters, fiscal_years@),
{
    let mut periods: Vec<Period> = Vec::new();
    let mut i: usize = 0;
    while i < fiscal_years.len()
        invariant
            i <= fiscal_years@.len(),
            fiscal_years_fit(*filters, fiscal_years@),
            periods.deep_view() == all_periods(*filters, fiscal_years@.subrange(0, i as int)),
        decreases fiscal_years@.len() - i,
    {
        let mut ranges = get_period_date_ranges(filters, &fiscal_years[i]);
        let ghost before = periods.deep_view();
        let ghost added = ranges.deep_view();
        periods.append(&mut ranges);
        assert(periods.deep_view() =~= before + added);
        assert(fiscal_years@.subrange(0, i + 1).drop_last() =~= fiscal_years@.subrange(0, i as int));
        i = i + 1;
    }
    assert(fiscal_years@.subrange(0, i as int) =~= fiscal_years@);
    periods
}

#[derive(Debug, PartialEq, Eq)]
pub struct ReportColumn {
    pub label: String,
    pub fieldtype: &'static str,
    pub fieldname: String,
    pub options: String,
    pub width: u16,
}

/// label, field name, field type, options, width
pub type ColumnView = (Seq<char>, Seq<char>, Seq<char>, Seq<char>, u16);

impl DeepView for ReportColumn {
    type V = ColumnView;

    open spec fn deep_view(&self) -> ColumnView {
        (self.label@, self.fieldname@, self.fieldtype@, self.options@, self.width)
    }
}

pub open spec fn column(label: Seq<char>, fieldname: Seq<char>, fieldtype: Seq<char>, options: Seq<char>, width: u16) -> ColumnView {
    (label, fieldname, fieldtype, options, width)
}

impl ReportColumn {
    pub fn link(label: &str, fieldname: &str, options: &str, width: u16) -> (r: Self)
        ensures
            r.deep_view() == column(label@, fieldname@, "Link"@, options@, width),
    {
        ReportColumn { label: owned(label), fieldtype: "Link", fieldname: owned(fieldname), options: owned(options), width }
    }

    pub fn float(label: &str, fieldname: &str, width: u16) -> (r: Self)
        ensures
            r.deep_view() == column(label@, fieldname@, "Float"@, ""@, width),
    {
        ReportColumn { label: owned(label), fieldtype: "Float", fieldname: owned(fieldname), options: owned(""), width }
    }
}

/// A float column whose field name is its scrubbed label.
pub open spec fn amount_column(label: Seq<char>) -> ColumnView {
    column(label, scrubbed_runs(label), "Float"@, ""@, 150)
}

/// The budget, actual and variance columns of one period.
pub open spec fn period_columns(period: Seq<char>, p: PeriodView) -> Seq<ColumnView> {
    let fy = p.0;
    if period == "Yearly"@ {
        seq![amount_column("Budget "@ + fy), amount_column("Actual "@ + fy), amount_column("Variance "@ + fy)]
    } else {
        let suffix = "("@ + p.3 + ") "@ + fy;
        seq![amount_column("Budget "@ + suffix), amount_column("Actual "@ + suffix), amount_column("Variance "@ + suffix)]
    }
}

pub open spec fn periods_columns(period: Seq<char>, periods: Seq<PeriodView>) -> Seq<ColumnView>
    decreases periods.len(),
{
    if periods.len() == 0 {
        Seq::empty()
    } else {
        periods_columns(period, periods.drop_last()) + period_columns(period, periods.last())
    }
}

/// The report's columns: what the budget is against, the account, three
/// columns per period, and the totals unless the periods are years.
pub open spec fn spec_columns(filters: BudgetVarianceFilters, fiscal_years: Seq<FiscalYear>) -> Seq<ColumnView> {
    seq![
        column(filters.budget_against@, "budget_against"@, "Link"@, filters.budget_against@, 150),
        column("Account"@, "account"@, "Link"@, "Account"@, 150),
    ] + periods_columns(filters.period@, all_periods(filters, fiscal_years)) + if filters.period@ != "Yearly"@ {
        seq![amount_column("Total Budget"@), amount_column("Total Actual"@), amount_column("Total Variance"@)]
    } else {
        Seq::empty()
    }
}

fn push_amount_column(columns: &mut Vec<ReportColumn>, label: &str)
    ensures
        final(columns).deep_view() == old(columns).deep_view().push(amount_column(label@)),
{
    let name = scrub(label);
    let ghost before = columns.deep_view();
    let c = ReportColumn::float(label, name.as_str(), 150);
    columns.push(c);
    assert(columns.deep_view() =~= before.push(amount_column(label@)));
}

fn push_period_columns(columns: &mut Vec<ReportColumn>, filters: &BudgetVarianceFilters, period: &Period)
    ensures
        final(columns).deep_view() == old(columns).deep_view() + period_columns(filters.period@, period.deep_view()),
{
    let ghost before = columns.deep_view();
    let tail = if str_eq(filters.period.as_str(), "Yearly") {
        let mut t = owned(" ");
        t.append(period.fiscal_year.as_str());
        t
    } else {
        let mut t = owned(" (");
        t.append(period.label_suffix.as_str());
        t.append(") ");
        t.append(period.fiscal_year.as_str());
        t
    };
    push_amount_column(columns, concat("Budget", tail.as_str()).as_str());
    push_amount_column(columns, concat("Actual", tail.as_str()).as_str());
    push_amount_column(columns, concat("Variance", tail.as_str()).as_str());
    proof {
        reveal_strlit("Budget");
        reveal_strlit("Budget ");
        reveal_strlit("Actual");
        reveal_strlit("Actual ");
        reveal_strlit("Variance");
        reveal_strlit("Variance ");
        reveal_strlit(" ");
        reveal_strlit(" (");
        reveal_strlit("(");
        let fy = period.deep_view().0;
        let sx = period.deep_view().3;
        if filters.period@ == "Yearly"@ {
            assert(tail@ == " "@ + fy);
            assert("Budget"@ + (" "@ + fy) =~= "Budget "@ + fy);
            assert("Actual"@ + (" "@ + fy) =~= "Actual "@ + fy);
            assert("Variance"@ + (" "@ + fy) =~= "Variance "@ + fy);
        } else {
            assert(tail@ == ((" ("@ + sx) + ") "@) + fy);
            let suffix = (("("@ + sx) + ") "@) + fy;
            assert("Budget"@ + (((" ("@ + sx) + ") "@) + fy) =~= "Budget "@ + suffix);
            assert("Actual"@ + (((" ("@ + sx) + ") "@) + fy) =~= "Actual "@ + suffix);
            assert("Variance"@ + (((" ("@ + sx) + ") "@) + fy) =~= "Variance "@ + suffix);
        }
    }
    assert(columns.deep_view() =~= before + period_columns(filters.period@, period.deep_view()));
}

fn step_of(period: &str) -> (r: i64)
    ensures
        r == period_step(period@),
{
    if str_eq(period, "Yearly") { 12 } else if str_eq(period, "Half-Yearly") { 6 } else if str_eq(period, "Quarterly") { 3 } else { 1 }
}

fn floor_div12(z: i64) -> (r: i64)
    requires
        -0x1_0000_0000 <= z <= 0x1_0000_0000,
    ensures
        r == z / 12,
{
    if z >= 0 {
        z / 12
    } else {
        let q: i64 = -((-z + 11) / 12);
        proof {
            let r = z - q * 12;
            assert(0 <= r < 12);
            vstd::arithmetic::div_mod::lemma_fundamental_div_mod_converse(z as int, 12, q as int, r);
        }
        q
    }
}

fn periods_fit_exec(start: ErpDate, end: ErpDate, step: i64) -> (r: bool)
    requires
        1 <= step <= 12,
    ensures
        r == periods_fit(start, end, step as int),
{
    let mi: i32 = start.month as i32;
    let zb: i64 = mi as i64 - 1 + step;
    let q = floor_div12(zb);
    let year: i64 = start.year as i64 + q;
    (mi as i64 - 1 >= i32::MIN as i64) && (zb >= i32::MIN as i64 && zb <= i32::MAX as i64)
        && (year >= i32::MIN as i64 && year <= i32::MAX as i64) && (year > i32::MIN as i64)
        && (start.year as i64 > i32::MIN as i64 + 1) && ((end.year as i64) < i32::MAX as i64 - 1)
}

/// Whether the months from `start` to `end` can be stepped through, as
/// `get_months_between` needs.
pub fn month_steps_fit_check(start: ErpDate, end: ErpDate) -> (r: bool)
    ensures
        r == month_steps_fit(start, end),
{
    let mi: i32 = start.month as i32;
    let zb: i64 = mi as i64 - 1 + 1;
    let q = floor_div12(zb);
    let year: i64 = start.year as i64 + q;
    (mi as i64 - 1 >= i32::MIN as i64) && (zb >= i32::MIN as i64 && zb <= i32::MAX as i64)
        && (year >= i32::MIN as i64 && year <= i32::MAX as i64) && ((end.year as i64) < i32::MAX as i64)
        && (year > i32::MIN as i64)
}

/// Whether every fiscal year can be cut into the filter's periods, as
/// `get_columns` needs.
pub fn fiscal_years_fit_check(filters: &BudgetVarianceFilters, fiscal_years: &Vec<FiscalYear>) -> (r: bool)
    ensures
        r == fiscal_years_fit(*filters, fiscal_years@),
{
    let step = step_of(filters.period.as_str());
    let mut i: usize = 0;
    while i < fiscal_years.len()
        invariant
            i <= fiscal_years@.len(),
            step == period_step(filters.period@),
            forall|j: int| 0 <= j < i ==> periods_fit(read_date((#[trigger] fiscal_years@[j]).year_start_date@),
                read_date(fiscal_years@[j].year_end_date@), step as int),
        decreases fiscal_years@.len() - i,
    {
        let fy = &fiscal_years[i];
        if !periods_fit_exec(parse_date(fy.year_start_date.as_str()), parse_date(fy.year_end_date.as_str()), step) {
            return false;
        }
        i = i + 1;
    }
    true
}

pub fn get_columns(filters: &BudgetVarianceFilters, fiscal_years: &Vec<FiscalYear>) -> (r: Vec<ReportColumn>)
    requires
        fiscal_years_fit(*filters, fiscal_years@),
    ensures
        r.deep_view() == spec_columns(*filters, fiscal_years@),
{
    let mut columns = vec![
        ReportColumn::link(filters.budget_against.as_str(), "budget_against", filters.budget_against.as_str(), 150),
        ReportColumn::link("Account", "account", "Account", 150),
    ];
    let periods = get_periods(filters, fiscal_years);
    let ghost head = columns.deep_view();
    let mut i: usize = 0;
    while i < periods.len()
        invariant
            i <= periods@.len(),
            columns.deep_view() == head + periods_columns(filters.period@, periods.deep_view().subrange(0, i as int)),
        decreases periods@.len() - i,
    {
        push_period_columns(&mut columns, filters, &periods[i]);
        assert(periods.deep_view().subrange(0, i + 1).drop_last() =~= periods.deep_view().subrange(0, i as int));
        assert(periods.deep_view()[i as int] == periods@[i as int].deep_view());
        i = i + 1;
    }
    assert(periods.deep_view().subrange(0, i as int) =~= periods.deep_view());
    if !str_eq(filters.period.as_str(), "Yearly") {
        push_amount_column(&mut columns, "Total Budget");
        push_amount_column(&mut columns, "Total Actual");
        push_amount_column(&mut columns, "Total Variance");
    }
    assert(columns.deep_view() =~= spec_columns(*filters, fiscal_years@));
    columns
}

#[derive(Debug, PartialEq, Eq)]
pub struct BudgetRecordsQueryPlan {
    pub doctype: &'static str,
    pub budget_against_field: String,
    pub filters: Vec<String>,
}

/// The budget query: submitted budgets of the company against the chosen
/// dimension, for the given dimension values, overlapping the fiscal years.
pub open spec fn spec_budget_filters(filters: BudgetVarianceFilters, field: Seq<char>, dimensions: Seq<Seq<char>>) -> Seq<Seq<char>> {
    seq![
        "b.company = "@ + filters.company@,
        "b.docstatus = 1"@,
        "b.budget_against = "@ + filters.budget_against@,
        "b."@ + field + " in ["@ + joined(dimensions, ", "@) + "]"@,
        "b.from_fiscal_year <= "@ + filters.to_fiscal_year@,
        "b.to_fiscal_year >= "@ + filters.from_fiscal_year@,
    ]
}

pub fn get_budget_records_query(filters: &BudgetVarianceFilters, dimensions: &[&str]) -> (r: BudgetRecordsQueryPlan)
    ensures
        r.doctype@ == "Budget"@,
        r.budget_against_field@ == scrubbed_runs(filters.budget_against@),
        r.filters.deep_view() == spec_budget_filters(*filters, scrubbed_runs(filters.budget_against@),
            dimensions@.map_values(|s: &str| s@)),
{
    let budget_against_field = scrub(filters.budget_against.as_str());
    let mut dimension_filter = concat("b.", budget_against_field.as_str());
    dimension_filter.append(" in [");
    let listed = join_strs(dimensions, ", ");
    dimension_filter.append(listed.as_str());
    dimension_filter.append("]");
    let list = vec![
        concat("b.company = ", filters.company.as_str()),
        owned("b.docstatus = 1"),
        concat("b.budget_against = ", filters.budget_against.as_str()),
        dimension_filter,
        concat("b.from_fiscal_year <= ", filters.to_fiscal_year.as_str()),
        concat("b.to_fiscal_year >= ", filters.from_fiscal_year.as_str()),
    ];
    assert(list.deep_view() =~= spec_budget_filters(*filters, scrubbed_runs(filters.budget_against@),
        dimensions@.map_values(|s: &str| s@)));
    BudgetRecordsQueryPlan { doctype: "Budget", budget_against_field, filters: list }
}

#[derive(Debug, PartialEq, Eq)]
pub struct BudgetDimensionsQueryPlan {
    pub doctype: String,
    pub filters: Vec<String>,
    pub order_by: Option<String>,
}

pub fn get_budget_dimensions_query(filters: &BudgetVarianceFilters) -> (r: BudgetDimensionsQueryPlan)
    ensures
        r.doctype@ == filters.budget_against@,
        r.filters.deep_view() == if filters.budget_against@ == "Cost Center"@ || filters.budget_against@ == "Project"@ {
            seq!["company = "@ + filters.company@]
        } else {
            Seq::<Seq<char>>::empty()
        },
        r.order_by.deep_view() == if filters.budget_against@ == "Cost Center"@ { Some("lft"@) } else { None },
{
    let mut query = BudgetDimensionsQueryPlan { doctype: filters.budget_against.clone(), filters: Vec::new(), order_by: None };
    if str_eq(filters.budget_against.as_str(), "Cost Center") || str_eq(filters.budget_against.as_str(), "Project") {
        query.filters.push(concat("company = ", filters.company.as_str()));
    }
    if str_eq(filters.budget_against.as_str(), "Cost Center") {
        query.order_by = Some(owned("lft"));
    }
    assert(query.filters.deep_view() =~= if filters.budget_against@ == "Cost Center"@ || filters.budget_against@ == "Project"@ {
        seq!["company = "@ + filters.company@]
    } else {
        Seq::<Seq<char>>::empty()
    });
    query
}

} // verus!
