//! Deferred revenue and expense: the filters, periods and columns, the
//! reading of service dates, whether a service overlaps the report, and the
//! monthly periods over which a service's future postings are simulated.
use vstd::prelude::*;
use crate::erpnext::accounts::report::financial_statements::insert_name;
use crate::erpnext::accounts::report::budget_variance_report::budget_variance_report::{
    lemma_month_names, spec_month_abbr, spec_month_name,
};
use crate::text::{lemma_ordered_texts, ordered_texts, texts_strictly_sorted};
use crate::calendar::{civil_from_days, civil_in_range, civil_of, day_number_in_range, days_from_civil, epoch_day, hinnant_days};
use crate::calendar::{date_text, days_in_month, format_date, is_valid_date, month_length};
use crate::text::{all_digits, digits_value, is_digit, lemma_padded_digits, lemma_split_on_append, lemma_split_on_sep, signed_value, concat, i64_text, i64_text_padded, int_text, int_text_padded, owned, str_eq, parse_i32, parse_i32_spec, parse_u32, parse_u32_spec, split_char, split_on};

verus! {

#[derive(Clone, Copy, Debug, PartialEq, Eq)]
pub enum DeferredType {
    Revenue,
    Expense,
}

#[derive(Clone, Copy, Debug, PartialEq, Eq)]
pub enum BookingBasis {
    Months,
    Days,
}

#[derive(Clone, Debug, PartialEq, Eq)]
pub struct DeferredFilters {
    pub company: String,
    pub filter_based_on: String,
    pub period_start_date: String,
    pub period_end_date: String,
    pub from_fiscal_year: String,
    pub to_fiscal_year: String,
    pub periodicity: String,
    pub deferred_type: DeferredType,
    pub with_upcoming_postings: bool,
    pub book_deferred_entries_based_on: BookingBasis,
}

#[derive(Clone, Debug, PartialEq, Eq)]
pub struct Period {
    pub key: String,
    pub label: String,
    pub from_date: String,
    pub to_date: String,
}

impl Period {
    pub fn new(key: &str, label: &str, from_date: &str, to_date: &str) -> (r: Self)
        ensures
            r.key@ == key@,
            r.label@ == label@,
            r.from_date@ == from_date@,
            r.to_date@ == to_date@,
    {
        Period { key: owned(key), label: owned(label), from_date: owned(from_date), to_date: owned(to_date) }
    }
}

#[derive(Clone, Debug, PartialEq, Eq)]
pub struct ReportColumn {
    pub label: String,
    pub fieldname: String,
    pub fieldtype: String,
    pub read_only: bool,
}

impl ReportColumn {
    pub fn new(label: &str, fieldname: &str, fieldtype: &str) -> (r: Self)
        ensures
            r.label@ == label@,
            r.fieldname@ == fieldname@,
            r.fieldtype@ == fieldtype@,
            r.read_only,
    {
        ReportColumn { label: owned(label), fieldname: owned(fieldname), fieldtype: owned(fieldtype), read_only: true }
    }
}

/// A calendar date read from `year-month-day`.
#[derive(Clone, Copy, Debug, PartialEq, Eq)]
pub struct SimpleDate {
    pub year: i32,
    pub month: u32,
    pub day: u32,
}

impl SimpleDate {
    /// The date written `{:04}-{:02}-{:02}`.
    pub fn format(self) -> (r: String)
        ensures
            r@ == date_text(self.year as int, self.month as int, self.day as int),
    {
        format_date(self.year, self.month, self.day)
    }
}

/// The date a `year-month-day` text names: exactly three pieces read as
/// integers, a month from 1 to 12 and a day within that month.
pub open spec fn service_date(input: Seq<char>) -> Option<(i32, u32, u32)> {
    let parts = split_on(input, '-');
    if parts.len() == 3 && parse_i32_spec(parts[0]) is Some && parse_u32_spec(parts[1]) is Some
        && parse_u32_spec(parts[2]) is Some {
        let y = parse_i32_spec(parts[0])->0;
        let m = parse_u32_spec(parts[1])->0;
        let d = parse_u32_spec(parts[2])->0;
        if 1 <= m <= 12 && 1 <= d <= days_in_month(y as int, m as int) { Some((y, m, d)) } else { None }
    } else {
        None
    }
}

pub open spec fn invalid_date(input: Seq<char>) -> Seq<char> {
    "Invalid date: "@ + input
}

/// Reads a `year-month-day` date; see `service_date`.
pub fn parse_date(input: &str) -> (r: Result<SimpleDate, String>)
    ensures
        match (r, service_date(input@)) {
            (Ok(d), Some(s)) => d.year == s.0 && d.month == s.1 && d.day == s.2,
            (Err(e), None) => e@ == invalid_date(input@),
            _ => false,
        },
{
    let parts = split_char(input, '-');
    if parts.len() < 3 {
        return Err(concat("Invalid date: ", input));
    }
    let year = match parse_i32(parts[0].as_str()) { Some(v) => v, None => return Err(concat("Invalid date: ", input)) };
    let month = match parse_u32(parts[1].as_str()) { Some(v) => v, None => return Err(concat("Invalid date: ", input)) };
    let day = match parse_u32(parts[2].as_str()) { Some(v) => v, None => return Err(concat("Invalid date: ", input)) };
    if parts.len() > 3 || month < 1 || month > 12 {
        return Err(concat("Invalid date: ", input));
    }
    let last = month_length(year, month);
    if day == 0 || day > last {
        return Err(concat("Invalid date: ", input));
    }
    Ok(SimpleDate { year, month, day })
}

/// `a` is not later than `b`, dates compared by year, then month, then day.
pub open spec fn date_le(a: (i32, u32, u32), b: (i32, u32, u32)) -> bool {
    a.0 < b.0 || (a.0 == b.0 && (a.1 < b.1 || (a.1 == b.1 && a.2 <= b.2)))
}

/// Whether `a` is not later than `b`.
pub fn on_or_before(a: SimpleDate, b: SimpleDate) -> (r: bool)
    ensures
        r == date_le((a.year, a.month, a.day), (b.year, b.month, b.day)),
{
    a.year < b.year || (a.year == b.year && (a.month < b.month || (a.month == b.month && a.day <= b.day)))
}

/// Whether a service from `start` to `end` overlaps the report, which runs
/// from the first period's start to the last period's end: the report starts
/// within the service, or the service starts within the report. No periods
/// give no overlap; an error names the first date that does not read.
pub open spec fn spec_overlaps(start: Seq<char>, end: Seq<char>, periods: Seq<Period>) -> Result<bool, Seq<char>> {
    if periods.len() == 0 {
        Ok(false)
    } else {
        let rs = periods[0].from_date@;
        let re = periods.last().to_date@;
        match (service_date(start), service_date(end), service_date(rs), service_date(re)) {
            (None, _, _, _) => Err(invalid_date(start)),
            (_, None, _, _) => Err(invalid_date(end)),
            (_, _, None, _) => Err(invalid_date(rs)),
            (_, _, _, None) => Err(invalid_date(re)),
            (Some(s), Some(e), Some(a), Some(b)) => Ok((date_le(s, a) && date_le(a, e)) || (date_le(a, s) && date_le(s, b))),
        }
    }
}

pub fn service_overlaps_periods(service_start: &str, service_end: &str, period_list: &[Period]) -> (r: Result<bool, String>)
    ensures
        match (r, spec_overlaps(service_start@, service_end@, period_list@)) {
            (Ok(b), Ok(s)) => b == s,
            (Err(e), Err(s)) => e@ == s,
            _ => false,
        },
{
    if period_list.len() == 0 {
        return Ok(false);
    }
    let first = &period_list[0];
    let last = &period_list[period_list.len() - 1];
    let s = match parse_date(service_start) { Ok(d) => d, Err(e) => return Err(e) };
    let e = match parse_date(service_end) { Ok(d) => d, Err(e) => return Err(e) };
    let a = match parse_date(first.from_date.as_str()) { Ok(d) => d, Err(e) => return Err(e) };
    let b = match parse_date(last.to_date.as_str()) { Ok(d) => d, Err(e) => return Err(e) };
    Ok((on_or_before(s, a) && on_or_before(a, e)) || (on_or_before(a, s) && on_or_before(s, b)))
}

/// What the report's filter reads of an invoice item's ledger entry.
#[derive(Debug, PartialEq, Eq)]
pub struct DeferredEntryKeys {
    pub company: String,
    pub docstatus: i32,
    pub is_cancelled: bool,
    pub enable_deferred_revenue: bool,
    pub enable_deferred_expense: bool,
    pub service_start_date: String,
    pub service_end_date: String,
    pub deferred_revenue_account: Option<String>,
    pub deferred_expense_account: Option<String>,
}

/// A submitted, uncancelled entry of the company, deferred the way the report
/// asks with an account for it, whose service overlaps the report's periods
/// (a date that does not read counts as no overlap).
pub open spec fn spec_entry_matches(f: DeferredFilters, periods: Seq<Period>, e: DeferredEntryKeys) -> bool {
    &&& e.docstatus == 1
    &&& e.company@ == f.company@
    &&& !e.is_cancelled
    &&& (match f.deferred_type {
        DeferredType::Revenue => e.enable_deferred_revenue && e.deferred_revenue_account is Some,
        DeferredType::Expense => e.enable_deferred_expense && e.deferred_expense_account is Some,
    })
    &&& spec_overlaps(e.service_start_date@, e.service_end_date@, periods) == Ok::<bool, Seq<char>>(true)
}

pub fn entry_matches_filters(filters: &DeferredFilters, period_list: &[Period], entry: &DeferredEntryKeys) -> (r: bool)
    ensures
        r == spec_entry_matches(*filters, period_list@, *entry),
{
    if entry.docstatus != 1 || !str_eq(entry.company.as_str(), filters.company.as_str()) || entry.is_cancelled {
        return false;
    }
    let deferred = match filters.deferred_type {
        DeferredType::Revenue => entry.enable_deferred_revenue && entry.deferred_revenue_account.is_some(),
        DeferredType::Expense => entry.enable_deferred_expense && entry.deferred_expense_account.is_some(),
    };
    if !deferred {
        return false;
    }
    match service_overlaps_periods(entry.service_start_date.as_str(), entry.service_end_date.as_str(), period_list) {
        Ok(b) => b,
        Err(_) => false,
    }
}

/// A calendar date as (year, month, day).
pub type Ymd = (i32, u32, u32);

pub open spec fn month_index(d: Ymd) -> int {
    d.0 * 12 + d.1
}

/// The first day of the month after that of `d`.
pub open spec fn next_month_start(d: Ymd) -> Ymd {
    if d.1 >= 12 { ((d.0 + 1) as i32, 1, 1) } else { (d.0, (d.1 + 1) as u32, 1) }
}

/// The day after `d`.
pub open spec fn next_day(d: Ymd) -> Ymd {
    if d.2 < days_in_month(d.0 as int, d.1 as int) { (d.0, d.1, (d.2 + 1) as u32) } else { next_month_start(d) }
}

/// The months from `from` to `end`, each as its first and last date: the
/// first starts at `from`, each later one on the first of its month; each
/// ends on the last day of its month, the last one on `end`. (A month out of
/// 1..=12, or the greatest 32-bit year, which no caller passes, ends it.)
pub open spec fn month_periods(from: Ymd, end: Ymd) -> Seq<(Ymd, Ymd)>
    decreases month_index(end) - month_index(from) + 1,
{
    if month_index(from) > month_index(end) || !date_le(from, end) || !(1 <= from.1 <= 12) || from.0 == i32::MAX {
        Seq::empty()
    } else {
        let to: Ymd = if from.0 == end.0 && from.1 == end.1 {
            end
        } else {
            (from.0, from.1, days_in_month(from.0 as int, from.1 as int) as u32)
        };
        seq![(from, to)] + month_periods(next_month_start(from), end)
    }
}

pub open spec fn spec_month_label(month: u32) -> Seq<char> {
    if month == 1 { "Jan"@ } else if month == 2 { "Feb"@ } else if month == 3 { "Mar"@ }
    else if month == 4 { "Apr"@ } else if month == 5 { "May"@ } else if month == 6 { "Jun"@ }
    else if month == 7 { "Jul"@ } else if month == 8 { "Aug"@ } else if month == 9 { "Sep"@ }
    else if month == 10 { "Oct"@ } else if month == 11 { "Nov"@ } else if month == 12 { "Dec"@ }
    else { ""@ }
}

/// The month in a simulated period's label is named by the first three
/// letters of its English name: distinct months get distinct names.
pub proof fn lemma_month_label_names(m1: u32, m2: u32)
    requires
        1 <= m1 <= 12,
        1 <= m2 <= 12,
    ensures
        spec_month_label(m1) == spec_month_name(m1).subrange(0, 3),
        m1 != m2 ==> spec_month_label(m1) != spec_month_label(m2),
{
    lemma_month_names(m1, m2);
    assert(spec_month_label(m1) == spec_month_abbr(m1));
    assert(spec_month_label(m2) == spec_month_abbr(m2));
}

fn month_label(month: u32) -> (r: &'static str)
    ensures
        r@ == spec_month_label(month),
{
    proof {
        reveal_strlit("Jan"); reveal_strlit("Feb"); reveal_strlit("Mar"); reveal_strlit("Apr");
        reveal_strlit("May"); reveal_strlit("Jun"); reveal_strlit("Jul"); reveal_strlit("Aug");
        reveal_strlit("Sep"); reveal_strlit("Oct"); reveal_strlit("Nov"); reveal_strlit("Dec");
        reveal_strlit("");
    }
    if month == 1 { "Jan" } else if month == 2 { "Feb" } else if month == 3 { "Mar" }
    else if month == 4 { "Apr" } else if month == 5 { "May" } else if month == 6 { "Jun" }
    else if month == 7 { "Jul" } else if month == 8 { "Aug" } else if month == 9 { "Sep" }
    else if month == 10 { "Oct" } else if month == 11 { "Nov" } else if month == 12 { "Dec" }
    else { "" }
}

/// key, label, from date, to date
pub type PeriodView = (Seq<char>, Seq<char>, Seq<char>, Seq<char>);

pub open spec fn period_view(p: Period) -> PeriodView {
    (p.key@, p.label@, p.from_date@, p.to_date@)
}

/// A month's period: keyed `year_MM`, labelled `Mon year`, with its dates
/// written `YYYY-MM-DD`.
pub open spec fn month_period_view(from: Ymd, to: Ymd) -> PeriodView {
    (
        int_text(from.0 as int) + "_"@ + int_text_padded(from.1 as int, 2),
        spec_month_label(from.1) + " "@ + int_text(from.0 as int),
        date_text(from.0 as int, from.1 as int, from.2 as int),
        date_text(to.0 as int, to.1 as int, to.2 as int),
    )
}

/// The periods in which a service's postings after its last posted entry are
/// simulated: none for a service that starts and ends on one day or whose
/// next day after the last entry is not before the end; else the months from
/// that day to the service's end. An error names the first date of the
/// service start, service end and last entry that does not read.
pub open spec fn spec_future_periods(start: Seq<char>, end: Seq<char>, last: Seq<char>) -> Result<Seq<PeriodView>, Seq<char>> {
    match (service_date(start), service_date(end), service_date(last)) {
        (None, _, _) => Err(invalid_date(start)),
        (_, None, _) => Err(invalid_date(end)),
        (_, _, None) => Err(invalid_date(last)),
        (Some(s), Some(e), Some(l)) => {
            let from = next_day(l);
            if s != e && date_le(from, e) && from != e {
                Ok(month_periods(from, e).map_values(|p: (Ymd, Ymd)| month_period_view(p.0, p.1)))
            } else {
                Ok(Seq::empty())
            }
        },
    }
}

/// Whether the year of a date read from `text`, if it reads, leaves room for
/// the year after it.
pub open spec fn year_below_max(text: Seq<char>) -> bool {
    service_date(text) matches Some(d) ==> d.0 < i32::MAX
}

fn make_month_period(from: SimpleDate, to: SimpleDate) -> (r: Period)
    ensures
        period_view(r) == month_period_view((from.year, from.month, from.day), (to.year, to.month, to.day)),
{
    let mut key = i64_text(from.year as i64);
    key.append("_");
    let m = i64_text_padded(from.month as i64, 2);
    key.append(m.as_str());
    let mut label = owned(month_label(from.month));
    label.append(" ");
    let y = i64_text(from.year as i64);
    label.append(y.as_str());
    let from_date = format_date(from.year, from.month, from.day);
    let to_date = format_date(to.year, to.month, to.day);
    proof {
        reveal_strlit("_");
        reveal_strlit(" ");
    }
    Period { key, label, from_date, to_date }
}

fn next_month_first(d: SimpleDate) -> (r: SimpleDate)
    requires
        d.year < i32::MAX,
    ensures
        (r.year, r.month, r.day) == next_month_start((d.year, d.month, d.day)),
{
    if d.month >= 12 {
        SimpleDate { year: d.year + 1, month: 1, day: 1 }
    } else {
        SimpleDate { year: d.year, month: d.month + 1, day: 1 }
    }
}

pub open spec fn valid_ymd(d: Ymd) -> bool {
    is_valid_date(d.0 as int, d.1 as int, d.2 as int)
}

/// The months from one valid date to a later or equal one cover every day
/// between them once: the first starts at the start, the last ends at the
/// end, each lies within one month and runs forward, and each next one
/// starts the day after the one before it ends.
pub proof fn lemma_month_periods_cover(from: Ymd, end: Ymd)
    requires
        valid_ymd(from),
        valid_ymd(end),
        date_le(from, end),
        end.0 < i32::MAX,
    ensures
        month_periods(from, end).len() > 0,
        month_periods(from, end)[0].0 == from,
        month_periods(from, end).last().1 == end,
        forall|i: int| 0 <= i < month_periods(from, end).len() ==> {
            let p = #[trigger] month_periods(from, end)[i];
            &&& p.0.0 == p.1.0 && p.0.1 == p.1.1
            &&& date_le(p.0, p.1)
            &&& valid_ymd(p.0) && valid_ymd(p.1)
        },
        forall|i: int| 0 <= i < month_periods(from, end).len() - 1 ==> next_day(
            #[trigger] month_periods(from, end)[i].1,
        ) == month_periods(from, end)[i + 1].0,
    decreases month_index(end) - month_index(from),
{
    let ps = month_periods(from, end);
    let next = next_month_start(from);
    if from.0 == end.0 && from.1 == end.1 {
        assert(month_index(next) > month_index(end));
        assert(month_periods(next, end) =~= Seq::<(Ymd, Ymd)>::empty());
        assert(ps =~= seq![(from, end)]);
    } else {
        let to: Ymd = (from.0, from.1, days_in_month(from.0 as int, from.1 as int) as u32);
        assert(month_index(from) < month_index(end));
        assert(valid_ymd(next));
        assert(date_le(next, end));
        lemma_month_periods_cover(next, end);
        let rest = month_periods(next, end);
        assert(ps == seq![(from, to)] + rest);
        assert(next_day(to) == next);
        assert forall|i: int| 0 <= i < ps.len() implies {
            let p = #[trigger] ps[i];
            &&& p.0.0 == p.1.0 && p.0.1 == p.1.1
            &&& date_le(p.0, p.1)
            &&& valid_ymd(p.0) && valid_ymd(p.1)
        } by {
            if i > 0 {
                assert(ps[i] == rest[i - 1]);
            }
        }
        assert forall|i: int| 0 <= i < ps.len() - 1 implies next_day(#[trigger] ps[i].1) == ps[i + 1].0 by {
            if i > 0 {
                assert(ps[i] == rest[i - 1]);
                assert(ps[i + 1] == rest[i]);
            }
        }
    }
}

proof fn lemma_digits_without_sep(s: Seq<char>)
    requires
        all_digits(s),
    ensures
        forall|i: int| 0 <= i < s.len() ==> s[i] != '-',
{
    assert forall|i: int| 0 <= i < s.len() implies s[i] != '-' by {
        assert(is_digit(s[i]));
    }
}

/// A date written `YYYY-MM-DD` (a year of at least zero, padded to four
/// digits) reads back as the same date.
pub proof fn lemma_service_date_round_trip(y: i32, m: u32, d: u32)
    requires
        0 <= y,
        1 <= m <= 12,
        1 <= d <= days_in_month(y as int, m as int),
    ensures
        service_date(date_text(y as int, m as int, d as int)) == Some((y, m, d)),
{
    let a = int_text_padded(y as int, 4);
    let b = int_text_padded(m as int, 2);
    let c = int_text_padded(d as int, 2);
    lemma_padded_digits(y as nat, 4);
    lemma_padded_digits(m as nat, 2);
    lemma_padded_digits(d as nat, 2);
    lemma_digits_without_sep(a);
    lemma_digits_without_sep(b);
    lemma_digits_without_sep(c);
    reveal_strlit("-");
    let e = Seq::<char>::empty();
    assert(split_on(e, '-') == seq![e]);
    lemma_split_on_append(e, a, '-');
    assert(e + a =~= a);
    assert(split_on(a, '-') =~= seq![a]);
    lemma_split_on_sep(a, '-');
    lemma_split_on_append(a.push('-'), b, '-');
    let ab = a.push('-') + b;
    assert(split_on(ab, '-') =~= seq![a, b]);
    lemma_split_on_sep(ab, '-');
    lemma_split_on_append(ab.push('-'), c, '-');
    let t = ab.push('-') + c;
    assert(split_on(t, '-') =~= seq![a, b, c]);
    assert(date_text(y as int, m as int, d as int) =~= t);
    assert(is_digit(a[0]) && is_digit(b[0]) && is_digit(c[0]));
    assert(signed_value(a) == Some(y as int));
    assert(signed_value(b) == Some(m as int));
    assert(signed_value(c) == Some(d as int));
}

/// The simulated posting periods of a service; see `spec_future_periods`.
pub fn future_periods(service_start: &str, service_end: &str, last_entry_date: &str) -> (r: Result<Vec<Period>, String>)
    requires
        year_below_max(service_end@),
        year_below_max(last_entry_date@),
    ensures
        match (r, spec_future_periods(service_start@, service_end@, last_entry_date@)) {
            (Ok(v), Ok(s)) => v@.map_values(|p: Period| period_view(p)) == s,
            (Err(e), Err(s)) => e@ == s,
            _ => false,
        },
{
    let s = match parse_date(service_start) { Ok(d) => d, Err(e) => return Err(e) };
    let e = match parse_date(service_end) { Ok(d) => d, Err(e) => return Err(e) };
    let l = match parse_date(last_entry_date) { Ok(d) => d, Err(e) => return Err(e) };
    let ghost ev: Ymd = (e.year, e.month, e.day);
    let from = if l.day < month_length(l.year, l.month) {
        SimpleDate { year: l.year, month: l.month, day: l.day + 1 }
    } else {
        next_month_first(l)
    };
    assert((from.year, from.month, from.day) == next_day((l.year, l.month, l.day)));
    let same_service = s.year == e.year && s.month == e.month && s.day == e.day;
    let from_is_end = from.year == e.year && from.month == e.month && from.day == e.day;
    let mut out: Vec<Period> = Vec::new();
    if same_service || !on_or_before(from, e) || from_is_end {
        assert(out@.map_values(|p: Period| period_view(p)) =~= Seq::<PeriodView>::empty());
        return Ok(out);
    }
    let ghost start: Ymd = (from.year, from.month, from.day);
    let mut current = from;
    while on_or_before(current, e)
        invariant
            ev == (e.year, e.month, e.day),
            e.year < i32::MAX,
            1 <= current.month <= 12,
            1 <= e.month <= 12,
            out@.map_values(|p: Period| period_view(p)) + month_periods((current.year, current.month, current.day), ev).map_values(
                |p: (Ymd, Ymd)| month_period_view(p.0, p.1),
            ) == month_periods(start, ev).map_values(|p: (Ymd, Ymd)| month_period_view(p.0, p.1)),
        decreases month_index(ev) - month_index((current.year, current.month, current.day)) + 1,
    {
        let ghost cv: Ymd = (current.year, current.month, current.day);
        let to = if current.year == e.year && current.month == e.month {
            e
        } else {
            SimpleDate { year: current.year, month: current.month, day: month_length(current.year, current.month) }
        };
        let ghost before = out@.map_values(|p: Period| period_view(p));
        out.push(make_month_period(current, to));
        assert(out@.map_values(|p: Period| period_view(p)) =~= before.push(month_period_view(cv, (to.year, to.month, to.day))));
        assert(month_index(cv) <= month_index(ev));
        let ghost rest = month_periods(next_month_start(cv), ev);
        assert(month_periods(cv, ev) == seq![(cv, (to.year, to.month, to.day))] + rest);
        assert(month_periods(cv, ev).map_values(|p: (Ymd, Ymd)| month_period_view(p.0, p.1)) =~= seq![
            month_period_view(cv, (to.year, to.month, to.day)),
        ] + rest.map_values(|p: (Ymd, Ymd)| month_period_view(p.0, p.1)));
        assert(current.year <= e.year);
        current = next_month_first(current);
    }
    assert(month_periods((current.year, current.month, current.day), ev) =~= Seq::<(Ymd, Ymd)>::empty());
    assert(month_periods((current.year, current.month, current.day), ev).map_values(|p: (Ymd, Ymd)| month_period_view(p.0, p.1))
        =~= Seq::<PeriodView>::empty());
    assert(out@.map_values(|p: Period| period_view(p)) =~= month_periods(start, ev).map_values(
        |p: (Ymd, Ymd)| month_period_view(p.0, p.1),
    ));
    Ok(out)
}


/// What building a deferred invoice reads of one of its ledger entries: the
/// item it books and the deferred accounts it names.
#[derive(Debug, PartialEq, Eq)]
pub struct InvoiceEntryKeys {
    pub item: String,
    pub deferred_revenue_account: Option<String>,
    pub deferred_expense_account: Option<String>,
}

/// One item of a deferred invoice: its name, whether it is deferred revenue
/// (a sale) or deferred expense (a purchase), and the places of its entries
/// among the invoice's.
#[derive(Debug, PartialEq, Eq)]
pub struct DeferredItemPlan {
    pub item: String,
    pub item_type: DeferredType,
    pub entries: Vec<usize>,
}

/// A deferred invoice's type and its items in the order of their names.
#[derive(Debug, PartialEq, Eq)]
pub struct DeferredInvoicePlan {
    pub invoice_type: DeferredType,
    pub items: Vec<DeferredItemPlan>,
}

/// Revenue where the entry names a deferred revenue account, else expense
/// where it names a deferred expense account.
pub open spec fn entry_type(e: InvoiceEntryKeys) -> Option<DeferredType> {
    if e.deferred_revenue_account is Some {
        Some(DeferredType::Revenue)
    } else if e.deferred_expense_account is Some {
        Some(DeferredType::Expense)
    } else {
        None
    }
}

/// The items the entries book.
pub open spec fn invoice_item_names(entries: Seq<InvoiceEntryKeys>) -> Set<Seq<char>> {
    Set::new(|k: Seq<char>| exists|i: int| 0 <= i < entries.len() && #[trigger] entries[i].item@ == k)
}

/// The places, among the first `upto` entries, of those booking `item`.
pub open spec fn entries_of(entries: Seq<InvoiceEntryKeys>, item: Seq<char>, upto: int) -> Seq<usize>
    decreases upto,
{
    if upto <= 0 {
        Seq::empty()
    } else {
        entries_of(entries, item, upto - 1) + if entries[upto - 1].item@ == item {
            seq![(upto - 1) as usize]
        } else {
            Seq::empty()
        }
    }
}

/// The type of an item: that of its first entry.
pub open spec fn item_type_of(entries: Seq<InvoiceEntryKeys>, item: Seq<char>) -> Option<DeferredType> {
    entry_type(entries[entries_of(entries, item, entries.len() as int)[0] as int])
}

/// A deferred invoice from its entries: none is an error; the first entry
/// gives the invoice's type, and without a deferred account it is an error;
/// then each item, in the order of the names, with the type of its first
/// entry (an error if that entry names no deferred account) and its entries.
pub open spec fn spec_invoice_plan(entries: Seq<InvoiceEntryKeys>)
    -> Result<(DeferredType, Seq<(Seq<char>, DeferredType, Seq<usize>)>), Seq<char>> {
    if entries.len() == 0 {
        Err("Deferred invoice requires at least one item."@)
    } else if entry_type(entries[0]) is None {
        Err("Deferred account is required."@)
    } else {
        let names = ordered_texts(invoice_item_names(entries));
        if exists|k: int| 0 <= k < names.len() && item_type_of(entries, #[trigger] names[k]) is None {
            Err("Deferred account is required."@)
        } else {
            Ok((entry_type(entries[0]).unwrap(), Seq::new(names.len(), |k: int|
                (names[k], item_type_of(entries, names[k]).unwrap(), entries_of(entries, names[k], entries.len() as int)))))
        }
    }
}

/// The items of a plan as name, type and entry places.
pub open spec fn plan_view(items: Seq<DeferredItemPlan>) -> Seq<(Seq<char>, DeferredType, Seq<usize>)> {
    items.map_values(|p: DeferredItemPlan| (p.item@, p.item_type, p.entries@))
}

fn entry_type_of(e: &InvoiceEntryKeys) -> (r: Option<DeferredType>)
    ensures
        r == entry_type(*e),
{
    if e.deferred_revenue_account.is_some() {
        Some(DeferredType::Revenue)
    } else if e.deferred_expense_account.is_some() {
        Some(DeferredType::Expense)
    } else {
        None
    }
}

fn entries_booking(entries: &[InvoiceEntryKeys], item: &str) -> (r: Vec<usize>)
    ensures
        r@ == entries_of(entries@, item@, entries.len() as int),
        (exists|j: int| 0 <= j < entries.len() && #[trigger] entries@[j].item@ == item@) ==> r.len() > 0,
        forall|x: int| 0 <= x < r.len() ==> #[trigger] r@[x] < entries.len(),
{
    let mut r: Vec<usize> = Vec::new();
    let mut i: usize = 0;
    while i < entries.len()
        invariant
            i <= entries.len(),
            r@ == entries_of(entries@, item@, i as int),
            (exists|j: int| 0 <= j < i && #[trigger] entries@[j].item@ == item@) ==> r.len() > 0,
            forall|x: int| 0 <= x < r.len() ==> #[trigger] r@[x] < i,
        decreases entries.len() - i,
    {
        if str_eq(entries[i].item.as_str(), item) {
            r.push(i);
        }
        assert(r@ =~= entries_of(entries@, item@, i + 1));
        i = i + 1;
    }
    r
}

/// How a deferred invoice is built from its entries (see
/// `spec_invoice_plan`): its type, and its items with their entries.
pub fn plan_deferred_invoice(entries: &[InvoiceEntryKeys]) -> (r: Result<DeferredInvoicePlan, String>)
    ensures
        match r {
            Ok(p) => spec_invoice_plan(entries@) == Ok::<(DeferredType, Seq<(Seq<char>, DeferredType, Seq<usize>)>), Seq<char>>(
                (p.invoice_type, plan_view(p.items@))),
            Err(e) => spec_invoice_plan(entries@) == Err::<(DeferredType, Seq<(Seq<char>, DeferredType, Seq<usize>)>), Seq<char>>(e@),
        },
{
    if entries.len() == 0 {
        return Err(owned("Deferred invoice requires at least one item."));
    }
    let invoice_type = match entry_type_of(&entries[0]) {
        Some(t) => t,
        None => return Err(owned("Deferred account is required.")),
    };
    let mut names: Vec<String> = Vec::new();
    let mut i: usize = 0;
    while i < entries.len()
        invariant
            i <= entries.len(),
            texts_strictly_sorted(names.deep_view()),
            forall|k: Seq<char>| #[trigger] names.deep_view().contains(k)
                <==> exists|j: int| 0 <= j < i && #[trigger] entries@[j].item@ == k,
        decreases entries.len() - i,
    {
        let ghost before = names.deep_view();
        insert_name(&mut names, entries[i].item.as_str());
        assert forall|k: Seq<char>| #[trigger] names.deep_view().contains(k)
            <==> exists|j: int| 0 <= j < i + 1 && #[trigger] entries@[j].item@ == k by {
            if names.deep_view().contains(k) && k != entries@[i as int].item@ {
                assert(before.contains(k));
            }
        }
        i = i + 1;
    }
    let ghost all = names.deep_view();
    proof {
        assert forall|k: Seq<char>| all.contains(k) <==> invoice_item_names(entries@).contains(k) by {
            if invoice_item_names(entries@).contains(k) {
                let j = choose|j: int| 0 <= j < entries.len() && #[trigger] entries@[j].item@ == k;
                assert(all.contains(k));
            }
        }
        lemma_ordered_texts(all, invoice_item_names(entries@));
    }
    let mut items: Vec<DeferredItemPlan> = Vec::new();
    let mut k: usize = 0;
    while k < names.len()
        invariant
            k <= names.len(),
            all == names.deep_view(),
            all == ordered_texts(invoice_item_names(entries@)),
            forall|x: Seq<char>| all.contains(x) <==> invoice_item_names(entries@).contains(x),
            items@.len() == k,
            forall|x: int| 0 <= x < k ==> !(item_type_of(entries@, #[trigger] all[x]) is None),
            plan_view(items@) =~= Seq::new(k as nat, |x: int|
                (all[x], item_type_of(entries@, all[x]).unwrap(), entries_of(entries@, all[x], entries.len() as int))),
        decreases names.len() - k,
    {
        assert(all[k as int] == names@[k as int]@);
        assert(invoice_item_names(entries@).contains(all[k as int])) by {
            assert(all.contains(all[k as int]));
        }
        assert(exists|j: int| 0 <= j < entries.len() && #[trigger] entries@[j].item@ == names@[k as int]@);
        let booked = entries_booking(entries, names[k].as_str());
        let t = match entry_type_of(&entries[booked[0]]) {
            Some(t) => t,
            None => {
                assert(item_type_of(entries@, all[k as int]) is None);
                return Err(owned("Deferred account is required."));
            },
        };
        let ghost before = items@;
        let ghost tt = t;
        let ghost bk = booked@;
        assert(item_type_of(entries@, all[k as int]) == Some(tt));
        items.push(DeferredItemPlan { item: owned(names[k].as_str()), item_type: t, entries: booked });
        assert(items@ == before.push(items@[k as int]));
        assert(plan_view(items@) =~= plan_view(before).push((all[k as int], tt, bk)));
        k = k + 1;
    }
    Ok(DeferredInvoicePlan { invoice_type, items })
}


/// The day number of a date, as the era formula gives it.
pub open spec fn day_number(d: SimpleDate) -> int {
    hinnant_days(d.year as int, d.month as int, d.day as int)
}

/// The days from `start` to `end`, negative where `end` comes first.
pub fn date_diff(end: SimpleDate, start: SimpleDate) -> (r: i64)
    requires
        civil_in_range(end.year as int, end.month as int, end.day as int),
        civil_in_range(start.year as int, start.month as int, start.day as int),
    ensures
        r == day_number(end) - day_number(start),
        1 <= end.month <= 12 && 1 <= start.month <= 12 ==> r == epoch_day(end.year as int, end.month as int,
            end.day as int) - epoch_day(start.year as int, start.month as int, start.day as int),
{
    let a = days_from_civil(end.year, end.month, end.day);
    let b = days_from_civil(start.year, start.month, start.day);
    proof {
        lemma_day_number_fits(end);
        lemma_day_number_fits(start);
    }
    a - b
}

proof fn lemma_day_number_fits(d: SimpleDate)
    requires
        civil_in_range(d.year as int, d.month as int, d.day as int),
    ensures
        i32::MIN <= day_number(d) <= i32::MAX,
{
}

/// The date `days` days after `date` (before it where `days` is negative),
/// with its year cast to 32 bits as the era formula leaves it.
pub fn add_days(date: SimpleDate, days: i64) -> (r: SimpleDate)
    requires
        civil_in_range(date.year as int, date.month as int, date.day as int),
        i64::MIN <= day_number(date) + days <= i64::MAX - 719_468,
    ensures
        r.year == civil_of(day_number(date) + days).0 as i32,
        r.month == civil_of(day_number(date) + days).1,
        r.day == civil_of(day_number(date) + days).2,
        day_number_in_range(day_number(date) + days) ==> {
            &&& r.year == civil_of(day_number(date) + days).0
            &&& epoch_day(r.year as int, r.month as int, r.day as int) == day_number(date) + days
        },
{
    let n = days_from_civil(date.year, date.month, date.day) + days;
    let (year, month, day) = civil_from_days(n);
    SimpleDate { year, month, day }
}

/// The first day of the date's month.
pub fn first_day(date: SimpleDate) -> (r: SimpleDate)
    ensures
        r == (SimpleDate { year: date.year, month: date.month, day: 1 }),
{
    SimpleDate { year: date.year, month: date.month, day: 1 }
}

/// The last day of the date's month (day zero for a month outside 1 to 12).
pub fn last_day(date: SimpleDate) -> (r: SimpleDate)
    ensures
        r.year == date.year,
        r.month == date.month,
        r.day == days_in_month(date.year as int, date.month as int),
{
    SimpleDate { year: date.year, month: date.month, day: month_length(date.year, date.month) }
}


/// The places, among the first `upto` entries, of those of document `doc`
/// that the report keeps.
pub open spec fn kept_of(docs: Seq<Seq<char>>, keep: Seq<bool>, doc: Seq<char>, upto: int) -> Seq<usize>
    decreases upto,
{
    if upto <= 0 {
        Seq::empty()
    } else {
        kept_of(docs, keep, doc, upto - 1) + if docs[upto - 1] == doc && keep[upto - 1] {
            seq![(upto - 1) as usize]
        } else {
            Seq::empty()
        }
    }
}

/// Over the first `upto` of the sorted document names, each document with
/// the entries kept of it, where there are any.
pub open spec fn doc_groups(docs: Seq<Seq<char>>, keep: Seq<bool>, names: Seq<Seq<char>>, upto: int)
    -> Seq<(Seq<char>, Seq<usize>)>
    decreases upto,
{
    if upto <= 0 {
        Seq::empty()
    } else {
        let kept = kept_of(docs, keep, names[upto - 1], docs.len() as int);
        doc_groups(docs, keep, names, upto - 1) + if kept.len() > 0 { seq![(names[upto - 1], kept)] } else { Seq::empty() }
    }
}

/// The documents the entries belong to.
pub open spec fn doc_names(docs: Seq<Seq<char>>) -> Set<Seq<char>> {
    Set::new(|k: Seq<char>| exists|i: int| 0 <= i < docs.len() && docs[i] == k)
}

fn kept_entries(docs: &[String], keep: &[bool], doc: &str) -> (r: Vec<usize>)
    requires
        docs.len() == keep.len(),
    ensures
        r@ == kept_of(docs.deep_view(), keep@, doc@, docs.len() as int),
{
    let ghost ds = docs.deep_view();
    let mut r: Vec<usize> = Vec::new();
    let mut i: usize = 0;
    while i < docs.len()
        invariant
            i <= docs.len() == keep.len(),
            ds == docs.deep_view(),
            r@ == kept_of(ds, keep@, doc@, i as int),
        decreases docs.len() - i,
    {
        assert(ds[i as int] == docs@[i as int]@);
        if keep[i] && str_eq(docs[i].as_str(), doc) {
            r.push(i);
        }
        assert(r@ =~= kept_of(ds, keep@, doc@, i + 1));
        i = i + 1;
    }
    r
}

/// The invoices of the report: each document, in ascending order of its
/// name, with the places of its entries that the report keeps (`keep`, one
/// flag per entry), leaving out documents of which none is kept.
pub fn group_entries_by_doc(docs: &[String], keep: &[bool]) -> (r: Vec<(String, Vec<usize>)>)
    requires
        docs.len() == keep.len(),
    ensures
        r.deep_view() == doc_groups(docs.deep_view(), keep@, ordered_texts(doc_names(docs.deep_view())),
            ordered_texts(doc_names(docs.deep_view())).len() as int),
{
    let ghost ds = docs.deep_view();
    let mut names: Vec<String> = Vec::new();
    let mut i: usize = 0;
    while i < docs.len()
        invariant
            i <= docs.len(),
            ds == docs.deep_view(),
            texts_strictly_sorted(names.deep_view()),
            forall|k: Seq<char>| #[trigger] names.deep_view().contains(k) <==> exists|j: int| 0 <= j < i && ds[j] == k,
        decreases docs.len() - i,
    {
        let ghost before = names.deep_view();
        assert(ds[i as int] == docs@[i as int]@);
        insert_name(&mut names, docs[i].as_str());
        assert forall|k: Seq<char>| #[trigger] names.deep_view().contains(k) <==> exists|j: int| 0 <= j < i + 1 && ds[j] == k by {
            if names.deep_view().contains(k) && k != ds[i as int] {
                assert(before.contains(k));
            }
            if exists|j: int| 0 <= j < i + 1 && ds[j] == k {
                let j = choose|j: int| 0 <= j < i + 1 && ds[j] == k;
                if j < i {
                    assert(before.contains(k));
                }
            }
        }
        i = i + 1;
    }
    let ghost all = names.deep_view();
    proof {
        assert forall|k: Seq<char>| all.contains(k) <==> doc_names(ds).contains(k) by {}
        lemma_ordered_texts(all, doc_names(ds));
    }
    let mut out: Vec<(String, Vec<usize>)> = Vec::new();
    let mut k: usize = 0;
    while k < names.len()
        invariant
            k <= names.len(),
            docs.len() == keep.len(),
            ds == docs.deep_view(),
            all == names.deep_view(),
            out.deep_view() == doc_groups(ds, keep@, all, k as int),
        decreases names.len() - k,
    {
        assert(all[k as int] == names@[k as int]@);
        let kept = kept_entries(docs, keep, names[k].as_str());
        let ghost before = out.deep_view();
        if kept.len() > 0 {
            let ghost kv = kept@;
            assert(kept.deep_view() =~= kv);
            out.push((owned(names[k].as_str()), kept));
            assert(out.deep_view() =~= before.push((all[k as int], kv)));
        }
        assert(out.deep_view() =~= doc_groups(ds, keep@, all, k + 1));
        k = k + 1;
    }
    out
}


/// A date with a real month and a day of at most 31 whose year is within
/// five million of year zero: within these bounds the day-number formula
/// stays inside 32-bit arithmetic.
pub open spec fn in_day_range(d: SimpleDate) -> bool {
    -5_000_000 <= d.year <= 5_000_000 && 1 <= d.month <= 12 && d.day <= 31
}

proof fn lemma_in_day_range(d: SimpleDate)
    requires
        in_day_range(d),
    ensures
        civil_in_range(d.year as int, d.month as int, d.day as int),
{
    let year = d.year as int;
    let month = d.month as int;
    let day = d.day as int;
    let yy = if month <= 2 { year - 1 } else { year };
    let era = yy / 400;
    let yoe = yy - era * 400;
    assert(-12_501 <= era <= 12_500) by (nonlinear_arith)
        requires -5_000_001 <= yy <= 5_000_000, era == yy / 400;
    assert(0 <= yoe < 400) by (nonlinear_arith)
        requires era == yy / 400, yoe == yy - era * 400;
    assert(-12_501 * 146097 <= era * 146097 <= 12_500 * 146097) by (nonlinear_arith)
        requires -12_501 <= era <= 12_500;
}

/// Whether a date lies within `in_day_range`.
pub fn day_range_check(d: SimpleDate) -> (r: bool)
    ensures
        r == in_day_range(d),
        r ==> civil_in_range(d.year as int, d.month as int, d.day as int),
{
    let r = -5_000_000 <= d.year && d.year <= 5_000_000 && 1 <= d.month && d.month <= 12 && d.day <= 31;
    if r {
        proof { lemma_in_day_range(d); }
    }
    r
}

} // verus!
