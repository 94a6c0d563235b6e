//! Shared pieces of the financial statements: fiscal-year and date checks,
//! month counts and period labels, the statement columns, the company
//! filter of consolidated reports, the account tree and the rows it shows.
use std::collections::BTreeMap;
use vstd::prelude::*;
use crate::erpnext::accounts::report::map_get;
use crate::calendar::{date_text, format_date, is_leap, is_leap_year};
use crate::erpnext::accounts::report::budget_variance_report::budget_variance_report::{
    lemma_month_names, spec_month_abbr as budget_month_abbr, spec_month_name,
};
use crate::text::{
    ascii_lowered, lemma_lex_total, lemma_lex_transitive, lemma_ordered_texts, ordered_texts, texts_strictly_sorted,
};
use crate::text::{
    concat, i64_text, i64_text_padded, int_text, int_text_padded, lex_less, owned, parse_i32, parse_i32_spec, parse_u32,
    parse_u32_spec, split_char, split_on, str_eq, str_less, texts_hold, chars_of, string_of,
};

verus! {

#[derive(Debug, PartialEq, Eq)]
pub struct FiscalYearData {
    pub year_start_date: String,
    pub year_end_date: String,
}

impl DeepView for FiscalYearData {
    type V = (Seq<char>, Seq<char>);

    open spec fn deep_view(&self) -> (Seq<char>, Seq<char>) {
        (self.year_start_date@, self.year_end_date@)
    }
}

#[derive(Debug, PartialEq, Eq)]
pub struct FinancialStatementFilters {
    pub company: String,
    pub presentation_currency: Option<String>,
    pub accumulated_values: bool,
    pub show_zero_values: bool,
}

#[derive(Debug, PartialEq, Eq)]
pub struct Period {
    pub key: String,
    pub label: String,
    pub from_date: String,
    pub to_date: String,
    pub year_start_date: String,
    pub year_end_date: String,
    pub to_date_fiscal_year: Option<String>,
    pub from_date_fiscal_year_start_date: Option<String>,
}

/// The number of bytes of a character in UTF-8.
pub open spec fn utf8_width(c: char) -> int {
    if (c as u32) < 0x80 { 1 } else if (c as u32) < 0x800 { 2 } else if (c as u32) < 0x10000 { 3 } else { 4 }
}

/// The number of bytes of a text in UTF-8.
pub open spec fn utf8_len(s: Seq<char>) -> int
    decreases s.len(),
{
    if s.len() == 0 { 0 } else { utf8_len(s.drop_last()) + utf8_width(s.last()) }
}

/// The text's first four bytes end on a character boundary, as slicing
/// `[0..4]` needs.
pub open spec fn four_byte_prefix(s: Seq<char>) -> bool {
    exists|k: int| 0 <= k <= s.len() && utf8_len(#[trigger] s.subrange(0, k)) == 4
}

/// The characters of the first four bytes.
pub open spec fn prefix_chars(s: Seq<char>) -> Seq<char> {
    s.subrange(0, choose|k: int| 0 <= k <= s.len() && utf8_len(#[trigger] s.subrange(0, k)) == 4)
}

proof fn lemma_utf8_len_grows(s: Seq<char>, a: int, b: int)
    requires
        0 <= a < b <= s.len(),
    ensures
        utf8_len(s.subrange(0, a)) < utf8_len(s.subrange(0, b)),
    decreases b - a,
{
    assert(s.subrange(0, b).drop_last() =~= s.subrange(0, b - 1));
    if a < b - 1 {
        lemma_utf8_len_grows(s, a, b - 1);
    }
    lemma_utf8_len_nonneg(s.subrange(0, b - 1));
}

proof fn lemma_utf8_len_nonneg(s: Seq<char>)
    ensures
        utf8_len(s) >= 0,
    decreases s.len(),
{
    if s.len() > 0 {
        lemma_utf8_len_nonneg(s.drop_last());
    }
}

fn prefix4(s: &str) -> (r: String)
    requires
        four_byte_prefix(s@),
    ensures
        r@ == prefix_chars(s@),
{
    let chars = chars_of(s);
    let ghost k0 = choose|k: int| 0 <= k <= s@.len() && utf8_len(#[trigger] s@.subrange(0, k)) == 4;
    let mut total: u64 = 0;
    let mut k: usize = 0;
    assert(s@.subrange(0, 0) =~= Seq::<char>::empty());
    while total < 4 && k < chars.len()
        invariant
            chars@ == s@,
            0 <= k0 <= s@.len(),
            utf8_len(s@.subrange(0, k0)) == 4,
            k <= k0,
            total == utf8_len(s@.subrange(0, k as int)),
        decreases chars@.len() - k,
    {
        let c = chars[k];
        let w: u64 = if (c as u32) < 0x80 { 1 } else if (c as u32) < 0x800 { 2 } else if (c as u32) < 0x10000 { 3 } else { 4 };
        assert(s@.subrange(0, k + 1).drop_last() =~= s@.subrange(0, k as int));
        total = total + w;
        k = k + 1;
        proof {
            if k > k0 {
                lemma_utf8_len_grows(s@, k0, k - 1);
            }
        }
    }
    proof {
        if (k as int) < k0 {
            lemma_utf8_len_grows(s@, k as int, k0);
        }
    }
    assert(k as int == k0);
    string_of(&chars, 0, k)
}

impl Period {
    /// A period whose year starts on 1 January of the from-date's year and
    /// ends on 31 December of the to-date's year.
    pub fn new(key: &str, label: &str, from_date: &str, to_date: &str) -> (r: Self)
        requires
            four_byte_prefix(from_date@),
            four_byte_prefix(to_date@),
        ensures
            r.key@ == key@,
            r.label@ == label@,
            r.from_date@ == from_date@,
            r.to_date@ == to_date@,
            r.year_start_date@ == prefix_chars(from_date@) + "-01-01"@,
            r.year_end_date@ == prefix_chars(to_date@) + "-12-31"@,
            r.to_date_fiscal_year matches Some(fy) && fy@ == "FY"@ + prefix_chars(to_date@),
            r.from_date_fiscal_year_start_date matches Some(s) && s@ == prefix_chars(from_date@) + "-01-01"@,
    {
        let from_year = prefix4(from_date);
        let to_year = prefix4(to_date);
        let year_start_date = concat(from_year.as_str(), "-01-01");
        Period {
            key: owned(key),
            label: owned(label),
            from_date: owned(from_date),
            to_date: owned(to_date),
            year_start_date: year_start_date.clone(),
            year_end_date: concat(to_year.as_str(), "-12-31"),
            to_date_fiscal_year: Some(concat("FY", to_year.as_str())),
            from_date_fiscal_year_start_date: Some(year_start_date),
        }
    }
}

#[derive(Debug, PartialEq, Eq)]
pub struct ReportColumn {
    pub fieldname: String,
    pub label: String,
    pub fieldtype: &'static str,
    pub options: Option<String>,
    pub width: u16,
    pub hidden: bool,
}

/// field name, label, field type, options, width, hidden
pub type ColumnView = (Seq<char>, Seq<char>, Seq<char>, Option<Seq<char>>, u16, bool);

impl DeepView for ReportColumn {
    type V = ColumnView;

    open spec fn deep_view(&self) -> ColumnView {
        (self.fieldname@, self.label@, self.fieldtype@, self.options.deep_view(), self.width, self.hidden)
    }
}

impl ReportColumn {
    pub fn link(label: &str, fieldname: &str, options: &str, width: u16, hidden: bool) -> (r: Self)
        ensures
            r.deep_view() == (fieldname@, label@, "Link"@, Some(options@), width, hidden),
    {
        ReportColumn { fieldname: owned(fieldname), label: owned(label), fieldtype: "Link", options: Some(owned(options)), width, hidden }
    }

    pub fn data(label: &str, fieldname: &str, width: u16, hidden: bool) -> (r: Self)
        ensures
            r.deep_view() == (fieldname@, label@, "Data"@, None::<Seq<char>>, width, hidden),
    {
        ReportColumn { fieldname: owned(fieldname), label: owned(label), fieldtype: "Data", options: None, width, hidden }
    }

    pub fn currency(label: &str, fieldname: &str, width: u16) -> (r: Self)
        ensures
            r.deep_view() == (fieldname@, label@, "Currency"@, Some("currency"@), width, false),
    {
        ReportColumn { fieldname: owned(fieldname), label: owned(label), fieldtype: "Currency", options: Some(owned("currency")), width, hidden: false }
    }
}

/// The fiscal year from the start of the first named year to the end of the
/// second; an error when either is not known.
pub open spec fn spec_fiscal_year_data(from: Seq<char>, to: Seq<char>, years: Map<Seq<char>, (Seq<char>, Seq<char>)>)
    -> Result<(Seq<char>, Seq<char>), Seq<char>>
{
    if years.contains_key(from) && years.contains_key(to) {
        Ok((years[from].0, years[to].1))
    } else {
        Err("Start Year and End Year are mandatory"@)
    }
}

pub fn get_fiscal_year_data(from_fiscal_year: &str, to_fiscal_year: &str, fiscal_years: &BTreeMap<String, FiscalYearData>)
    -> (r: Result<FiscalYearData, String>)
    ensures
        match (r, spec_fiscal_year_data(from_fiscal_year@, to_fiscal_year@, fiscal_years.deep_view())) {
            (Ok(d), Ok(v)) => d.deep_view() == v,
            (Err(e), Err(v)) => e@ == v,
            _ => false,
        },
{
    let from = match map_get(fiscal_years, from_fiscal_year) {
        Some(f) => f,
        None => return Err(owned("Start Year and End Year are mandatory")),
    };
    let to = match map_get(fiscal_years, to_fiscal_year) {
        Some(t) => t,
        None => return Err(owned("Start Year and End Year are mandatory")),
    };
    Ok(FiscalYearData { year_start_date: from.year_start_date.clone(), year_end_date: to.year_end_date.clone() })
}

/// Both ends are given and the end does not come before the start.
pub open spec fn spec_validate_fiscal_year(start: Seq<char>, end: Seq<char>) -> Result<(), Seq<char>> {
    if start.len() == 0 || end.len() == 0 {
        Err("Start Year and End Year are mandatory"@)
    } else if lex_less(end, start) {
        Err("End Year cannot be before Start Year"@)
    } else {
        Ok(())
    }
}

pub fn validate_fiscal_year(fiscal_year: &FiscalYearData) -> (r: Result<(), String>)
    ensures
        match (r, spec_validate_fiscal_year(fiscal_year.year_start_date@, fiscal_year.year_end_date@)) {
            (Ok(_), Ok(_)) => true,
            (Err(e), Err(v)) => e@ == v,
            _ => false,
        },
{
    if fiscal_year.year_start_date.as_str().is_empty() || fiscal_year.year_end_date.as_str().is_empty() {
        return Err(owned("Start Year and End Year are mandatory"));
    }
    if str_less(fiscal_year.year_end_date.as_str(), fiscal_year.year_start_date.as_str()) {
        return Err(owned("End Year cannot be before Start Year"));
    }
    Ok(())
}

/// Both dates are given and the end does not come before the start.
pub open spec fn spec_validate_dates(from: Seq<char>, to: Seq<char>) -> Result<(), Seq<char>> {
    if from.len() == 0 || to.len() == 0 {
        Err("From Date and To Date are mandatory"@)
    } else if lex_less(to, from) {
        Err("To Date cannot be less than From Date"@)
    } else {
        Ok(())
    }
}

pub fn validate_dates(from_date: &str, to_date: &str) -> (r: Result<(), String>)
    ensures
        match (r, spec_validate_dates(from_date@, to_date@)) {
            (Ok(_), Ok(_)) => true,
            (Err(e), Err(v)) => e@ == v,
            _ => false,
        },
{
    if from_date.is_empty() || to_date.is_empty() {
        return Err(owned("From Date and To Date are mandatory"));
    }
    if str_less(to_date, from_date) {
        return Err(owned("To Date cannot be less than From Date"));
    }
    Ok(())
}

/// A date as three numbers, as read from `year-month-day` without checks
/// on the ranges of month and day.
#[derive(Clone, Copy, Debug)]
struct SimpleDate {
    year: i32,
    month: u32,
    day: u32,
}

/// The three numbers of a `year-month-day` text: exactly three pieces, each
/// read as an integer.
pub open spec fn parsed_date(value: Seq<char>) -> Option<(i32, u32, u32)> {
    let parts = split_on(value, '-');
    if parts.len() == 3 && parse_i32_spec(parts[0]) is Some && parse_u32_spec(parts[1]) is Some
        && parse_u32_spec(parts[2]) is Some {
        Some((parse_i32_spec(parts[0])->0, parse_u32_spec(parts[1])->0, parse_u32_spec(parts[2])->0))
    } else {
        None
    }
}

pub open spec fn invalid_date(value: Seq<char>) -> Seq<char> {
    "Invalid date "@ + value
}

fn parse_date(value: &str) -> (r: Result<SimpleDate, String>)
    ensures
        match (r, parsed_date(value@)) {
            (Ok(d), Some(p)) => d.year == p.0 && d.month == p.1 && d.day == p.2,
            (Err(e), None) => e@ == invalid_date(value@),
            _ => false,
        },
{
    let parts = split_char(value, '-');
    if parts.len() != 3 {
        return Err(concat("Invalid date ", value));
    }
    let year = match parse_i32(parts[0].as_str()) { Some(v) => v, None => return Err(concat("Invalid date ", value)) };
    let month = match parse_u32(parts[1].as_str()) { Some(v) => v, None => return Err(concat("Invalid date ", value)) };
    let day = match parse_u32(parts[2].as_str()) { Some(v) => v, None => return Err(concat("Invalid date ", value)) };
    Ok(SimpleDate { year, month, day })
}

pub open spec fn fits_i32(n: int) -> bool {
    i32::MIN <= n <= i32::MAX
}

/// The month index `12 * year + month` of a date, as the statement computes
/// it, fits in an `i32` (with the month read as a non-negative `i32`).
pub open spec fn month_index_fits(d: (i32, u32, u32)) -> bool {
    d.1 <= i32::MAX && fits_i32(12 * d.0) && fits_i32(12 * d.0 + d.1)
}

pub open spec fn month_index(d: (i32, u32, u32)) -> int {
    12 * d.0 + d.1
}

/// Where both dates read, their month indices and the count of months fit
/// in an `i32`.
pub open spec fn month_count_fits(start: Seq<char>, end: Seq<char>) -> bool {
    match (parsed_date(start), parsed_date(end)) {
        (Some(s), Some(e)) => month_index_fits(s) && month_index_fits(e)
            && fits_i32(month_index(e) - month_index(s)) && fits_i32(month_index(e) - month_index(s) + 1),
        _ => true,
    }
}

/// The number of calendar months from the start date's month to the end
/// date's, both counted.
pub open spec fn spec_months(start: Seq<char>, end: Seq<char>) -> Result<int, Seq<char>> {
    match parsed_date(start) {
        None => Err(invalid_date(start)),
        Some(s) => match parsed_date(end) {
            None => Err(invalid_date(end)),
            Some(e) => Ok(month_index(e) - month_index(s) + 1),
        },
    }
}

pub fn get_months(start_date: &str, end_date: &str) -> (r: Result<i32, String>)
    requires
        month_count_fits(start_date@, end_date@),
    ensures
        match (r, spec_months(start_date@, end_date@)) {
            (Ok(n), Ok(v)) => n == v,
            (Err(e), Err(v)) => e@ == v,
            _ => false,
        },
{
    let start = match parse_date(start_date) { Ok(d) => d, Err(e) => return Err(e) };
    let end = match parse_date(end_date) { Ok(d) => d, Err(e) => return Err(e) };
    Ok((12 * end.year + end.month as i32) - (12 * start.year + start.month as i32) + 1)
}

pub open spec fn spec_month_abbr(month: u32) -> Seq<char> {
    if month == 1 { "Jan"@ } else if month == 2 { "Feb"@ } else if month == 3 { "Mar"@ }
    else if month == 4 { "Apr"@ } else if month == 5 { "May"@ } else if month == 6 { "Jun"@ }
    else if month == 7 { "Jul"@ } else if month == 8 { "Aug"@ } else if month == 9 { "Sep"@ }
    else if month == 10 { "Oct"@ } else if month == 11 { "Nov"@ } else if month == 12 { "Dec"@ }
    else { ""@ }
}

fn month_abbr(month: u32) -> (r: &'static str)
    ensures
        r@ == spec_month_abbr(month),
{
    match month {
        1 => "Jan", 2 => "Feb", 3 => "Mar", 4 => "Apr", 5 => "May", 6 => "Jun",
        7 => "Jul", 8 => "Aug", 9 => "Sep", 10 => "Oct", 11 => "Nov", 12 => "Dec",
        _ => "",
    }
}

/// The months in period labels are named by the first three letters of their
/// English names: distinct months get distinct names.
pub proof fn lemma_month_abbr_names(m1: u32, m2: u32)
    requires
        1 <= m1 <= 12,
        1 <= m2 <= 12,
    ensures
        spec_month_abbr(m1).len() == 3,
        spec_month_abbr(m1) == spec_month_name(m1).subrange(0, 3),
        m1 != m2 ==> spec_month_abbr(m1) != spec_month_abbr(m2),
{
    lemma_month_names(m1, m2);
    lemma_month_names(m2, m1);
    assert(spec_month_abbr(m1) == budget_month_abbr(m1));
    assert(spec_month_abbr(m2) == budget_month_abbr(m2));
}

/// The remainder of a division by 100 that keeps the sign of the dividend.
pub open spec fn rem100(y: int) -> int {
    if y >= 0 { y % 100 } else { -((-y) % 100) }
}

fn year_rem100(y: i32) -> (r: i64)
    ensures
        r == rem100(y as int),
{
    let v = y as i64;
    if v >= 0 { v % 100 } else { -((-v) % 100) }
}

/// A yearly label is the year, or `from-to` across years; other labels give
/// the month and two-digit year of each end.
pub open spec fn label_text(periodicity: Seq<char>, f: (i32, u32, u32), t: (i32, u32, u32)) -> Seq<char> {
    if periodicity == "Yearly"@ {
        if f.0 == t.0 { int_text(f.0 as int) } else { int_text(f.0 as int) + "-"@ + int_text(t.0 as int) }
    } else {
        spec_month_abbr(f.1) + " "@ + int_text_padded(rem100(f.0 as int), 2) + "-"@
            + spec_month_abbr(t.1) + " "@ + int_text_padded(rem100(t.0 as int), 2)
    }
}

pub open spec fn spec_label(periodicity: Seq<char>, from: Seq<char>, to: Seq<char>) -> Result<Seq<char>, Seq<char>> {
    match parsed_date(from) {
        None => Err(invalid_date(from)),
        Some(f) => match parsed_date(to) {
            None => Err(invalid_date(to)),
            Some(t) => Ok(label_text(periodicity, f, t)),
        },
    }
}

pub fn get_label(periodicity: &str, from_date: &str, to_date: &str) -> (r: Result<String, String>)
    ensures
        match (r, spec_label(periodicity@, from_date@, to_date@)) {
            (Ok(s), Ok(v)) => s@ == v,
            (Err(e), Err(v)) => e@ == v,
            _ => false,
        },
{
    let f = match parse_date(from_date) { Ok(d) => d, Err(e) => return Err(e) };
    let t = match parse_date(to_date) { Ok(d) => d, Err(e) => return Err(e) };
    Ok(label_from(periodicity, f, t))
}

fn label_from(periodicity: &str, f: SimpleDate, t: SimpleDate) -> (r: String)
    ensures
        r@ == label_text(periodicity@, (f.year, f.month, f.day), (t.year, t.month, t.day)),
{
    if str_eq(periodicity, "Yearly") {
        if f.year == t.year {
            i64_text(f.year as i64)
        } else {
            let head = concat(i64_text(f.year as i64).as_str(), "-");
            concat(head.as_str(), i64_text(t.year as i64).as_str())
        }
    } else {
        let a = concat(month_abbr(f.month), " ");
        let b = concat(a.as_str(), i64_text_padded(year_rem100(f.year), 2).as_str());
        let c = concat(b.as_str(), "-");
        let d = concat(c.as_str(), month_abbr(t.month));
        let e = concat(d.as_str(), " ");
        concat(e.as_str(), i64_text_padded(year_rem100(t.year), 2).as_str())
    }
}

/// The statement's columns: the account (or the section, in a cash flow), its
/// hidden name and number outside a cash flow, the hidden currency when a
/// company is given, one column per period, and the total of non-yearly
/// periods that are not accumulated.
pub open spec fn spec_columns(periodicity: Seq<char>, periods: Seq<(Seq<char>, Seq<char>)>, accumulated: bool,
    has_company: bool, cash_flow: bool) -> Seq<ColumnView>
{
    seq![(if cash_flow { "section"@ } else { "account"@ }, if cash_flow { "Section"@ } else { "Account"@ }, "Link"@,
        Some("Account"@), 300u16, false)]
    + if cash_flow { Seq::empty() } else {
        seq![("acc_name"@, "Account Name"@, "Data"@, None, 250u16, true),
            ("acc_number"@, "Account Number"@, "Data"@, None, 120u16, true)]
    }
    + if has_company { seq![("currency"@, "Currency"@, "Link"@, Some("Currency"@), 0u16, true)] } else { Seq::empty() }
    + Seq::new(periods.len(), |i: int| (periods[i].0, periods[i].1, "Currency"@, Some("currency"@), 150u16, false))
    + if periodicity != "Yearly"@ && !accumulated {
        seq![("total"@, "Total"@, "Currency"@, Some("currency"@), 150u16, false)]
    } else {
        Seq::empty()
    }
}

/// The key and label of each period.
pub open spec fn period_keys(periods: Seq<Period>) -> Seq<(Seq<char>, Seq<char>)> {
    Seq::new(periods.len(), |i: int| (periods[i].key@, periods[i].label@))
}

fn push_column(columns: &mut Vec<ReportColumn>, c: ReportColumn)
    ensures
        final(columns).deep_view() == old(columns).deep_view().push(c.deep_view()),
{
    let ghost before = columns.deep_view();
    columns.push(c);
    assert(columns.deep_view() =~= before.push(c.deep_view()));
}

pub fn get_columns(periodicity: &str, period_list: &[Period], accumulated_values: bool, company: Option<&str>, cash_flow: bool)
    -> (r: Vec<ReportColumn>)
    ensures
        r.deep_view() == spec_columns(periodicity@, period_keys(period_list@), accumulated_values, company is Some, cash_flow),
{
    let mut columns: Vec<ReportColumn> = Vec::new();
    push_column(&mut columns, ReportColumn::link(
        if cash_flow { "Section" } else { "Account" }, if cash_flow { "section" } else { "account" }, "Account", 300, false));
    if !cash_flow {
        push_column(&mut columns, ReportColumn::data("Account Name", "acc_name", 250, true));
        push_column(&mut columns, ReportColumn::data("Account Number", "acc_number", 120, true));
    }
    if company.is_some() {
        push_column(&mut columns, ReportColumn::link("Currency", "currency", "Currency", 0, true));
    }
    let ghost head = columns.deep_view();
    let ghost keys = period_keys(period_list@);
    let mut i: usize = 0;
    while i < period_list.len()
        invariant
            i <= period_list@.len(),
            keys == period_keys(period_list@),
            columns.deep_view() == head + Seq::new(i as nat, |j: int| (keys[j].0, keys[j].1, "Currency"@, Some("currency"@), 150u16, false)),
        decreases period_list@.len() - i,
    {
        let p = &period_list[i];
        let mut c = ReportColumn::currency(p.label.as_str(), "period", 150);
        c.fieldname = p.key.clone();
        push_column(&mut columns, c);
        i = i + 1;
        assert(columns.deep_view() =~= head + Seq::new(i as nat, |j: int| (keys[j].0, keys[j].1, "Currency"@, Some("currency"@), 150u16, false)));
    }
    if !str_eq(periodicity, "Yearly") && !accumulated_values {
        push_column(&mut columns, ReportColumn::currency("Total", "total", 150));
    }
    assert(columns.deep_view() =~= spec_columns(periodicity@, keys, accumulated_values, company is Some, cash_flow));
    columns
}

/// The periods that name the company the filters give.
pub open spec fn spec_filtered_periods(company: Option<Seq<char>>, periods: Seq<Seq<char>>) -> Seq<Seq<char>> {
    periods.filter(|p: Seq<char>| company == Some(p))
}

pub fn get_filtered_list_for_consolidated_report(filters: &BTreeMap<String, String>, period_list: &[String]) -> (r: Vec<String>)
    ensures
        r.deep_view() == spec_filtered_periods(
            if filters.deep_view().contains_key("company"@) { Some(filters.deep_view()["company"@]) } else { None },
            period_list.deep_view()),
{
    let company = map_get(filters, "company");
    let ghost c = if filters.deep_view().contains_key("company"@) { Some(filters.deep_view()["company"@]) } else { None::<Seq<char>> };
    let ghost all = period_list.deep_view();
    let mut r: Vec<String> = Vec::new();
    let mut i: usize = 0;
    while i < period_list.len()
        invariant
            i <= period_list@.len(),
            all == period_list.deep_view(),
            c == (if filters.deep_view().contains_key("company"@) { Some(filters.deep_view()["company"@]) } else { None::<Seq<char>> }),
            company matches Some(v) ==> c == Some(v@),
            company is None ==> c is None,
            r.deep_view() == spec_filtered_periods(c, all.subrange(0, i as int)),
        decreases period_list@.len() - i,
    {
        assert(all.subrange(0, i + 1).drop_last() =~= all.subrange(0, i as int));
        let keep = match company {
            Some(v) => str_eq(v.as_str(), period_list[i].as_str()),
            None => false,
        };
        if keep {
            let ghost before = r.deep_view();
            r.push(period_list[i].clone());
            assert(r.deep_view() =~= before.push(all[i as int]));
        }
        proof {
            reveal_with_fuel(Seq::filter, 1);
        }
        i = i + 1;
    }
    assert(all.subrange(0, i as int) =~= all);
    r
}

/// A date as its three numbers.
pub type Ymd = (i32, u32, u32);

/// The length of a month as the statements count it: 30 days for a number
/// that is no month.
pub open spec fn statement_month_days(y: int, m: int) -> int {
    if m == 1 || m == 3 || m == 5 || m == 7 || m == 8 || m == 10 || m == 12 { 31 }
    else if m == 4 || m == 6 || m == 9 || m == 11 { 30 }
    else if m == 2 { if is_leap(y) { 29 } else { 28 } }
    else { 30 }
}

fn month_days(year: i32, month: u32) -> (r: u32)
    ensures
        r == statement_month_days(year as int, month as int),
{
    if month == 1 || month == 3 || month == 5 || month == 7 || month == 8 || month == 10 || month == 12 {
        31
    } else if month == 4 || month == 6 || month == 9 || month == 11 {
        30
    } else if month == 2 {
        if is_leap_year(year) { 29 } else { 28 }
    } else {
        30
    }
}

/// The months counted from year 0 to a date's month.
pub open spec fn month_of(d: Ymd) -> int {
    12 * d.0 + d.1 - 1
}

/// `months` calendar months after `d`, the day kept unless the month is
/// shorter (for a non-negative month count).
pub open spec fn months_after(d: Ymd, months: int) -> Ymd {
    let total = month_of(d) + months;
    let year = total / 12;
    let month = total % 12 + 1;
    let day = if d.2 <= statement_month_days(year, month) { d.2 as int } else { statement_month_days(year, month) };
    (year as i32, month as u32, day as u32)
}

/// The day before `d`, for a date whose month is at least 1.
pub open spec fn day_before(d: Ymd) -> Ymd {
    if d.2 > 1 {
        (d.0, d.1, (d.2 - 1) as u32)
    } else if d.1 > 1 {
        (d.0, (d.1 - 1) as u32, statement_month_days(d.0 as int, d.1 - 1) as u32)
    } else {
        ((d.0 - 1) as i32, 12u32, 31u32)
    }
}

/// `a` comes after `b`, by year, then month, then day.
pub open spec fn date_after(a: Ymd, b: Ymd) -> bool {
    a.0 > b.0 || (a.0 == b.0 && (a.1 > b.1 || (a.1 == b.1 && a.2 > b.2)))
}

/// The end of the period that starts at `start`, in step `i`: the day before
/// the next start, which is `step` months later (from the first of the month
/// for the first period of a date range), but not after `end`; and that next
/// start.
pub open spec fn period_end(start: Ymd, i: int, step: int, date_range: bool, end: Ymd) -> (Ymd, Ymd) {
    let next = if i == 0 && date_range { months_after((start.0, start.1, 1u32), step) } else { months_after(start, step) };
    let before = day_before(next);
    (if date_after(before, end) { end } else { before }, next)
}

/// The (from, to) dates of the periods from step `i` on, up to step `n`,
/// stopping after the period that ends on `end`.
pub open spec fn period_dates(start: Ymd, i: int, n: int, step: int, date_range: bool, end: Ymd) -> Seq<(Ymd, Ymd)>
    decreases n - i,
{
    if i >= n {
        Seq::empty()
    } else {
        let (to, next) = period_end(start, i, step, date_range, end);
        seq![(start, to)] + if to == end { Seq::empty() } else { period_dates(next, i + 1, n, step, date_range, end) }
    }
}

pub open spec fn month_key_abbr(month: u32) -> Seq<char> {
    if month == 1 { "jan"@ } else if month == 2 { "feb"@ } else if month == 3 { "mar"@ }
    else if month == 4 { "apr"@ } else if month == 5 { "may"@ } else if month == 6 { "jun"@ }
    else if month == 7 { "jul"@ } else if month == 8 { "aug"@ } else if month == 9 { "sep"@ }
    else if month == 10 { "oct"@ } else if month == 11 { "nov"@ } else if month == 12 { "dec"@ }
    else { ""@ }
}

/// A period's key names the month it ends in by the lowered three-letter
/// name of that month: distinct months get distinct keys.
pub proof fn lemma_month_keys(m1: u32, m2: u32)
    requires
        1 <= m1 <= 12,
        1 <= m2 <= 12,
    ensures
        month_key_abbr(m1) == ascii_lowered(spec_month_abbr(m1)),
        m1 != m2 ==> month_key_abbr(m1) != month_key_abbr(m2),
{
    reveal_strlit("Jan"); reveal_strlit("Feb"); reveal_strlit("Mar"); reveal_strlit("Apr"); reveal_strlit("May");
    reveal_strlit("Jun"); reveal_strlit("Jul"); reveal_strlit("Aug"); reveal_strlit("Sep"); reveal_strlit("Oct");
    reveal_strlit("Nov"); reveal_strlit("Dec");
    reveal_strlit("jan"); reveal_strlit("feb"); reveal_strlit("mar"); reveal_strlit("apr"); reveal_strlit("may");
    reveal_strlit("jun"); reveal_strlit("jul"); reveal_strlit("aug"); reveal_strlit("sep"); reveal_strlit("oct");
    reveal_strlit("nov"); reveal_strlit("dec");
    assert(month_key_abbr(m1) =~= ascii_lowered(spec_month_abbr(m1)));
    if m1 != m2 {
        let a = month_key_abbr(m1);
        let b = month_key_abbr(m2);
        if a == b {
            assert(a[0] == b[0] && a[1] == b[1] && a[2] == b[2]);
        }
    }
}

fn month_key(month: u32) -> (r: &'static str)
    ensures
        r@ == month_key_abbr(month),
{
    match month {
        1 => "jan", 2 => "feb", 3 => "mar", 4 => "apr", 5 => "may", 6 => "jun",
        7 => "jul", 8 => "aug", 9 => "sep", 10 => "oct", 11 => "nov", 12 => "dec",
        _ => "",
    }
}

/// The settings of a period list beyond its dates.
#[derive(Debug, PartialEq, Eq)]
pub struct PeriodOptions {
    pub periodicity: String,
    pub accumulated_values: bool,
    pub reset_period_on_fy_change: bool,
    pub ignore_fiscal_year: bool,
}

/// The settings as plain values: periodicity, accumulated, reset on a new
/// fiscal year, fiscal years ignored.
pub type PeriodSettings = (Seq<char>, bool, bool, bool);

impl View for PeriodOptions {
    type V = PeriodSettings;

    open spec fn view(&self) -> PeriodSettings {
        (self.periodicity@, self.accumulated_values, self.reset_period_on_fy_change, self.ignore_fiscal_year)
    }
}

/// The label of a period: month and year for unaccumulated monthly periods;
/// otherwise the label of the period itself, of its span from the start of
/// its fiscal year, or of its span from the start of the list.
pub open spec fn period_label(o: PeriodSettings, from: Ymd, to: Ymd, list_start: Ymd) -> Seq<char> {
    if o.0 == "Monthly"@ && !o.1 {
        spec_month_abbr(to.1) + " "@ + int_text(to.0 as int)
    } else if !o.1 {
        label_text(o.0, from, to)
    } else if o.2 {
        label_text(o.0, if o.3 { from } else { (from.0, 1u32, 1u32) }, to)
    } else {
        label_text(o.0, list_start, to)
    }
}

/// Unaccumulated monthly periods are labelled by the month they end in and
/// its year: the label starts with the first three letters of that month's
/// English name, then a space, then the year; periods ending in different
/// months get different labels.
pub proof fn lemma_monthly_labels(o: PeriodSettings, from1: Ymd, to1: Ymd, from2: Ymd, to2: Ymd, start: Ymd)
    requires
        o.0 == "Monthly"@,
        !o.1,
        1 <= to1.1 <= 12,
        1 <= to2.1 <= 12,
    ensures
        period_label(o, from1, to1, start) == spec_month_name(to1.1).subrange(0, 3) + " "@ + int_text(to1.0 as int),
        to1.1 != to2.1 ==> period_label(o, from1, to1, start) != period_label(o, from2, to2, start),
{
    lemma_month_abbr_names(to1.1, to2.1);
    lemma_month_abbr_names(to2.1, to1.1);
    let l1 = period_label(o, from1, to1, start);
    let l2 = period_label(o, from2, to2, start);
    if to1.1 != to2.1 && l1 == l2 {
        assert(l1.subrange(0, 3) =~= spec_month_abbr(to1.1));
        assert(l2.subrange(0, 3) =~= spec_month_abbr(to2.1));
    }
}

/// A period as plain values: key, label, from, to, year start and end, the
/// fiscal year of its end and the start of its start's year.
pub type PeriodView = (Seq<char>, Seq<char>, Seq<char>, Seq<char>, Seq<char>, Seq<char>, Option<Seq<char>>, Option<Seq<char>>);

impl DeepView for Period {
    type V = PeriodView;

    open spec fn deep_view(&self) -> PeriodView {
        (self.key@, self.label@, self.from_date@, self.to_date@, self.year_start_date@, self.year_end_date@,
            self.to_date_fiscal_year.deep_view(), self.from_date_fiscal_year_start_date.deep_view())
    }
}

spec fn ymd_view(d: SimpleDate) -> Ymd {
    (d.year, d.month, d.day)
}

pub open spec fn ymd_text(d: Ymd) -> Seq<char> {
    date_text(d.0 as int, d.1 as int, d.2 as int)
}

/// The period for dates `from` to `to` of a list from `start` to `end`.
pub open spec fn period_of(o: PeriodSettings, from: Ymd, to: Ymd, start: Ymd, end: Ymd) -> PeriodView {
    (month_key_abbr(to.1) + "_"@ + int_text(to.0 as int), period_label(o, from, to, start), ymd_text(from), ymd_text(to),
        ymd_text(start), ymd_text(end),
        if o.3 { None } else { Some("FY"@ + int_text(to.0 as int)) },
        if o.3 { None } else { Some(date_text(from.0 as int, 1, 1)) })
}

pub open spec fn periods_of(o: PeriodSettings, dates: Seq<(Ymd, Ymd)>, start: Ymd, end: Ymd) -> Seq<PeriodView> {
    Seq::new(dates.len(), |k: int| period_of(o, dates[k].0, dates[k].1, start, end))
}

/// The months a periodicity steps by.
pub open spec fn step_months(periodicity: Seq<char>) -> Option<int> {
    if periodicity == "Yearly"@ { Some(12) } else if periodicity == "Half-Yearly"@ { Some(6) }
    else if periodicity == "Quarterly"@ { Some(3) } else if periodicity == "Monthly"@ { Some(1) } else { None }
}

/// Division rounding toward zero, by a positive divisor.
pub open spec fn tdiv(a: int, b: int) -> int {
    if a >= 0 { a / b } else { -((-a) / b) }
}

/// The periods from `start` to `end`, each `step` months long.
pub open spec fn spec_periods(o: PeriodSettings, start: Ymd, end: Ymd, step: int, date_range: bool) -> Seq<PeriodView> {
    let months = month_of(end) - month_of(start) + 1;
    periods_of(o, period_dates(start, 0, tdiv(months + step - 1, step), step, date_range, end), start, end)
}

/// The arithmetic of the list stays within `i32`: month counts up to a year
/// past the end.
pub open spec fn period_arithmetic_fits(start: Ymd, end: Ymd) -> bool {
    start.1 <= i32::MAX && end.1 <= i32::MAX && month_of(end) + 12 <= i32::MAX && month_of(start) + 12 <= i32::MAX
}

fn months_after_exec(d: SimpleDate, months: i32) -> (r: SimpleDate)
    requires
        d.year >= 0,
        0 <= month_of((d.year, d.month, d.day)) + months <= i32::MAX,
        d.month <= i32::MAX,
        12 * d.year + d.month <= i32::MAX,
    ensures
        (r.year, r.month, r.day) == months_after((d.year, d.month, d.day), months as int),
        1 <= r.month <= 12,
        r.year >= 0,
        month_of((r.year, r.month, r.day)) == month_of((d.year, d.month, d.day)) + months,
{
    let total = d.year * 12 + d.month as i32 - 1 + months;
    let year = total / 12;
    let month = (total % 12 + 1) as u32;
    let dim = month_days(year, month);
    let day = if d.day <= dim { d.day } else { dim };
    SimpleDate { year, month, day }
}

fn day_before_exec(d: SimpleDate) -> (r: SimpleDate)
    requires
        d.month >= 1,
        d.year >= 0,
    ensures
        (r.year, r.month, r.day) == day_before((d.year, d.month, d.day)),
{
    if d.day > 1 {
        SimpleDate { year: d.year, month: d.month, day: d.day - 1 }
    } else if d.month > 1 {
        SimpleDate { year: d.year, month: d.month - 1, day: month_days(d.year, d.month - 1) }
    } else {
        SimpleDate { year: d.year - 1, month: 12, day: 31 }
    }
}

fn after(a: SimpleDate, b: SimpleDate) -> (r: bool)
    ensures
        r == date_after((a.year, a.month, a.day), (b.year, b.month, b.day)),
{
    a.year > b.year || (a.year == b.year && (a.month > b.month || (a.month == b.month && a.day > b.day)))
}

fn make_period(o: &PeriodOptions, from: SimpleDate, to: SimpleDate, start: SimpleDate, end: SimpleDate) -> (r: Period)
    ensures
        r.deep_view() == period_of(o@, (from.year, from.month, from.day), (to.year, to.month, to.day),
            (start.year, start.month, start.day), (end.year, end.month, end.day)),
{
    let key = concat(concat(month_key(to.month), "_").as_str(), i64_text(to.year as i64).as_str());
    let p = o.periodicity.as_str();
    let label = if str_eq(p, "Monthly") && !o.accumulated_values {
        concat(concat(month_abbr(to.month), " ").as_str(), i64_text(to.year as i64).as_str())
    } else if !o.accumulated_values {
        label_from(p, from, to)
    } else if o.reset_period_on_fy_change {
        let f = if o.ignore_fiscal_year { from } else { SimpleDate { year: from.year, month: 1, day: 1 } };
        label_from(p, f, to)
    } else {
        label_from(p, start, to)
    };
    Period {
        key,
        label,
        from_date: format_date(from.year, from.month, from.day),
        to_date: format_date(to.year, to.month, to.day),
        year_start_date: format_date(start.year, start.month, start.day),
        year_end_date: format_date(end.year, end.month, end.day),
        to_date_fiscal_year: if o.ignore_fiscal_year { None } else { Some(concat("FY", i64_text(to.year as i64).as_str())) },
        from_date_fiscal_year_start_date: if o.ignore_fiscal_year { None } else { Some(format_date(from.year, 1, 1)) },
    }
}

proof fn lemma_step_bound(months: int, step: int, n: int, i: int)
    requires
        1 <= step <= 12,
        n == tdiv(months + step - 1, step),
        0 <= i < n,
    ensures
        (i + 1) * step <= months + step - 1,
        i * step <= months - 1,
{
    assert(months + step - 1 > 0) by {
        if months + step - 1 <= 0 {
            assert(-(months + step - 1) >= 0);
            assert(tdiv(months + step - 1, step) <= 0) by (nonlinear_arith)
                requires months + step - 1 <= 0, step >= 1, tdiv(months + step - 1, step) == -((-(months + step - 1)) / step);
        }
    }
    assert(n * step <= months + step - 1) by (nonlinear_arith)
        requires n == (months + step - 1) / step, step >= 1, months + step - 1 > 0;
    assert((i + 1) * step <= n * step) by (nonlinear_arith)
        requires i + 1 <= n, step >= 1;
    assert((i + 1) * step == i * step + step) by (nonlinear_arith);
}

fn build_periods(o: &PeriodOptions, ys: SimpleDate, ye: SimpleDate, step: i32, date_range: bool) -> (r: Vec<Period>)
    requires
        period_arithmetic_fits(ymd_view(ys), ymd_view(ye)),
        ys.year >= 0,
        ye.year >= 0,
        1 <= step <= 12,
    ensures
        r.deep_view() == spec_periods(o@, ymd_view(ys), ymd_view(ye), step as int, date_range),
{
    let ghost s0 = ymd_view(ys);
    let ghost e0 = ymd_view(ye);
    let months: i64 = (12 * ye.year as i64 + ye.month as i64) - (12 * ys.year as i64 + ys.month as i64) + 1;
    assert(months == month_of(e0) - month_of(s0) + 1);
    let stepl = step as i64;
    let n: i64 = if months + stepl - 1 >= 0 { (months + stepl - 1) / stepl } else { -((-(months + stepl - 1)) / stepl) };
    assert(n == tdiv(months + step - 1, step as int));
    let ghost all = period_dates(s0, 0, n as int, step as int, date_range, e0);
    let ghost mut done_dates: Seq<(Ymd, Ymd)> = Seq::empty();
    let mut out: Vec<Period> = Vec::new();
    let mut start = ys;
    let mut i: i64 = 0;
    let mut done = false;
    assert(out.deep_view() =~= periods_of(o@, done_dates, s0, e0));
    while i < n && !done
        invariant
            period_arithmetic_fits(s0, e0),
            ys.year >= 0,
            ye.year >= 0,
            s0 == ymd_view(ys),
            e0 == ymd_view(ye),
            1 <= step <= 12,
            n == tdiv(months + step - 1, step as int),
            months == month_of(e0) - month_of(s0) + 1,
            all == period_dates(s0, 0, n as int, step as int, date_range, e0),
            0 <= i,
            start.year >= 0,
            start.month <= i32::MAX,
            !done && i == 0 ==> start == ys,
            !done && i > 0 ==> 1 <= start.month <= 12 && month_of(ymd_view(start)) == month_of(s0) + i * step,
            out.deep_view() == periods_of(o@, done_dates, s0, e0),
            done_dates + (if done { Seq::empty() } else { period_dates(ymd_view(start), i as int, n as int, step as int, date_range, e0) }) == all,
        decreases n - i, if done { 0int } else { 1 },
    {
        proof { lemma_step_bound(months as int, step as int, n as int, i as int); }
        assert(i * step <= months - 1) by (nonlinear_arith)
            requires i * step <= months - 1;
        let from = start;
        let base = if i == 0 && date_range { SimpleDate { year: start.year, month: start.month, day: 1 } } else { start };
        assert(month_of(ymd_view(base)) == month_of(ymd_view(start)));
        assert(month_of(ymd_view(start)) <= month_of(s0) + i * step);
        let next = months_after_exec(base, step);
        assert(i < n);
        let before = day_before_exec(next);
        let to = if after(before, ye) { ye } else { before };
        let ghost pe = period_end(ymd_view(start), i as int, step as int, date_range, e0);
        assert(ymd_view(to) == pe.0 && ymd_view(next) == pe.1);
        let p = make_period(o, from, to, ys, ye);
        let ghost rest = period_dates(ymd_view(start), i as int, n as int, step as int, date_range, e0);
        let ghost before_out = out.deep_view();
        out.push(p);
        assert(out.deep_view() =~= before_out.push(p.deep_view()));
        proof {
            let new_done = done_dates.push((ymd_view(from), ymd_view(to)));
            assert(periods_of(o@, new_done, s0, e0) =~= periods_of(o@, done_dates, s0, e0).push(period_of(o@, ymd_view(from), ymd_view(to), s0, e0)));
            done_dates = new_done;
        }
        if to.year == ye.year && to.month == ye.month && to.day == ye.day {
            done = true;
            assert(done_dates =~= all);
        } else {
            assert(done_dates + period_dates(ymd_view(next), i + 1, n as int, step as int, date_range, e0) =~= all);
            start = next;
            assert((i + 1) * step == i * step + step) by (nonlinear_arith);
        }
        i = i + 1;
    }
    proof {
        if !done {
            assert(done_dates + Seq::<(Ymd, Ymd)>::empty() =~= done_dates);
        }
    }
    assert(done_dates == all);
    out
}

proof fn lemma_dates_chain(start: Ymd, i: int, n: int, step: int, date_range: bool, end: Ymd)
    ensures ({
        let dates = period_dates(start, i, n, step, date_range, end);
        &&& dates.len() > 0 ==> dates[0].0 == start
        &&& forall|k: int| 0 <= k < dates.len() ==> !date_after(#[trigger] dates[k].1, end)
        &&& forall|k: int| 0 <= k < dates.len() - 1 ==> #[trigger] dates[k].1 == day_before(dates[k + 1].0)
    }),
    decreases n - i,
{
    if i < n {
        let (to, next) = period_end(start, i, step, date_range, end);
        let dates = period_dates(start, i, n, step, date_range, end);
        if to != end {
            lemma_dates_chain(next, i + 1, n, step, date_range, end);
            let rest = period_dates(next, i + 1, n, step, date_range, end);
            assert(dates == seq![(start, to)] + rest);
            assert forall|k: int| 0 <= k < dates.len() implies !date_after(#[trigger] dates[k].1, end) by {
                if k > 0 {
                    assert(dates[k] == rest[k - 1]);
                }
            }
            assert forall|k: int| 0 <= k < dates.len() - 1 implies #[trigger] dates[k].1 == day_before(dates[k + 1].0) by {
                if k > 0 {
                    assert(dates[k] == rest[k - 1]);
                    assert(dates[k + 1] == rest[k]);
                } else {
                    assert(rest[0].0 == next);
                }
            }
        }
    }
}

/// Later by months counted from year 0 means later as a date, for months that
/// are among the twelve.
proof fn lemma_later_month(a: Ymd, b: Ymd)
    requires
        1 <= a.1 <= 12,
        1 <= b.1 <= 12,
        month_of(a) > month_of(b),
    ensures
        date_after(a, b),
{
}

proof fn lemma_months_after(d: Ymd, months: int)
    requires
        month_of(d) + months >= 0,
        month_of(d) + months <= i32::MAX,
        1 <= d.2,
    ensures ({
        let r = months_after(d, months);
        &&& month_of(r) == month_of(d) + months
        &&& 1 <= r.1 <= 12
        &&& 1 <= r.2 <= statement_month_days(r.0 as int, r.1 as int)
        &&& r.0 >= 0
    }),
{
    let total = month_of(d) + months;
    assert(total == 12 * (total / 12) + total % 12);
}

/// The day before a date whose month comes after the month of `end` is not
/// before `end`.
proof fn lemma_day_before_past(next: Ymd, end: Ymd)
    requires
        1 <= next.1 <= 12,
        1 <= next.2,
        1 <= end.1 <= 12,
        end.2 <= statement_month_days(end.0 as int, end.1 as int),
        month_of(next) > month_of(end),
        next.0 >= 1,
    ensures
        date_after(day_before(next), end) || day_before(next) == end,
{
    let b = day_before(next);
    if next.2 > 1 {
        lemma_later_month(b, end);
    } else {
        assert(month_of(b) == month_of(next) - 1);
        if month_of(b) > month_of(end) {
            lemma_later_month(b, end);
        } else {
            assert(b.0 == end.0 && b.1 == end.1);
        }
    }
}

proof fn lemma_dates_reach_end(start: Ymd, i: int, n: int, step: int, date_range: bool, end: Ymd, m0: int)
    requires
        0 <= i < n,
        1 <= step <= 12,
        1 <= start.1 <= 12,
        1 <= start.2,
        start.0 >= 0,
        month_of(start) == m0 + i * step,
        m0 + n * step > month_of(end),
        month_of(start) <= month_of(end),
        month_of(end) + 12 <= i32::MAX,
        1 <= end.1 <= 12,
        end.2 <= statement_month_days(end.0 as int, end.1 as int),
    ensures
        period_dates(start, i, n, step, date_range, end).len() > 0,
        period_dates(start, i, n, step, date_range, end).last().1 == end,
    decreases n - i,
{
    let (to, next) = period_end(start, i, step, date_range, end);
    let from = if i == 0 && date_range { (start.0, start.1, 1u32) } else { start };
    lemma_months_after(from, step);
    assert(next == months_after(from, step));
    assert(month_of(next) == m0 + (i + 1) * step) by (nonlinear_arith)
        requires month_of(next) == month_of(start) + step, month_of(start) == m0 + i * step;
    let dates = period_dates(start, i, n, step, date_range, end);
    if to != end {
        if i + 1 == n {
            assert(next.0 >= 1);
            lemma_day_before_past(next, end);
            assert(false);
        }
        if month_of(next) > month_of(end) {
            assert(next.0 >= 1);
            lemma_day_before_past(next, end);
            assert(false);
        }
        lemma_dates_reach_end(next, i + 1, n, step, date_range, end, m0);
        let rest = period_dates(next, i + 1, n, step, date_range, end);
        assert(dates == seq![(start, to)] + rest);
        assert(dates.last() == rest.last());
    }
}

/// The periods of a statement run one after another from its first date to
/// its last: the first starts on the first date, each later one starts on the
/// day after the one before it ends, none ends after the last date, and the
/// last ends on it.
pub proof fn lemma_periods_cover(start: Ymd, end: Ymd, step: int, date_range: bool)
    requires
        1 <= step <= 12,
        1 <= start.1 <= 12,
        1 <= start.2,
        start.0 >= 0,
        1 <= end.1 <= 12,
        end.2 <= statement_month_days(end.0 as int, end.1 as int),
        month_of(start) <= month_of(end),
        period_arithmetic_fits(start, end),
    ensures ({
        let months = month_of(end) - month_of(start) + 1;
        let dates = period_dates(start, 0, tdiv(months + step - 1, step), step, date_range, end);
        &&& dates.len() > 0
        &&& dates[0].0 == start
        &&& dates.last().1 == end
        &&& forall|k: int| 0 <= k < dates.len() ==> !date_after(#[trigger] dates[k].1, end)
        &&& forall|k: int| 0 <= k < dates.len() - 1 ==> #[trigger] dates[k].1 == day_before(dates[k + 1].0)
    }),
{
    let months = month_of(end) - month_of(start) + 1;
    let n = tdiv(months + step - 1, step);
    assert(n == (months + step - 1) / step);
    assert(n * step >= months && n >= 1) by (nonlinear_arith)
        requires n == (months + step - 1) / step, months >= 1, step >= 1;
    lemma_dates_chain(start, 0, n, step, date_range, end);
    lemma_dates_reach_end(start, 0, n, step, date_range, end, month_of(start));
}

/// A ledger entry counts toward a period when it is posted on or before the
/// period's end, and on or after its start unless values accumulate; when
/// values do not accumulate across fiscal years, only toward periods that end
/// in the entry's own fiscal year.
pub open spec fn counts_toward(posting_date: Seq<char>, fiscal_year: Seq<char>, p: PeriodView, accumulated: bool,
    ignore_accumulated_for_fy: bool) -> bool
{
    &&& !lex_less(p.3, posting_date)
    &&& (accumulated || !lex_less(posting_date, p.2))
    &&& (!ignore_accumulated_for_fy || p.6 == Some(fiscal_year))
}

/// The indices of the periods an entry counts toward, in order.
pub open spec fn entry_period_indices(posting_date: Seq<char>, fiscal_year: Seq<char>, periods: Seq<PeriodView>,
    accumulated: bool, ignore_accumulated_for_fy: bool) -> Seq<int>
    decreases periods.len(),
{
    if periods.len() == 0 {
        Seq::empty()
    } else {
        let before = entry_period_indices(posting_date, fiscal_year, periods.drop_last(), accumulated, ignore_accumulated_for_fy);
        if counts_toward(posting_date, fiscal_year, periods.last(), accumulated, ignore_accumulated_for_fy) {
            before.push(periods.len() - 1)
        } else {
            before
        }
    }
}

/// The periods of the list that a ledger entry posted on `posting_date` in
/// `fiscal_year` adds its amount to.
pub fn entry_periods(posting_date: &str, fiscal_year: &str, period_list: &[Period], accumulated_values: bool,
    ignore_accumulated_values_for_fy: bool) -> (r: Vec<usize>)
    ensures
        r@.map_values(|v: usize| v as int) == entry_period_indices(posting_date@, fiscal_year@, period_list.deep_view(),
            accumulated_values, ignore_accumulated_values_for_fy),
{
    let ghost all = period_list.deep_view();
    let mut out: Vec<usize> = Vec::new();
    let mut i: usize = 0;
    while i < period_list.len()
        invariant
            i <= all.len(),
            all == period_list.deep_view(),
            out@.map_values(|v: usize| v as int) == entry_period_indices(posting_date@, fiscal_year@, all.subrange(0, i as int),
                accumulated_values, ignore_accumulated_values_for_fy),
        decreases all.len() - i,
    {
        assert(all.subrange(0, i + 1).drop_last() =~= all.subrange(0, i as int));
        assert(all.subrange(0, i + 1).last() == all[i as int]);
        let p = &period_list[i];
        assert(all[i as int] == p.deep_view());
        let fy_ok = match &p.to_date_fiscal_year {
            Some(f) => str_eq(f.as_str(), fiscal_year),
            None => false,
        };
        if !str_less(p.to_date.as_str(), posting_date)
            && (accumulated_values || !str_less(posting_date, p.from_date.as_str()))
            && (!ignore_accumulated_values_for_fy || fy_ok)
        {
            let ghost before = out@.map_values(|v: usize| v as int);
            out.push(i);
            assert(out@.map_values(|v: usize| v as int) =~= before.push(i as int));
        }
        i = i + 1;
    }
    assert(all.subrange(0, i as int) =~= all);
    out
}

/// An entry posted before the first period's fiscal year starts adds to the
/// opening balance.
pub fn counts_as_opening(posting_date: &str, period_list: &[Period]) -> (r: bool)
    ensures
        r == (period_list@.len() > 0 && lex_less(posting_date@, period_list@[0].year_start_date@)),
{
    if period_list.len() == 0 {
        false
    } else {
        str_less(posting_date, period_list[0].year_start_date.as_str())
    }
}

/// What the account tree reads of an account: its name, parent, left bound,
/// root type and report type.
#[derive(Debug, PartialEq, Eq)]
pub struct AccountNodeKeys {
    pub name: String,
    pub parent_account: Option<String>,
    pub lft: i32,
    pub root_type: String,
    pub report_type: String,
}

/// name, parent, left bound, root type, report type
pub type NodeView = (Seq<char>, Option<Seq<char>>, i32, Seq<char>, Seq<char>);

impl DeepView for AccountNodeKeys {
    type V = NodeView;

    open spec fn deep_view(&self) -> NodeView {
        (self.name@, self.parent_account.deep_view(), self.lft, self.root_type@, self.report_type@)
    }
}

/// The names the accounts have.
pub open spec fn name_set(nodes: Seq<NodeView>) -> Set<Seq<char>> {
    Set::new(|n: Seq<char>| exists|i: int| 0 <= i < nodes.len() && #[trigger] nodes[i].0 == n)
}

/// The account kept for its name: of those with the name, the one with the
/// greatest left bound, the later one of two with the same bound (as sorting
/// by left bound and then keying by name leaves it).
pub open spec fn wins(nodes: Seq<NodeView>, i: int) -> bool {
    &&& 0 <= i < nodes.len()
    &&& forall|j: int| 0 <= j < nodes.len() && #[trigger] nodes[j].0 == nodes[i].0
        ==> nodes[j].2 < nodes[i].2 || (nodes[j].2 == nodes[i].2 && j <= i)
}

pub open spec fn kept_account(nodes: Seq<NodeView>, name: Seq<char>) -> int {
    choose|i: int| wins(nodes, i) && nodes[i].0 == name
}

proof fn lemma_wins_unique(nodes: Seq<NodeView>, i: int, k: int)
    requires
        wins(nodes, i),
        wins(nodes, k),
        nodes[i].0 == nodes[k].0,
    ensures
        i == k,
{
    assert(nodes[k].0 == nodes[i].0);
}

pub(crate) fn insert_name(names: &mut Vec<String>, name: &str)
    requires
        texts_strictly_sorted(old(names).deep_view()),
    ensures
        texts_strictly_sorted(final(names).deep_view()),
        forall|k: Seq<char>| #[trigger] final(names).deep_view().contains(k) <==> (old(names).deep_view().contains(k) || k == name@),
{
    let ghost before = names.deep_view();
    let mut p: usize = 0;
    while p < names.len() && str_less(names[p].as_str(), name)
        invariant
            p <= names@.len(),
            before == names.deep_view(),
            forall|j: int| 0 <= j < p ==> lex_less(#[trigger] before[j], name@),
        decreases names@.len() - p,
    {
        p = p + 1;
    }
    if p < names.len() && str_eq(names[p].as_str(), name) {
        assert(before[p as int] == name@);
        assert forall|k: Seq<char>| #[trigger] names.deep_view().contains(k) <==> (before.contains(k) || k == name@) by {
            if k == name@ {
                assert(before[p as int] == k);
            }
        }
        return;
    }
    proof {
        if p < before.len() {
            lemma_lex_total(before[p as int], name@);
        }
    }
    names.insert(p, owned(name));
    let ghost after = names.deep_view();
    assert(after =~= before.insert(p as int, name@));
    assert forall|x: int, y: int| 0 <= x < y < after.len() implies lex_less(#[trigger] after[x], #[trigger] after[y]) by {
        if y < p {
            assert(after[x] == before[x] && after[y] == before[y]);
        } else if y == p {
            assert(after[x] == before[x]);
        } else if x == p {
            assert(after[y] == before[y - 1]);
            if y - 1 > p {
                assert(lex_less(before[p as int], before[y - 1]));
                lemma_lex_transitive(name@, before[p as int], before[y - 1]);
            }
        } else if x < p {
            assert(after[x] == before[x] && after[y] == before[y - 1]);
            if y - 1 >= p {
                assert(lex_less(before[x], name@));
                if y - 1 == p {
                    lemma_lex_transitive(before[x], name@, before[p as int]);
                } else {
                    assert(lex_less(before[p as int], before[y - 1]));
                    lemma_lex_transitive(name@, before[p as int], before[y - 1]);
                    lemma_lex_transitive(before[x], name@, before[y - 1]);
                }
            }
        } else {
            assert(after[x] == before[x - 1] && after[y] == before[y - 1]);
        }
    }
    assert forall|k: Seq<char>| #[trigger] after.contains(k) <==> (before.contains(k) || k == name@) by {
        if after.contains(k) {
            let a = choose|a: int| 0 <= a < after.len() && after[a] == k;
            if a < p { assert(before[a] == k); } else if a > p { assert(before[a - 1] == k); }
        }
        if before.contains(k) {
            let b = choose|b: int| 0 <= b < before.len() && before[b] == k;
            if b < p { assert(after[b] == k); } else { assert(after[b + 1] == k); }
        }
        if k == name@ {
            assert(after[p as int] == k);
        }
    }
}

/// The names of the accounts, each once, in ascending order.
pub open spec fn account_names(nodes: Seq<NodeView>) -> Seq<Seq<char>> {
    ordered_texts(name_set(nodes))
}

fn sorted_names(accounts: &[AccountNodeKeys]) -> (r: Vec<String>)
    ensures
        r.deep_view() == account_names(accounts.deep_view()),
        forall|k: Seq<char>| #[trigger] r.deep_view().contains(k) <==> name_set(accounts.deep_view()).contains(k),
{
    let ghost nodes = accounts.deep_view();
    let mut names: Vec<String> = Vec::new();
    let mut i: usize = 0;
    while i < accounts.len()
        invariant
            i <= nodes.len(),
            nodes == accounts.deep_view(),
            texts_strictly_sorted(names.deep_view()),
            forall|k: Seq<char>| #[trigger] names.deep_view().contains(k)
                <==> exists|j: int| 0 <= j < i && #[trigger] nodes[j].0 == k,
        decreases nodes.len() - i,
    {
        let ghost before = names.deep_view();
        assert(nodes[i as int] == accounts@[i as int].deep_view());
        insert_name(&mut names, accounts[i].name.as_str());
        assert forall|k: Seq<char>| #[trigger] names.deep_view().contains(k)
            <==> exists|j: int| 0 <= j < i + 1 && #[trigger] nodes[j].0 == k by {
            if names.deep_view().contains(k) && k != nodes[i as int].0 {
                assert(before.contains(k));
            }
            if exists|j: int| 0 <= j < i + 1 && #[trigger] nodes[j].0 == k {
                let j = choose|j: int| 0 <= j < i + 1 && #[trigger] nodes[j].0 == k;
                if j < i {
                    assert(before.contains(k));
                }
            }
        }
        i = i + 1;
    }
    proof {
        assert forall|k: Seq<char>| names.deep_view().contains(k) <==> name_set(nodes).contains(k) by {}
        lemma_ordered_texts(names.deep_view(), name_set(nodes));
    }
    names
}

fn kept_index(accounts: &[AccountNodeKeys], name: &str) -> (r: usize)
    requires
        name_set(accounts.deep_view()).contains(name@),
    ensures
        r as int == kept_account(accounts.deep_view(), name@),
        r < accounts@.len(),
{
    let ghost nodes = accounts.deep_view();
    let mut best: usize = 0;
    let mut found = false;
    let mut j: usize = 0;
    while j < accounts.len()
        invariant
            j <= nodes.len(),
            nodes == accounts.deep_view(),
            found ==> best < j && nodes[best as int].0 == name@,
            found ==> forall|q: int| 0 <= q < j && #[trigger] nodes[q].0 == name@
                ==> nodes[q].2 < nodes[best as int].2 || (nodes[q].2 == nodes[best as int].2 && q <= best),
            !found ==> forall|q: int| 0 <= q < j ==> #[trigger] nodes[q].0 != name@,
        decreases nodes.len() - j,
    {
        assert(nodes[j as int] == accounts@[j as int].deep_view());
        if str_eq(accounts[j].name.as_str(), name) && (!found || accounts[j].lft >= accounts[best].lft) {
            best = j;
            found = true;
        }
        j = j + 1;
    }
    proof {
        let w = choose|w: int| 0 <= w < nodes.len() && #[trigger] nodes[w].0 == name@;
        assert(found);
        assert(wins(nodes, best as int));
        let k = kept_account(nodes, name@);
        assert(wins(nodes, k) && nodes[k].0 == name@);
        lemma_wins_unique(nodes, best as int, k);
    }
    best
}

/// The order of a root account: balance-sheet roots before the others, and
/// within each, assets, liabilities, equity, income, expenses, then the rest.
pub open spec fn root_priority(root_type: Seq<char>, report_type: Seq<char>) -> int {
    let priority = if root_type == "Asset"@ { 0int } else if root_type == "Liability"@ { 1int }
        else if root_type == "Equity"@ { 2int } else if root_type == "Income"@ { 3int }
        else if root_type == "Expense"@ { 4int } else { 5int };
    (if report_type == "Balance Sheet"@ { 0int } else { 10int }) + priority
}

/// A row of the tree table: a name, the index of the account kept for it, its
/// parent and its root priority.
pub type TreeRowView = (Seq<char>, int, Option<Seq<char>>, int);

pub open spec fn tree_row(nodes: Seq<NodeView>, name: Seq<char>) -> TreeRowView {
    let k = kept_account(nodes, name);
    (name, k, nodes[k].1, root_priority(nodes[k].3, nodes[k].4))
}

/// The rows, one per name in ascending order, whose parent is `parent`.
pub open spec fn with_parent(rows: Seq<TreeRowView>, parent: Option<Seq<char>>) -> Seq<TreeRowView>
    decreases rows.len(),
{
    if rows.len() == 0 {
        Seq::empty()
    } else {
        let before = with_parent(rows.drop_last(), parent);
        if rows.last().2 == parent { before.push(rows.last()) } else { before }
    }
}

/// The rows of root priority `p`, in order.
pub open spec fn with_priority(rows: Seq<TreeRowView>, p: int) -> Seq<TreeRowView>
    decreases rows.len(),
{
    if rows.len() == 0 {
        Seq::empty()
    } else {
        let before = with_priority(rows.drop_last(), p);
        if rows.last().3 == p { before.push(rows.last()) } else { before }
    }
}

/// The rows ordered by root priority below `p`, stably.
pub open spec fn by_priority(rows: Seq<TreeRowView>, p: nat) -> Seq<TreeRowView>
    decreases p,
{
    if p == 0 { Seq::empty() } else { by_priority(rows, (p - 1) as nat) + with_priority(rows, p - 1) }
}

/// The children of `parent` in the order they are listed: roots by priority
/// and then name, other accounts by name.
pub open spec fn children_rows(table: Seq<TreeRowView>, parent: Option<Seq<char>>) -> Seq<TreeRowView> {
    let rows = with_parent(table, parent);
    if parent is None { by_priority(rows, 16) } else { rows }
}

/// The accounts below `parent`, depth first, each with its depth; at most
/// `fuel` levels deep.
pub open spec fn visit(table: Seq<TreeRowView>, parent: Option<Seq<char>>, level: int, fuel: nat) -> Seq<(int, int)>
    decreases fuel, 0nat,
{
    if fuel == 0 {
        Seq::empty()
    } else {
        visit_rows(table, children_rows(table, parent), level, (fuel - 1) as nat)
    }
}

pub open spec fn visit_rows(table: Seq<TreeRowView>, kids: Seq<TreeRowView>, level: int, fuel: nat) -> Seq<(int, int)>
    decreases fuel, kids.len() + 1,
{
    if kids.len() == 0 {
        Seq::empty()
    } else {
        let last = kids.last();
        visit_rows(table, kids.drop_last(), level, fuel) + seq![(last.1, level)] + visit(table, Some(last.0), level + 1, fuel)
    }
}

/// The tree table of the accounts: one row per name in ascending order.
pub open spec fn tree_table(nodes: Seq<NodeView>) -> Seq<TreeRowView> {
    let names = account_names(nodes);
    Seq::new(names.len(), |i: int| tree_row(nodes, names[i]))
}

/// The accounts as the statements list them: one account per name, depth
/// first from the roots, each with its depth.
pub open spec fn account_listing(nodes: Seq<NodeView>) -> Seq<(int, int)> {
    visit(tree_table(nodes), None, 0, (nodes.len() + 1) as nat)
}

/// name, kept account, parent, root priority
pub type TreeRow = (String, usize, Option<String>, i32);

pub open spec fn tree_rows_view(rows: Seq<TreeRow>) -> Seq<TreeRowView> {
    Seq::new(rows.len(), |i: int| (rows[i].0@, rows[i].1 as int, rows[i].2.deep_view(), rows[i].3 as int))
}

fn priority_of(root_type: &str, report_type: &str) -> (r: i32)
    ensures
        r == root_priority(root_type@, report_type@),
        0 <= r < 16,
{
    let priority: i32 = if str_eq(root_type, "Asset") { 0 } else if str_eq(root_type, "Liability") { 1 }
        else if str_eq(root_type, "Equity") { 2 } else if str_eq(root_type, "Income") { 3 }
        else if str_eq(root_type, "Expense") { 4 } else { 5 };
    (if str_eq(report_type, "Balance Sheet") { 0 } else { 10 }) + priority
}

fn build_tree_table(accounts: &[AccountNodeKeys]) -> (r: Vec<TreeRow>)
    ensures
        tree_rows_view(r@) == tree_table(accounts.deep_view()),
        forall|i: int| 0 <= i < r@.len() ==> #[trigger] r@[i].1 < accounts@.len(),
{
    let ghost nodes = accounts.deep_view();
    let names = sorted_names(accounts);
    let ghost nv = names.deep_view();
    let mut rows: Vec<TreeRow> = Vec::new();
    let mut i: usize = 0;
    while i < names.len()
        invariant
            i <= nv.len(),
            nodes == accounts.deep_view(),
            nv == names.deep_view(),
            nv == account_names(nodes),
            forall|k: Seq<char>| #[trigger] nv.contains(k) <==> name_set(nodes).contains(k),
            tree_rows_view(rows@) == Seq::new(i as nat, |q: int| tree_row(nodes, nv[q])),
            forall|q: int| 0 <= q < rows@.len() ==> #[trigger] rows@[q].1 < accounts@.len(),
        decreases nv.len() - i,
    {
        assert(nv.contains(nv[i as int]));
        assert(names@[i as int]@ == nv[i as int]);
        let k = kept_index(accounts, names[i].as_str());
        let acc = &accounts[k];
        assert(nodes[k as int] == acc.deep_view());
        let row: TreeRow = (owned(names[i].as_str()), k, acc.parent_account.clone(), priority_of(acc.root_type.as_str(), acc.report_type.as_str()));
        let ghost before = rows@;
        rows.push(row);
        assert(rows@ == before.push(row));
        assert(tree_rows_view(rows@) =~= tree_rows_view(before).push(tree_row(nodes, nv[i as int])));
        assert(tree_rows_view(rows@) =~= Seq::new((i + 1) as nat, |q: int| tree_row(nodes, nv[q])));
        i = i + 1;
    }
    rows
}

pub open spec fn parent_view(parent: Option<&str>) -> Option<Seq<char>> {
    match parent {
        Some(p) => Some(p@),
        None => None,
    }
}

fn same_parent(a: &Option<String>, b: Option<&str>) -> (r: bool)
    ensures
        r == (a.deep_view() == parent_view(b)),
{
    match (a, b) {
        (Some(x), Some(y)) => str_eq(x.as_str(), y),
        (None, None) => true,
        _ => false,
    }
}

pub open spec fn picked(tv: Seq<TreeRowView>, idx: Seq<usize>) -> Seq<TreeRowView> {
    Seq::new(idx.len(), |j: int| tv[idx[j] as int])
}

fn children_of(table: &Vec<TreeRow>, parent: Option<&str>) -> (r: Vec<usize>)
    ensures
        picked(tree_rows_view(table@), r@) == children_rows(tree_rows_view(table@), parent_view(parent)),
        forall|j: int| 0 <= j < r@.len() ==> #[trigger] r@[j] < table@.len(),
{
    let ghost tv = tree_rows_view(table@);
    let ghost pv = parent_view(parent);
    let mut rows: Vec<usize> = Vec::new();
    let mut i: usize = 0;
    while i < table.len()
        invariant
            i <= tv.len(),
            tv == tree_rows_view(table@),
            pv == parent_view(parent),
            picked(tv, rows@) == with_parent(tv.subrange(0, i as int), pv),
            forall|j: int| 0 <= j < rows@.len() ==> #[trigger] rows@[j] < table@.len(),
        decreases tv.len() - i,
    {
        assert(tv.subrange(0, i + 1).drop_last() =~= tv.subrange(0, i as int));
        assert(tv.subrange(0, i + 1).last() == tv[i as int]);
        if same_parent(&table[i].2, parent) {
            let ghost before = rows@;
            rows.push(i);
            assert(picked(tv, rows@) =~= picked(tv, before).push(tv[i as int]));
        }
        i = i + 1;
    }
    assert(tv.subrange(0, i as int) =~= tv);
    if parent.is_some() {
        return rows;
    }
    let ghost wp = picked(tv, rows@);
    let mut out: Vec<usize> = Vec::new();
    let mut p: i32 = 0;
    while p < 16
        invariant
            0 <= p <= 16,
            tv == tree_rows_view(table@),
            wp == picked(tv, rows@),
            picked(tv, out@) == by_priority(wp, p as nat),
            forall|j: int| 0 <= j < rows@.len() ==> #[trigger] rows@[j] < table@.len(),
            forall|j: int| 0 <= j < out@.len() ==> #[trigger] out@[j] < table@.len(),
        decreases 16 - p,
    {
        let ghost start = picked(tv, out@);
        let mut k: usize = 0;
        while k < rows.len()
            invariant
                k <= rows@.len(),
                0 <= p < 16,
                tv == tree_rows_view(table@),
                wp == picked(tv, rows@),
                picked(tv, out@) == start + with_priority(wp.subrange(0, k as int), p as int),
                forall|j: int| 0 <= j < rows@.len() ==> #[trigger] rows@[j] < table@.len(),
                forall|j: int| 0 <= j < out@.len() ==> #[trigger] out@[j] < table@.len(),
            decreases rows@.len() - k,
        {
            assert(wp.subrange(0, k + 1).drop_last() =~= wp.subrange(0, k as int));
            assert(wp.subrange(0, k + 1).last() == wp[k as int]);
            assert(wp[k as int] == tv[rows@[k as int] as int]);
            if table[rows[k]].3 == p {
                let ghost before = out@;
                out.push(rows[k]);
                assert(picked(tv, out@) =~= picked(tv, before).push(tv[rows@[k as int] as int]));
            }
            k = k + 1;
        }
        assert(wp.subrange(0, k as int) =~= wp);
        p = p + 1;
    }
    out
}

pub open spec fn listing_view(out: Seq<(usize, i32)>) -> Seq<(int, int)> {
    Seq::new(out.len(), |j: int| (out[j].0 as int, out[j].1 as int))
}

fn visit_tree(table: &Vec<TreeRow>, parent: Option<&str>, level: i32, fuel: usize, out: &mut Vec<(usize, i32)>)
    requires
        0 <= level,
        level + fuel <= i32::MAX,
    ensures
        listing_view(final(out)@) == listing_view(old(out)@) + visit(tree_rows_view(table@), parent_view(parent), level as int, fuel as nat),
    decreases fuel,
{
    let ghost tv = tree_rows_view(table@);
    if fuel == 0 {
        assert(listing_view(old(out)@) + visit(tv, parent_view(parent), level as int, fuel as nat) =~= listing_view(out@));
        return;
    }
    let kids = children_of(table, parent);
    let ghost kv = picked(tv, kids@);
    let ghost start = listing_view(out@);
    let mut j: usize = 0;
    while j < kids.len()
        invariant
            j <= kids@.len(),
            tv == tree_rows_view(table@),
            kv == picked(tv, kids@),
            kv == children_rows(tv, parent_view(parent)),
            forall|q: int| 0 <= q < kids@.len() ==> #[trigger] kids@[q] < table@.len(),
            0 <= level,
            level + fuel <= i32::MAX,
            fuel > 0,
            listing_view(out@) == start + visit_rows(tv, kv.subrange(0, j as int), level as int, (fuel - 1) as nat),
        decreases kids@.len() - j,
    {
        let row = &table[kids[j]];
        assert(kv[j as int] == tv[kids@[j as int] as int]);
        assert(kv.subrange(0, j + 1).drop_last() =~= kv.subrange(0, j as int));
        assert(kv.subrange(0, j + 1).last() == kv[j as int]);
        let ghost before = listing_view(out@);
        out.push((row.1, level));
        assert(listing_view(out@) =~= before + seq![(kv[j as int].1, level as int)]);
        let ghost mid = listing_view(out@);
        visit_tree(table, Some(row.0.as_str()), level + 1, fuel - 1, out);
        assert(listing_view(out@) =~= start + visit_rows(tv, kv.subrange(0, j + 1), level as int, (fuel - 1) as nat));
        j = j + 1;
    }
    assert(kv.subrange(0, j as int) =~= kv);
}

/// The parent names that the rows of the tree table give.
pub open spec fn named_parents(table: Seq<TreeRowView>) -> Set<Seq<char>> {
    Set::new(|p: Seq<char>| exists|i: int| 0 <= i < table.len() && #[trigger] table[i].2 == Some(p))
}

/// The parents of the tree table in key order: no parent first, where some
/// account has none, then the parent names in ascending order.
pub open spec fn parent_keys(table: Seq<TreeRowView>) -> Seq<Option<Seq<char>>> {
    (if exists|i: int| 0 <= i < table.len() && #[trigger] table[i].2 is None { seq![None] } else { Seq::empty() })
        + ordered_texts(named_parents(table)).map_values(|p: Seq<char>| Some(p))
}

pub open spec fn row_names(rows: Seq<TreeRowView>) -> Seq<Seq<char>> {
    rows.map_values(|r: TreeRowView| r.0)
}

/// The statements' parent-children map, as (parent, children) in key order:
/// for each parent, the names of the accounts kept under it, ascending.
pub open spec fn parent_children(nodes: Seq<NodeView>) -> Seq<(Option<Seq<char>>, Seq<Seq<char>>)> {
    let t = tree_table(nodes);
    parent_keys(t).map_values(|p: Option<Seq<char>>| (p, row_names(with_parent(t, p))))
}

pub open spec fn children_entries_view(e: Seq<(Option<String>, Vec<String>)>) -> Seq<(Option<Seq<char>>, Seq<Seq<char>>)> {
    Seq::new(e.len(), |i: int| (e[i].0.deep_view(), e[i].1.deep_view()))
}

fn children_named(table: &Vec<TreeRow>, parent: Option<&str>) -> (r: Vec<String>)
    ensures
        r.deep_view() == row_names(with_parent(tree_rows_view(table@), parent_view(parent))),
{
    let ghost tv = tree_rows_view(table@);
    let ghost pv = parent_view(parent);
    let mut out: Vec<String> = Vec::new();
    let mut i: usize = 0;
    while i < table.len()
        invariant
            i <= tv.len(),
            tv == tree_rows_view(table@),
            pv == parent_view(parent),
            out.deep_view() == row_names(with_parent(tv.subrange(0, i as int), pv)),
        decreases tv.len() - i,
    {
        assert(tv.subrange(0, i + 1).drop_last() =~= tv.subrange(0, i as int));
        assert(tv.subrange(0, i + 1).last() == tv[i as int]);
        if same_parent(&table[i].2, parent) {
            let ghost before = out.deep_view();
            out.push(owned(table[i].0.as_str()));
            assert(out.deep_view() =~= before.push(tv[i as int].0));
            assert(row_names(with_parent(tv.subrange(0, i + 1), pv)) =~= row_names(with_parent(tv.subrange(0, i as int), pv)).push(tv[i as int].0));
        } else {
            assert(row_names(with_parent(tv.subrange(0, i + 1), pv)) =~= row_names(with_parent(tv.subrange(0, i as int), pv)));
        }
        i = i + 1;
    }
    assert(tv.subrange(0, i as int) =~= tv);
    out
}

/// The statements' parent-children map: each parent (none first, then by
/// name) with the names of the accounts kept under it, ascending.
pub fn parent_children_map(accounts: &[AccountNodeKeys]) -> (r: Vec<(Option<String>, Vec<String>)>)
    ensures
        children_entries_view(r@) == parent_children(accounts.deep_view()),
{
    let table = build_tree_table(accounts);
    let ghost tv = tree_rows_view(table@);
    let mut names: Vec<String> = Vec::new();
    let mut has_none = false;
    let mut i: usize = 0;
    while i < table.len()
        invariant
            i <= tv.len(),
            tv == tree_rows_view(table@),
            texts_strictly_sorted(names.deep_view()),
            forall|k: Seq<char>| #[trigger] names.deep_view().contains(k) <==> exists|j: int| 0 <= j < i && #[trigger] tv[j].2 == Some(k),
            has_none == exists|j: int| 0 <= j < i && #[trigger] tv[j].2 is None,
        decreases tv.len() - i,
    {
        let ghost before = names.deep_view();
        assert(tv[i as int].2 == table@[i as int].2.deep_view());
        match &table[i].2 {
            Some(p) => insert_name(&mut names, p.as_str()),
            None => { has_none = true; },
        }
        assert forall|k: Seq<char>| #[trigger] names.deep_view().contains(k) <==> exists|j: int| 0 <= j < i + 1 && #[trigger] tv[j].2 == Some(k) by {
            if exists|j: int| 0 <= j < i + 1 && #[trigger] tv[j].2 == Some(k) {
                let j = choose|j: int| 0 <= j < i + 1 && #[trigger] tv[j].2 == Some(k);
                if j < i {
                    assert(before.contains(k));
                }
            }
            if names.deep_view().contains(k) && !before.contains(k) {
                assert(tv[i as int].2 == Some(k));
            }
        }
        proof {
            if tv[i as int].2 is None {
                assert(0 <= i < i + 1 && tv[i as int].2 is None);
            }
        }
        i = i + 1;
    }
    proof {
        assert forall|k: Seq<char>| names.deep_view().contains(k) <==> named_parents(tv).contains(k) by {}
        lemma_ordered_texts(names.deep_view(), named_parents(tv));
    }
    let ghost target = parent_children(accounts.deep_view());
    let ghost keys = parent_keys(tv);
    let mut out: Vec<(Option<String>, Vec<String>)> = Vec::new();
    let ghost offset: int = if has_none { 1 } else { 0 };
    if has_none {
        let kids = children_named(&table, None);
        out.push((None, kids));
        assert(keys[0] == None::<Seq<char>>);
    }
    assert(children_entries_view(out@) =~= target.subrange(0, offset));
    let mut k: usize = 0;
    while k < names.len()
        invariant
            k <= names@.len(),
            tv == tree_rows_view(table@),
            tv == tree_table(accounts.deep_view()),
            target == parent_children(accounts.deep_view()),
            keys == parent_keys(tv),
            names.deep_view() == ordered_texts(named_parents(tv)),
            offset == (if has_none { 1int } else { 0int }),
            has_none == exists|j: int| 0 <= j < tv.len() && #[trigger] tv[j].2 is None,
            target.len() == offset + names@.len(),
            children_entries_view(out@) == target.subrange(0, offset + k),
        decreases names@.len() - k,
    {
        let p = names[k].as_str();
        let kids = children_named(&table, Some(p));
        let ghost before = children_entries_view(out@);
        out.push((Some(owned(p)), kids));
        assert(keys[offset + k] == Some(names.deep_view()[k as int]));
        assert(children_entries_view(out@) =~= before.push(target[offset + k]));
        assert(target.subrange(0, offset + k + 1) =~= target.subrange(0, offset + k).push(target[offset + k]));
        k = k + 1;
    }
    assert(target.subrange(0, offset + k) =~= target);
    out
}

/// Root types rank as the statements list them: within one report type,
/// assets, liabilities, equity, income, expenses, then any other root type;
/// and every balance-sheet root before every root of another report.
pub proof fn lemma_root_type_order(report: Seq<char>, other: Seq<char>, r1: Seq<char>, r2: Seq<char>, report2: Seq<char>)
    ensures
        root_priority("Asset"@, report) < root_priority("Liability"@, report),
        root_priority("Liability"@, report) < root_priority("Equity"@, report),
        root_priority("Equity"@, report) < root_priority("Income"@, report),
        root_priority("Income"@, report) < root_priority("Expense"@, report),
        !root_type_order().contains(other) ==> root_priority("Expense"@, report) < root_priority(other, report),
        report2 != "Balance Sheet"@ ==> root_priority(r1, "Balance Sheet"@) < root_priority(r2, report2),
{
    assert(root_type_order()[0] == "Asset"@ && root_type_order()[1] == "Liability"@ && root_type_order()[2] == "Equity"@
        && root_type_order()[3] == "Income"@ && root_type_order()[4] == "Expense"@);
    reveal_strlit("Asset");
    reveal_strlit("Liability");
    reveal_strlit("Equity");
    reveal_strlit("Income");
    reveal_strlit("Expense");
    assert("Asset"@ != "Liability"@) by { assert("Asset"@[0] != "Liability"@[0]); }
    assert("Asset"@ != "Equity"@) by { assert("Asset"@[0] != "Equity"@[0]); }
    assert("Asset"@ != "Income"@) by { assert("Asset"@[0] != "Income"@[0]); }
    assert("Asset"@ != "Expense"@) by { assert("Asset"@[0] != "Expense"@[0]); }
    assert("Liability"@ != "Equity"@) by { assert("Liability"@[0] != "Equity"@[0]); }
    assert("Liability"@ != "Income"@) by { assert("Liability"@[0] != "Income"@[0]); }
    assert("Liability"@ != "Expense"@) by { assert("Liability"@[0] != "Expense"@[0]); }
    assert("Equity"@ != "Income"@) by { assert("Equity"@[0] != "Income"@[0]); }
    assert("Equity"@ != "Expense"@) by { assert("Equity"@[1] != "Expense"@[1]); }
    assert("Income"@ != "Expense"@) by { assert("Income"@[0] != "Expense"@[0]); }
}

proof fn lemma_with_parent_within(rows: Seq<TreeRowView>, parent: Option<Seq<char>>)
    ensures
        forall|i: int| 0 <= i < with_parent(rows, parent).len() ==> rows.contains(#[trigger] with_parent(rows, parent)[i]),
    decreases rows.len(),
{
    if rows.len() > 0 {
        lemma_with_parent_within(rows.drop_last(), parent);
        let before = with_parent(rows.drop_last(), parent);
        assert forall|i: int| 0 <= i < with_parent(rows, parent).len() implies rows.contains(#[trigger] with_parent(rows, parent)[i]) by {
            if i < before.len() {
                let x = before[i];
                assert(rows.drop_last().contains(x));
                let k = choose|k: int| 0 <= k < rows.drop_last().len() && rows.drop_last()[k] == x;
                assert(rows[k] == x);
            } else {
                assert(rows[rows.len() - 1] == rows.last());
            }
        }
    }
}

proof fn lemma_with_priority_within(rows: Seq<TreeRowView>, p: int)
    ensures
        forall|i: int| 0 <= i < with_priority(rows, p).len() ==> rows.contains(#[trigger] with_priority(rows, p)[i])
            && with_priority(rows, p)[i].3 == p,
    decreases rows.len(),
{
    if rows.len() > 0 {
        lemma_with_priority_within(rows.drop_last(), p);
        let before = with_priority(rows.drop_last(), p);
        assert forall|i: int| 0 <= i < with_priority(rows, p).len() implies rows.contains(#[trigger] with_priority(rows, p)[i])
            && with_priority(rows, p)[i].3 == p by {
            if i < before.len() {
                let x = before[i];
                assert(rows.drop_last().contains(x));
                let k = choose|k: int| 0 <= k < rows.drop_last().len() && rows.drop_last()[k] == x;
                assert(rows[k] == x);
            } else {
                assert(rows[rows.len() - 1] == rows.last());
            }
        }
    }
}

/// Ordering by root priority lists rows of lower priority first, and takes
/// only rows of the table.
proof fn lemma_by_priority_sorted(rows: Seq<TreeRowView>, p: nat)
    ensures
        forall|i: int| 0 <= i < by_priority(rows, p).len() ==> rows.contains(#[trigger] by_priority(rows, p)[i])
            && by_priority(rows, p)[i].3 < p,
        forall|i: int, j: int| 0 <= i < j < by_priority(rows, p).len()
            ==> #[trigger] by_priority(rows, p)[i].3 <= #[trigger] by_priority(rows, p)[j].3,
    decreases p,
{
    if p > 0 {
        lemma_by_priority_sorted(rows, (p - 1) as nat);
        lemma_with_priority_within(rows, p - 1);
        let a = by_priority(rows, (p - 1) as nat);
        let b = with_priority(rows, p - 1);
        let s = by_priority(rows, p);
        assert(s == a + b);
        assert forall|i: int| 0 <= i < s.len() implies rows.contains(#[trigger] s[i]) && s[i].3 < p by {
            if i < a.len() {
                assert(s[i] == a[i]);
            } else {
                assert(s[i] == b[i - a.len()]);
            }
        }
        assert forall|i: int, j: int| 0 <= i < j < s.len() implies #[trigger] s[i].3 <= #[trigger] s[j].3 by {
            if j < a.len() {
                assert(s[i] == a[i] && s[j] == a[j]);
            } else if i < a.len() {
                assert(s[i] == a[i] && s[j] == b[j - a.len()]);
            } else {
                assert(s[i] == b[i - a.len()] && s[j] == b[j - a.len()]);
            }
        }
    }
}

/// The account places listed at depth `l`, in order.
pub open spec fn at_level(s: Seq<(int, int)>, l: int) -> Seq<int>
    decreases s.len(),
{
    if s.len() == 0 {
        Seq::empty()
    } else {
        at_level(s.drop_last(), l) + if s.last().1 == l { seq![s.last().0] } else { Seq::empty() }
    }
}

proof fn lemma_at_level_concat(a: Seq<(int, int)>, b: Seq<(int, int)>, l: int)
    ensures
        at_level(a + b, l) == at_level(a, l) + at_level(b, l),
    decreases b.len(),
{
    if b.len() == 0 {
        assert(a + b =~= a);
        assert(at_level(a, l) + at_level(b, l) =~= at_level(a, l));
    } else {
        lemma_at_level_concat(a, b.drop_last(), l);
        assert((a + b).drop_last() =~= a + b.drop_last());
        assert((a + b).last() == b.last());
        assert(at_level(a + b, l) =~= at_level(a, l) + at_level(b, l));
    }
}

proof fn lemma_at_level_deeper(s: Seq<(int, int)>, l: int)
    requires
        forall|i: int| 0 <= i < s.len() ==> #[trigger] s[i].1 > l,
    ensures
        at_level(s, l) == Seq::<int>::empty(),
    decreases s.len(),
{
    if s.len() > 0 {
        assert(s.last() == s[s.len() - 1]);
        lemma_at_level_deeper(s.drop_last(), l);
        assert(at_level(s, l) =~= Seq::<int>::empty());
    }
}

proof fn lemma_visit_levels(table: Seq<TreeRowView>, parent: Option<Seq<char>>, level: int, fuel: nat)
    ensures
        forall|i: int| 0 <= i < visit(table, parent, level, fuel).len() ==> #[trigger] visit(table, parent, level, fuel)[i].1 >= level,
    decreases fuel, 0nat,
{
    if fuel > 0 {
        lemma_visit_rows_levels(table, children_rows(table, parent), level, (fuel - 1) as nat);
        assert(visit(table, parent, level, fuel) == visit_rows(table, children_rows(table, parent), level, (fuel - 1) as nat));
    }
}

proof fn lemma_visit_rows_levels(table: Seq<TreeRowView>, kids: Seq<TreeRowView>, level: int, fuel: nat)
    ensures
        forall|i: int| 0 <= i < visit_rows(table, kids, level, fuel).len()
            ==> #[trigger] visit_rows(table, kids, level, fuel)[i].1 >= level,
    decreases fuel, kids.len() + 1,
{
    if kids.len() > 0 {
        let last = kids.last();
        lemma_visit_rows_levels(table, kids.drop_last(), level, fuel);
        lemma_visit_levels(table, Some(last.0), level + 1, fuel);
        let a = visit_rows(table, kids.drop_last(), level, fuel);
        let b = visit(table, Some(last.0), level + 1, fuel);
        let s = visit_rows(table, kids, level, fuel);
        assert(s == a + seq![(last.1, level)] + b);
        assert forall|i: int| 0 <= i < s.len() implies #[trigger] s[i].1 >= level by {
            if i < a.len() {
                assert(s[i] == a[i]);
            } else if i == a.len() {
                assert(s[i] == (last.1, level));
            } else {
                assert(s[i] == b[i - a.len() - 1]);
            }
        }
    }
}

proof fn lemma_visit_rows_top(table: Seq<TreeRowView>, kids: Seq<TreeRowView>, level: int, fuel: nat)
    ensures
        at_level(visit_rows(table, kids, level, fuel), level) == kids.map_values(|r: TreeRowView| r.1),
    decreases kids.len(),
{
    if kids.len() == 0 {
        assert(kids.map_values(|r: TreeRowView| r.1) =~= Seq::<int>::empty());
    } else {
        let last = kids.last();
        lemma_visit_rows_top(table, kids.drop_last(), level, fuel);
        let a = visit_rows(table, kids.drop_last(), level, fuel);
        let b = visit(table, Some(last.0), level + 1, fuel);
        lemma_visit_levels(table, Some(last.0), level + 1, fuel);
        lemma_at_level_deeper(b, level);
        let one = seq![(last.1, level)];
        assert(one.drop_last() =~= Seq::<(int, int)>::empty());
        assert(at_level(Seq::<(int, int)>::empty(), level) == Seq::<int>::empty());
        assert(one.last() == (last.1, level));
        assert(at_level(one, level) =~= seq![last.1]);
        lemma_at_level_concat(a, one, level);
        lemma_at_level_concat(a + one, b, level);
        assert(kids.map_values(|r: TreeRowView| r.1) =~= kids.drop_last().map_values(|r: TreeRowView| r.1).push(last.1));
        assert(at_level(visit_rows(table, kids, level, fuel), level) =~= kids.map_values(|r: TreeRowView| r.1));
    }
}

/// The roots of the listing (the accounts at depth zero) come in order of
/// their root priority: by report type and then root type, as
/// `lemma_root_type_order` ranks them. So an income root is listed before an
/// expense root of the same report.
pub proof fn lemma_roots_listed_by_priority(nodes: Seq<NodeView>)
    ensures
        forall|i: int, j: int| 0 <= i < j < at_level(account_listing(nodes), 0).len() ==>
            root_priority(nodes[#[trigger] at_level(account_listing(nodes), 0)[i]].3,
                nodes[at_level(account_listing(nodes), 0)[i]].4)
            <= root_priority(nodes[#[trigger] at_level(account_listing(nodes), 0)[j]].3,
                nodes[at_level(account_listing(nodes), 0)[j]].4),
{
    let table = tree_table(nodes);
    let fuel = (nodes.len() + 1) as nat;
    let kids = children_rows(table, None);
    let roots = with_parent(table, None);
    assert(account_listing(nodes) == visit_rows(table, kids, 0, (fuel - 1) as nat));
    lemma_visit_rows_top(table, kids, 0, (fuel - 1) as nat);
    lemma_with_parent_within(table, None);
    lemma_by_priority_sorted(roots, 16);
    let top = at_level(account_listing(nodes), 0);
    assert(top == kids.map_values(|r: TreeRowView| r.1));
    assert forall|x: int| 0 <= x < kids.len() implies
        (#[trigger] kids[x]).3 == root_priority(nodes[kids[x].1].3, nodes[kids[x].1].4) by {
        let r = kids[x];
        assert(roots.contains(r));
        let y = choose|y: int| 0 <= y < roots.len() && roots[y] == r;
        assert(table.contains(roots[y]));
        let z = choose|z: int| 0 <= z < table.len() && table[z] == r;
        assert(table[z] == tree_row(nodes, account_names(nodes)[z]));
    }
    assert forall|i: int, j: int| 0 <= i < j < top.len() implies
        root_priority(nodes[top[i]].3, nodes[top[i]].4) <= root_priority(nodes[top[j]].3, nodes[top[j]].4) by {
        assert(top[i] == kids[i].1 && top[j] == kids[j].1);
        assert(kids[i].3 <= kids[j].3);
    }
}

/// The root types in the order the statements list their roots.
pub open spec fn root_type_order() -> Seq<Seq<char>> {
    seq!["Asset"@, "Liability"@, "Equity"@, "Income"@, "Expense"@]
}

/// Of two roots of the same report, the one whose root type comes earlier
/// in asset, liability, equity, income, expense is listed first: an income
/// root is listed before an expense root.
pub proof fn lemma_roots_listed_by_type(nodes: Seq<NodeView>, i: int, j: int, a: int, b: int)
    requires
        0 <= i < at_level(account_listing(nodes), 0).len(),
        0 <= j < at_level(account_listing(nodes), 0).len(),
        0 <= a < b < 5,
        nodes[at_level(account_listing(nodes), 0)[i]].3 == root_type_order()[a],
        nodes[at_level(account_listing(nodes), 0)[j]].3 == root_type_order()[b],
        nodes[at_level(account_listing(nodes), 0)[i]].4 == nodes[at_level(account_listing(nodes), 0)[j]].4,
    ensures
        i < j,
{
    let top = at_level(account_listing(nodes), 0);
    let rep = nodes[top[i]].4;
    lemma_root_type_order(rep, "Asset"@, "Asset"@, "Asset"@, "Balance Sheet"@);
    let o = root_type_order();
    assert(root_priority(o[a], rep) < root_priority(o[b], rep));
    lemma_roots_listed_by_priority(nodes);
    if j <= i {
        if j < i {
            assert(root_priority(nodes[top[j]].3, nodes[top[j]].4) <= root_priority(nodes[top[i]].3, nodes[top[i]].4));
        }
    }
}

/// The accounts as the statements list them, as (account index, depth): one
/// account per name (the one with the greatest left bound, the later of two
/// with the same bound), depth first from the roots; roots ordered by report
/// and root type and then by name, other accounts by name. An account whose
/// parent is not among the accounts is left out; the listing goes no deeper
/// than the number of accounts, which a tree never reaches.
pub fn filter_accounts(accounts: &[AccountNodeKeys]) -> (r: Vec<(usize, i32)>)
    requires
        accounts@.len() + 1 <= i32::MAX,
    ensures
        listing_view(r@) == account_listing(accounts.deep_view()),
{
    let table = build_tree_table(accounts);
    let mut out: Vec<(usize, i32)> = Vec::new();
    visit_tree(&table, None, 0, accounts.len() + 1, &mut out);
    assert(listing_view(out@) =~= account_listing(accounts.deep_view()));
    out
}

/// The first and last dates of the list: those of the fiscal years named, or
/// the dates given (then both are needed); each check in turn may fail.
pub open spec fn period_bounds(from_fiscal_year: Seq<char>, to_fiscal_year: Seq<char>, start: Option<Seq<char>>,
    end: Option<Seq<char>>, based_on: Seq<char>, years: Map<Seq<char>, (Seq<char>, Seq<char>)>) -> Result<(Ymd, Ymd), Seq<char>>
{
    if based_on == "Fiscal Year"@ {
        match spec_fiscal_year_data(from_fiscal_year, to_fiscal_year, years) {
            Err(e) => Err(e),
            Ok(fy) => match spec_validate_fiscal_year(fy.0, fy.1) {
                Err(e) => Err(e),
                Ok(_) => match (parsed_date(fy.0), parsed_date(fy.1)) {
                    (None, _) => Err(invalid_date(fy.0)),
                    (_, None) => Err(invalid_date(fy.1)),
                    (Some(a), Some(b)) => Ok((a, b)),
                },
            },
        }
    } else {
        match (start, end) {
            (Some(s), Some(e)) => match spec_validate_dates(s, e) {
                Err(m) => Err(m),
                Ok(_) => match (parsed_date(s), parsed_date(e)) {
                    (None, _) => Err(invalid_date(s)),
                    (_, None) => Err(invalid_date(e)),
                    (Some(a), Some(b)) => Ok((a, b)),
                },
            },
            _ => Err("From Date and To Date are mandatory"@),
        }
    }
}

pub open spec fn opt_text(s: Option<&str>) -> Option<Seq<char>> {
    match s {
        Some(v) => Some(v@),
        None => None,
    }
}

/// The periods of a statement: the list's bounds, then its periodicity, then
/// dates that are written back and read again (a negative year does not read
/// back); the periods step through the months from the first date to the last.
pub open spec fn spec_period_list(from_fiscal_year: Seq<char>, to_fiscal_year: Seq<char>, start: Option<Seq<char>>,
    end: Option<Seq<char>>, based_on: Seq<char>, o: PeriodSettings, years: Map<Seq<char>, (Seq<char>, Seq<char>)>)
    -> Result<Seq<PeriodView>, Seq<char>>
{
    match period_bounds(from_fiscal_year, to_fiscal_year, start, end, based_on, years) {
        Err(e) => Err(e),
        Ok((ys, ye)) => match step_months(o.0) {
            None => Err("Unsupported periodicity "@ + o.0),
            Some(step) => {
                if ys.0 < 0 {
                    Err(invalid_date(ymd_text(ys)))
                } else if ye.0 < 0 {
                    Err(invalid_date(ymd_text(ye)))
                } else {
                    Ok(spec_periods(o, ys, ye, step, based_on == "Date Range"@))
                }
            },
        },
    }
}

/// Where the bounds read with non-negative years, the month arithmetic of the
/// list stays within `i32`.
pub open spec fn period_list_fits(from_fiscal_year: Seq<char>, to_fiscal_year: Seq<char>, start: Option<Seq<char>>,
    end: Option<Seq<char>>, based_on: Seq<char>, years: Map<Seq<char>, (Seq<char>, Seq<char>)>) -> bool
{
    match period_bounds(from_fiscal_year, to_fiscal_year, start, end, based_on, years) {
        Ok((ys, ye)) => ys.0 >= 0 && ye.0 >= 0 ==> period_arithmetic_fits(ys, ye),
        Err(_) => true,
    }
}

fn periodicity_step(periodicity: &str) -> (r: Option<i32>)
    ensures
        match (r, step_months(periodicity@)) {
            (Some(a), Some(b)) => a == b,
            (None, None) => true,
            _ => false,
        },
{
    if str_eq(periodicity, "Yearly") { Some(12) } else if str_eq(periodicity, "Half-Yearly") { Some(6) }
    else if str_eq(periodicity, "Quarterly") { Some(3) } else if str_eq(periodicity, "Monthly") { Some(1) } else { None }
}

pub fn get_period_list(from_fiscal_year: &str, to_fiscal_year: &str, period_start_date: Option<&str>, period_end_date: Option<&str>,
    filter_based_on: &str, periodicity: &str, accumulated_values: bool, reset_period_on_fy_change: bool, ignore_fiscal_year: bool,
    _company: bool, fiscal_years: &BTreeMap<String, FiscalYearData>) -> (r: Result<Vec<Period>, String>)
    requires
        step_months(periodicity@) is Some ==> period_list_fits(from_fiscal_year@, to_fiscal_year@, opt_text(period_start_date),
            opt_text(period_end_date), filter_based_on@, fiscal_years.deep_view()),
    ensures
        match (r, spec_period_list(from_fiscal_year@, to_fiscal_year@, opt_text(period_start_date), opt_text(period_end_date),
            filter_based_on@, (periodicity@, accumulated_values, reset_period_on_fy_change, ignore_fiscal_year),
            fiscal_years.deep_view())) {
            (Ok(v), Ok(s)) => v.deep_view() == s,
            (Err(e), Err(s)) => e@ == s,
            _ => false,
        },
{
    let (ys, ye) = if str_eq(filter_based_on, "Fiscal Year") {
        let fy = match get_fiscal_year_data(from_fiscal_year, to_fiscal_year, fiscal_years) { Ok(f) => f, Err(e) => return Err(e) };
        match validate_fiscal_year(&fy) { Ok(_) => {}, Err(e) => return Err(e) }
        let a = match parse_date(fy.year_start_date.as_str()) { Ok(d) => d, Err(e) => return Err(e) };
        let b = match parse_date(fy.year_end_date.as_str()) { Ok(d) => d, Err(e) => return Err(e) };
        (a, b)
    } else {
        let from = match period_start_date { Some(d) => d, None => return Err(owned("From Date and To Date are mandatory")) };
        let to = match period_end_date { Some(d) => d, None => return Err(owned("From Date and To Date are mandatory")) };
        match validate_dates(from, to) { Ok(_) => {}, Err(e) => return Err(e) }
        let a = match parse_date(from) { Ok(d) => d, Err(e) => return Err(e) };
        let b = match parse_date(to) { Ok(d) => d, Err(e) => return Err(e) };
        (a, b)
    };
    let step = match periodicity_step(periodicity) {
        Some(s) => s,
        None => return Err(concat("Unsupported periodicity ", periodicity)),
    };
    if ys.year < 0 {
        return Err(concat("Invalid date ", format_date(ys.year, ys.month, ys.day).as_str()));
    }
    if ye.year < 0 {
        return Err(concat("Invalid date ", format_date(ye.year, ye.month, ye.day).as_str()));
    }
    let o = PeriodOptions { periodicity: owned(periodicity), accumulated_values, reset_period_on_fy_change, ignore_fiscal_year };
    Ok(build_periods(&o, ys, ye, step, str_eq(filter_based_on, "Date Range")))
}

/// A parent and its children, as the parent-children map of the statements
/// holds them.
pub type ChildrenView = (Option<Seq<char>>, Seq<Seq<char>>);

pub open spec fn children_view(links: Seq<(Option<String>, Vec<String>)>) -> Seq<ChildrenView> {
    Seq::new(links.len(), |i: int| (links[i].0.deep_view(), links[i].1.deep_view()))
}

/// The parents that the links give to the accounts of `names`.
pub open spec fn parents_of(links: Seq<ChildrenView>, names: Set<Seq<char>>) -> Set<Seq<char>> {
    Set::new(|p: Seq<char>| exists|i: int, j: int| 0 <= i < links.len() && links[i].0 == Some(p) && 0 <= j
        < links[i].1.len() && #[trigger] names.contains(links[i].1[j]))
}

/// The accounts of `names` with their ancestors up to `k` levels above them.
pub open spec fn with_ancestors(links: Seq<ChildrenView>, names: Set<Seq<char>>, k: nat) -> Set<Seq<char>>
    decreases k,
{
    if k == 0 {
        names
    } else {
        let s = with_ancestors(links, names, (k - 1) as nat);
        s.union(parents_of(links, s))
    }
}

/// account, has a value
pub type ValueRowView = (Option<Seq<char>>, bool);

/// The accounts of the rows that have a value, or of every row that has an
/// account when zero values are shown.
pub open spec fn accounts_with_value(rows: Seq<ValueRowView>, show_zero_values: bool) -> Set<Seq<char>> {
    Set::new(|a: Seq<char>| exists|r: int| 0 <= r < rows.len() && #[trigger] rows[r].0 == Some(a) && (show_zero_values
        || rows[r].1))
}

/// The accounts shown: those with a value and all their ancestors, as many
/// levels up as there are parents in the links (which a tree never exceeds).
pub open spec fn accounts_to_show(rows: Seq<ValueRowView>, links: Seq<ChildrenView>, show_zero_values: bool) -> Set<
    Seq<char>,
> {
    with_ancestors(links, accounts_with_value(rows, show_zero_values), links.len())
}

pub open spec fn row_shown(rows: Seq<ValueRowView>, links: Seq<ChildrenView>, show_zero_values: bool, r: int) -> bool {
    rows[r].0 matches Some(a) && accounts_to_show(rows, links, show_zero_values).contains(a)
}

pub open spec fn value_rows_view(rows: Seq<(Option<String>, bool)>) -> Seq<ValueRowView> {
    Seq::new(rows.len(), |i: int| (rows[i].0.deep_view(), rows[i].1))
}

proof fn lemma_ancestors_grow(links: Seq<ChildrenView>, names: Set<Seq<char>>, k: nat)
    ensures
        names.subset_of(with_ancestors(links, names, k)),
    decreases k,
{
    if k > 0 {
        lemma_ancestors_grow(links, names, (k - 1) as nat);
    }
}

/// A row with a value is shown, and, when zero values are shown, so is every
/// row that has an account.
pub proof fn lemma_valued_rows_shown(rows: Seq<ValueRowView>, links: Seq<ChildrenView>, show_zero_values: bool, r: int)
    requires
        0 <= r < rows.len(),
        rows[r].0 is Some,
        show_zero_values || rows[r].1,
    ensures
        row_shown(rows, links, show_zero_values, r),
{
    let a = rows[r].0->0;
    assert(accounts_with_value(rows, show_zero_values).contains(a));
    lemma_ancestors_grow(links, accounts_with_value(rows, show_zero_values), links.len());
}

/// One more level of ancestors holds the parent of every account shown so far.
pub proof fn lemma_parent_of_shown_within_depth(links: Seq<ChildrenView>, names: Set<Seq<char>>, k: nat, x: int, j: int)
    requires
        0 <= x < links.len(),
        links[x].0 is Some,
        0 <= j < links[x].1.len(),
        with_ancestors(links, names, k).contains(links[x].1[j]),
    ensures
        with_ancestors(links, names, k + 1).contains(links[x].0->0),
{
    let s = with_ancestors(links, names, k);
    assert(s.contains(links[x].1[j]));
    assert(parents_of(links, s).contains(links[x].0->0));
}

/// The rows that a statement shows, as indices in row order: the rows whose
/// account has a value (or every row with an account when zero values are
/// shown), and the rows of their ancestors. A row is given by its account
/// and whether it has a value; `parent_children` holds, per parent, its
/// children.
pub fn filter_out_zero_value_rows(
    rows: &[(Option<String>, bool)],
    parent_children: &[(Option<String>, Vec<String>)],
    show_zero_values: bool,
) -> (r: Vec<usize>)
    ensures
        forall|k: int| 0 <= k < r@.len() ==> #[trigger] r@[k] < rows@.len() && row_shown(
            value_rows_view(rows@),
            children_view(parent_children@),
            show_zero_values,
            r@[k] as int,
        ),
        forall|i: int| 0 <= i < rows@.len() && row_shown(
            value_rows_view(rows@),
            children_view(parent_children@),
            show_zero_values,
            i,
        ) ==> r@.contains(i as usize),
        forall|a: int, b: int| 0 <= a < b < r@.len() ==> r@[a] < r@[b],
{
    let ghost rv = value_rows_view(rows@);
    let ghost lv = children_view(parent_children@);
    let mut shown: Vec<String> = Vec::new();
    let mut i: usize = 0;
    while i < rows.len()
        invariant
            i <= rows@.len(),
            rv == value_rows_view(rows@),
            forall|a: Seq<char>| #[trigger] shown.deep_view().contains(a) <==> exists|q: int| 0 <= q < i
                && #[trigger] rv[q].0 == Some(a) && (show_zero_values || rv[q].1),
        decreases rows@.len() - i,
    {
        let ghost before = shown.deep_view();
        if show_zero_values || rows[i].1 {
            if let Some(a) = &rows[i].0 {
                shown.push(owned(a.as_str()));
                assert(shown.deep_view() =~= before.push(a@));
            }
        }
        assert forall|a: Seq<char>| #[trigger] shown.deep_view().contains(a) <==> exists|q: int| 0 <= q < i + 1
            && #[trigger] rv[q].0 == Some(a) && (show_zero_values || rv[q].1) by {
            if shown.deep_view().contains(a) && !before.contains(a) {
                assert(rv[i as int].0 == Some(a));
            }
            if exists|q: int| 0 <= q < i + 1 && #[trigger] rv[q].0 == Some(a) && (show_zero_values || rv[q].1) {
                let q = choose|q: int| 0 <= q < i + 1 && #[trigger] rv[q].0 == Some(a) && (show_zero_values || rv[q].1);
                if q < i {
                    assert(before.contains(a));
                    let w = choose|w: int| 0 <= w < before.len() && before[w] == a;
                    assert(shown.deep_view()[w] == a);
                } else {
                    assert(shown.deep_view().last() == a);
                }
            }
        }
        i = i + 1;
    }
    assert(shown.deep_view().to_set() =~= with_ancestors(lv, accounts_with_value(rv, show_zero_values), 0)) by {
        assert forall|a: Seq<char>| shown.deep_view().to_set().contains(a) <==> accounts_with_value(rv, show_zero_values).contains(a) by {
            if accounts_with_value(rv, show_zero_values).contains(a) {
                let q = choose|q: int| 0 <= q < rv.len() && #[trigger] rv[q].0 == Some(a) && (show_zero_values || rv[q].1);
                assert(rv[q].0 == Some(a));
            }
        }
    }
    let mut round: usize = 0;
    while round < parent_children.len()
        invariant
            round <= parent_children@.len(),
            lv == children_view(parent_children@),
            shown.deep_view().to_set() == with_ancestors(lv, accounts_with_value(rv, show_zero_values), round as nat),
        decreases parent_children@.len() - round,
    {
        let ghost s = shown.deep_view().to_set();
        let mut added: Vec<String> = Vec::new();
        let mut l: usize = 0;
        while l < parent_children.len()
            invariant
                l <= parent_children@.len(),
                lv == children_view(parent_children@),
                s == shown.deep_view().to_set(),
                forall|p: Seq<char>| #[trigger] added.deep_view().contains(p) <==> exists|x: int, j: int| 0 <= x < l
                    && lv[x].0 == Some(p) && 0 <= j < lv[x].1.len() && #[trigger] s.contains(lv[x].1[j]),
            decreases parent_children@.len() - l,
        {
            let ghost before = added.deep_view();
            let link = &parent_children[l];
            assert(lv[l as int] == (link.0.deep_view(), link.1.deep_view()));
            if let Some(p) = &link.0 {
                let kids = &link.1;
                let mut c: usize = 0;
                let mut hit = false;
                while c < kids.len() && !hit
                    invariant
                        c <= kids@.len(),
                        s == shown.deep_view().to_set(),
                        hit ==> exists|j: int| 0 <= j < kids@.len() && #[trigger] s.contains(kids.deep_view()[j]),
                        !hit ==> forall|j: int| 0 <= j < c ==> !(#[trigger] s.contains(kids.deep_view()[j])),
                    decreases kids@.len() - c + (if hit { 0int } else { 1int }),
                {
                    if texts_hold(shown.as_slice(), kids[c].as_str()) {
                        assert(s.contains(kids.deep_view()[c as int]));
                        hit = true;
                    } else {
                        c = c + 1;
                    }
                }
                if hit {
                    added.push(owned(p.as_str()));
                    assert(added.deep_view() =~= before.push(p@));
                }
                assert forall|q: Seq<char>| #[trigger] added.deep_view().contains(q) <==> exists|x: int, j: int| 0 <= x < l + 1
                    && lv[x].0 == Some(q) && 0 <= j < lv[x].1.len() && #[trigger] s.contains(lv[x].1[j]) by {
                    if added.deep_view().contains(q) && !before.contains(q) {
                        assert(added.deep_view().last() == q);
                        assert(q == p@);
                        let j = choose|j: int| 0 <= j < kids@.len() && #[trigger] s.contains(kids.deep_view()[j]);
                        assert(lv[l as int].1[j] == kids.deep_view()[j]);
                    }
                    if exists|x: int, j: int| 0 <= x < l + 1 && lv[x].0 == Some(q) && 0 <= j < lv[x].1.len()
                        && #[trigger] s.contains(lv[x].1[j]) {
                        let (x, j) = choose|x: int, j: int| 0 <= x < l + 1 && lv[x].0 == Some(q) && 0 <= j
                            < lv[x].1.len() && #[trigger] s.contains(lv[x].1[j]);
                        if x < l {
                            assert(before.contains(q));
                            let w = choose|w: int| 0 <= w < before.len() && before[w] == q;
                            assert(added.deep_view()[w] == q);
                        } else {
                            assert(lv[x].1[j] == kids.deep_view()[j]);
                            assert(hit);
                            assert(added.deep_view().last() == q);
                        }
                    }
                }
            } else {
                assert forall|q: Seq<char>| #[trigger] added.deep_view().contains(q) <==> exists|x: int, j: int| 0 <= x < l + 1
                    && lv[x].0 == Some(q) && 0 <= j < lv[x].1.len() && #[trigger] s.contains(lv[x].1[j]) by {
                    if exists|x: int, j: int| 0 <= x < l + 1 && lv[x].0 == Some(q) && 0 <= j < lv[x].1.len()
                        && #[trigger] s.contains(lv[x].1[j]) {
                        let (x, j) = choose|x: int, j: int| 0 <= x < l + 1 && lv[x].0 == Some(q) && 0 <= j
                            < lv[x].1.len() && #[trigger] s.contains(lv[x].1[j]);
                        assert(x < l);
                    }
                }
            }
            l = l + 1;
        }
        let ghost old_shown = shown.deep_view();
        let mut a: usize = 0;
        while a < added.len()
            invariant
                a <= added@.len(),
                shown.deep_view() == old_shown + added.deep_view().subrange(0, a as int),
            decreases added@.len() - a,
        {
            let ghost b = shown.deep_view();
            let item = owned(added[a].as_str());
            shown.push(item);
            assert(shown.deep_view() =~= b.push(added.deep_view()[a as int]));
            assert(added.deep_view().subrange(0, a + 1) =~= added.deep_view().subrange(0, a as int).push(added.deep_view()[a as int]));
            a = a + 1;
        }
        assert(added.deep_view().subrange(0, a as int) =~= added.deep_view());
        assert(shown.deep_view().to_set() =~= s.union(parents_of(lv, s))) by {
            assert forall|q: Seq<char>| shown.deep_view().to_set().contains(q) <==> s.union(parents_of(lv, s)).contains(q) by {
                if shown.deep_view().contains(q) {
                    let w = choose|w: int| 0 <= w < shown.deep_view().len() && shown.deep_view()[w] == q;
                    if w < old_shown.len() {
                        assert(old_shown[w] == q);
                        assert(old_shown.contains(q));
                    } else {
                        assert(added.deep_view()[w - old_shown.len()] == q);
                        assert(added.deep_view().contains(q));
                    }
                }
                if s.contains(q) {
                    let w = choose|w: int| 0 <= w < old_shown.len() && old_shown[w] == q;
                    assert(shown.deep_view()[w] == q);
                }
                if parents_of(lv, s).contains(q) {
                    assert(added.deep_view().contains(q));
                    let w = choose|w: int| 0 <= w < added.deep_view().len() && added.deep_view()[w] == q;
                    assert(shown.deep_view()[old_shown.len() + w] == q);
                }
            }
        }
        round = round + 1;
    }
    let mut out: Vec<usize> = Vec::new();
    let mut i: usize = 0;
    while i < rows.len()
        invariant
            i <= rows@.len(),
            rv == value_rows_view(rows@),
            lv == children_view(parent_children@),
            shown.deep_view().to_set() == accounts_to_show(rv, lv, show_zero_values),
            forall|k: int| 0 <= k < out@.len() ==> #[trigger] out@[k] < i && row_shown(rv, lv, show_zero_values, out@[k] as int),
            forall|j: int| 0 <= j < i && row_shown(rv, lv, show_zero_values, j) ==> out@.contains(j as usize),
            forall|x: int, y: int| 0 <= x < y < out@.len() ==> out@[x] < out@[y],
        decreases rows@.len() - i,
    {
        let ghost before = out@;
        assert(rv[i as int] == (rows@[i as int].0.deep_view(), rows@[i as int].1));
        let keep = match &rows[i].0 {
            Some(a) => texts_hold(shown.as_slice(), a.as_str()),
            None => false,
        };
        assert(keep == row_shown(rv, lv, show_zero_values, i as int));
        if keep {
            out.push(i);
        }
        assert forall|j: int| 0 <= j < i + 1 && row_shown(rv, lv, show_zero_values, j) implies out@.contains(j as usize) by {
            if j == i as int {
                assert(out@.last() == i);
            } else {
                let w = choose|w: int| 0 <= w < before.len() && before[w] == j as usize;
                assert(out@[w] == j as usize);
            }
        }
        i = i + 1;
    }
    out
}

/// An account as the statements name it: its number, ` - ` and its name, or
/// its name alone.
pub fn account_display_name(account_number: &Option<String>, account_name: &str) -> (r: String)
    ensures
        r@ == match account_number.deep_view() {
            Some(n) => n + " - "@ + account_name@,
            None => account_name@,
        },
{
    proof { reveal_strlit(" - "); }
    match account_number {
        Some(n) => {
            let mut r = concat(n.as_str(), " - ");
            r.append(account_name);
            r
        },
        None => owned(account_name),
    }
}

} // verus!
