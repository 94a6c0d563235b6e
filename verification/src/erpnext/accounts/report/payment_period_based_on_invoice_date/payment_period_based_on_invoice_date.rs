//! Payment period based on invoice date: the filter check, the columns and
//! ledger conditions, the invoices a payment is matched against, and the
//! day arithmetic behind a payment's age, ageing bucket and delay.
use vstd::prelude::*;
use crate::calendar::{epoch_day, lemma_hinnant};
use std::collections::BTreeMap;
use vstd::std_specs::btree::lemma_btree_map_deepview_dom;
use crate::erpnext::accounts::report::map_insert;
use vstd::arithmetic::div_mod::lemma_fundamental_div_mod_converse;
use crate::text::{owned, parse_i64, parse_i64_spec, split_char, split_on, str_eq, trim, trimmed};

verus! {

#[derive(Debug, PartialEq, Eq)]
pub enum PaymentPeriodError {
    InvalidPartyTypeForPaymentType { payment_type: String, party_type: String },
}

#[derive(Debug, PartialEq, Eq)]
pub struct PaymentPeriodFilters {
    pub payment_type: String,
    pub company: String,
    pub party_type: Option<String>,
    pub party: Option<String>,
    pub from_date: Option<String>,
    pub to_date: Option<String>,
    pub report_date: Option<String>,
    pub range: Option<String>,
}

impl PaymentPeriodFilters {
    pub fn new(payment_type: &str, company: &str) -> (r: Self)
        ensures
            r.payment_type@ == payment_type@,
            r.company@ == company@,
            r.party_type is None,
            r.party is None,
            r.from_date is None,
            r.to_date is None,
            r.report_date is None,
            r.range is None,
    {
        PaymentPeriodFilters {
            payment_type: owned(payment_type),
            company: owned(company),
            party_type: None,
            party: None,
            from_date: None,
            to_date: None,
            report_date: None,
            range: None,
        }
    }

    pub fn with_report_date(self, report_date: &str) -> (r: Self)
        ensures
            r == (PaymentPeriodFilters { report_date: r.report_date, ..self }),
            r.report_date matches Some(d) && d@ == report_date@,
    {
        PaymentPeriodFilters { report_date: Some(owned(report_date)), ..self }
    }

    pub fn with_range(self, range: &str) -> (r: Self)
        ensures
            r == (PaymentPeriodFilters { range: r.range, ..self }),
            r.range matches Some(d) && d@ == range@,
    {
        PaymentPeriodFilters { range: Some(owned(range)), ..self }
    }
}

#[derive(Debug, PartialEq, Eq)]
pub struct PaymentPeriodColumn {
    pub fieldname: &'static str,
    pub label: &'static str,
    pub fieldtype: &'static str,
    pub options: &'static str,
    pub width: u16,
}

/// field name, label, field type, options, width
pub type ColumnView = (Seq<char>, Seq<char>, Seq<char>, Seq<char>, u16);

impl DeepView for PaymentPeriodColumn {
    type V = ColumnView;

    open spec fn deep_view(&self) -> ColumnView {
        (self.fieldname@, self.label@, self.fieldtype@, self.options@, self.width)
    }
}

impl PaymentPeriodColumn {
    pub fn data(fieldname: &'static str, label: &'static str, width: u16) -> (r: Self)
        ensures
            r.deep_view() == (fieldname@, label@, "Data"@, ""@, width),
    {
        PaymentPeriodColumn { fieldname, label, fieldtype: "Data", options: "", width }
    }

    pub fn date(fieldname: &'static str, label: &'static str, width: u16) -> (r: Self)
        ensures
            r.deep_view() == (fieldname@, label@, "Date"@, ""@, width),
    {
        PaymentPeriodColumn { fieldname, label, fieldtype: "Date", options: "", width }
    }

    pub fn integer(fieldname: &'static str, label: &'static str, width: u16) -> (r: Self)
        ensures
            r.deep_view() == (fieldname@, label@, "Int"@, ""@, width),
    {
        PaymentPeriodColumn { fieldname, label, fieldtype: "Int", options: "", width }
    }

    pub fn currency(fieldname: &'static str, label: &'static str, width: u16) -> (r: Self)
        ensures
            r.deep_view() == (fieldname@, label@, "Currency"@, ""@, width),
    {
        PaymentPeriodColumn { fieldname, label, fieldtype: "Currency", options: "", width }
    }

    pub fn dynamic_link(label: &'static str, fieldname: &'static str, options: &'static str, width: u16) -> (r: Self)
        ensures
            r.deep_view() == (fieldname@, label@, "Dynamic Link"@, options@, width),
    {
        PaymentPeriodColumn { fieldname, label, fieldtype: "Dynamic Link", options, width }
    }

    pub fn link(label: &'static str, fieldname: &'static str, options: &'static str, width: u16) -> (r: Self)
        ensures
            r.deep_view() == (fieldname@, label@, "Link"@, options@, width),
    {
        PaymentPeriodColumn { fieldname, label, fieldtype: "Link", options, width }
    }
}

#[derive(Debug, PartialEq, Eq)]
pub struct PaymentInvoice {
    pub doctype: String,
    pub name: String,
    pub company: String,
    pub posting_date: String,
    pub due_date: String,
    pub submitted: bool,
}

/// doctype, name, company, posting date, due date, submitted
pub type InvoiceView = (Seq<char>, Seq<char>, Seq<char>, Seq<char>, Seq<char>, bool);

impl DeepView for PaymentInvoice {
    type V = InvoiceView;

    open spec fn deep_view(&self) -> InvoiceView {
        (self.doctype@, self.name@, self.company@, self.posting_date@, self.due_date@, self.submitted)
    }
}

impl PaymentInvoice {
    pub fn new(doctype: &str, name: &str, company: &str, posting_date: &str, due_date: &str, submitted: bool) -> (r: Self)
        ensures
            r.deep_view() == (doctype@, name@, company@, posting_date@, due_date@, submitted),
    {
        PaymentInvoice {
            doctype: owned(doctype),
            name: owned(name),
            company: owned(company),
            posting_date: owned(posting_date),
            due_date: owned(due_date),
            submitted,
        }
    }

    fn copy(&self) -> (r: Self)
        ensures
            r.deep_view() == self.deep_view(),
    {
        PaymentInvoice {
            doctype: self.doctype.clone(),
            name: self.name.clone(),
            company: self.company.clone(),
            posting_date: self.posting_date.clone(),
            due_date: self.due_date.clone(),
            submitted: self.submitted,
        }
    }
}

/// A payment type and party type that contradict each other: incoming
/// payments come from customers, outgoing ones go to suppliers.
pub open spec fn contradicts(payment_type: Seq<char>, party_type: Option<String>) -> bool {
    match party_type {
        Some(p) => (payment_type == "Incoming"@ && p@ == "Supplier"@) || (payment_type == "Outgoing"@ && p@ == "Customer"@),
        None => false,
    }
}

pub fn validate_filters(filters: &PaymentPeriodFilters) -> (r: Result<(), PaymentPeriodError>)
    ensures
        r is Ok <==> !contradicts(filters.payment_type@, filters.party_type),
        r matches Err(PaymentPeriodError::InvalidPartyTypeForPaymentType { payment_type, party_type })
            ==> (payment_type@ == filters.payment_type@ && (filters.party_type matches Some(p) && party_type@ == p@)),
{
    match &filters.party_type {
        Some(p) => {
            let pt = filters.payment_type.as_str();
            if (str_eq(pt, "Incoming") && str_eq(p.as_str(), "Supplier")) || (str_eq(pt, "Outgoing") && str_eq(p.as_str(), "Customer")) {
                Err(PaymentPeriodError::InvalidPartyTypeForPaymentType {
                    payment_type: filters.payment_type.clone(),
                    party_type: p.clone(),
                })
            } else {
                Ok(())
            }
        },
        None => Ok(()),
    }
}

/// The invoice type payments are matched against: purchase invoices for
/// outgoing payments, sales invoices otherwise.
pub open spec fn matched_invoice_type(payment_type: Seq<char>) -> Seq<char> {
    if payment_type == "Outgoing"@ { "Purchase Invoice"@ } else { "Sales Invoice"@ }
}

pub open spec fn spec_columns(payment_type: Seq<char>) -> Seq<ColumnView> {
    seq![
        ("payment_document"@, "Payment Document Type"@, "Data"@, ""@, 100u16),
        ("payment_entry"@, "Payment Document"@, "Dynamic Link"@, "payment_document"@, 160u16),
        ("party_type"@, "Party Type"@, "Data"@, ""@, 100u16),
        ("party"@, "Party"@, "Dynamic Link"@, "party_type"@, 160u16),
        ("posting_date"@, "Posting Date"@, "Date"@, ""@, 100u16),
        ("invoice"@, "Invoice"@, "Link"@, matched_invoice_type(payment_type), 160u16),
        ("invoice_posting_date"@, "Invoice Posting Date"@, "Date"@, ""@, 100u16),
        ("due_date"@, "Payment Due Date"@, "Date"@, ""@, 100u16),
        ("amount"@, "Amount"@, "Currency"@, ""@, 140u16),
        ("remarks"@, "Remarks"@, "Data"@, ""@, 200u16),
        ("age"@, "Age"@, "Int"@, ""@, 50u16),
        ("range1"@, "0-30"@, "Currency"@, ""@, 140u16),
        ("range2"@, "30-60"@, "Currency"@, ""@, 140u16),
        ("range3"@, "60-90"@, "Currency"@, ""@, 140u16),
        ("range4"@, "90 Above"@, "Currency"@, ""@, 140u16),
        ("delay_in_payment"@, "Delay in payment (Days)"@, "Int"@, ""@, 100u16),
    ]
}

pub fn get_columns(filters: &PaymentPeriodFilters) -> (r: Vec<PaymentPeriodColumn>)
    ensures
        r.deep_view() == spec_columns(filters.payment_type@),
{
    let invoice_type = if str_eq(filters.payment_type.as_str(), "Outgoing") { "Purchase Invoice" } else { "Sales Invoice" };
    let r = vec![
        PaymentPeriodColumn::data("payment_document", "Payment Document Type", 100),
        PaymentPeriodColumn::dynamic_link("Payment Document", "payment_entry", "payment_document", 160),
        PaymentPeriodColumn::data("party_type", "Party Type", 100),
        PaymentPeriodColumn::dynamic_link("Party", "party", "party_type", 160),
        PaymentPeriodColumn::date("posting_date", "Posting Date", 100),
        PaymentPeriodColumn::link("Invoice", "invoice", invoice_type, 160),
        PaymentPeriodColumn::date("invoice_posting_date", "Invoice Posting Date", 100),
        PaymentPeriodColumn::date("due_date", "Payment Due Date", 100),
        PaymentPeriodColumn::currency("amount", "Amount", 140),
        PaymentPeriodColumn::data("remarks", "Remarks", 200),
        PaymentPeriodColumn::integer("age", "Age", 50),
        PaymentPeriodColumn::currency("range1", "0-30", 140),
        PaymentPeriodColumn::currency("range2", "30-60", 140),
        PaymentPeriodColumn::currency("range3", "60-90", 140),
        PaymentPeriodColumn::currency("range4", "90 Above", 140),
        PaymentPeriodColumn::integer("delay_in_payment", "Delay in payment (Days)", 100),
    ];
    assert(r.deep_view() =~= spec_columns(filters.payment_type@));
    r
}

pub open spec fn when(cond: bool, items: Seq<Seq<char>>) -> Seq<Seq<char>> {
    if cond { items } else { Seq::empty() }
}

/// The ledger conditions: not delinked, the party type and invoice type of
/// the payment direction, and one condition per filter that is set.
pub open spec fn spec_conditions(f: PaymentPeriodFilters) -> Seq<Seq<char>> {
    seq!["delinked = 0"@]
    + if f.payment_type@ == "Outgoing"@ {
        seq!["party_type = Supplier"@, "against_voucher_type = Purchase Invoice"@]
    } else {
        seq!["party_type = Customer"@, "against_voucher_type = Sales Invoice"@]
    }
    + when(f.party is Some, seq!["party = filters.party"@])
    + when(f.from_date is Some, seq!["posting_date >= filters.from_date"@])
    + when(f.to_date is Some, seq!["posting_date <= filters.to_date"@])
    + when(f.company@.len() > 0, seq!["company = filters.company"@])
}

pub fn get_conditions(filters: &PaymentPeriodFilters) -> (r: Vec<&'static str>)
    ensures
        r.deep_view() == spec_conditions(*filters),
{
    let mut conditions = vec!["delinked = 0"];
    if str_eq(filters.payment_type.as_str(), "Outgoing") {
        conditions.push("party_type = Supplier");
        conditions.push("against_voucher_type = Purchase Invoice");
    } else {
        conditions.push("party_type = Customer");
        conditions.push("against_voucher_type = Sales Invoice");
    }
    let ghost head = conditions.deep_view();
    if filters.party.is_some() {
        conditions.push("party = filters.party");
    }
    let ghost s1 = conditions.deep_view();
    assert(s1 =~= head + when(filters.party is Some, seq!["party = filters.party"@]));
    if filters.from_date.is_some() {
        conditions.push("posting_date >= filters.from_date");
    }
    let ghost s2 = conditions.deep_view();
    assert(s2 =~= s1 + when(filters.from_date is Some, seq!["posting_date >= filters.from_date"@]));
    if filters.to_date.is_some() {
        conditions.push("posting_date <= filters.to_date");
    }
    let ghost s3 = conditions.deep_view();
    assert(s3 =~= s2 + when(filters.to_date is Some, seq!["posting_date <= filters.to_date"@]));
    if !filters.company.as_str().is_empty() {
        conditions.push("company = filters.company");
    }
    assert(conditions.deep_view() =~= spec_conditions(*filters));
    conditions
}

/// The invoice type that payments of this direction settle: sales invoices
/// for incoming payments, purchase invoices otherwise.
pub open spec fn settled_invoice_type(payment_type: Seq<char>) -> Seq<char> {
    if payment_type == "Incoming"@ { "Sales Invoice"@ } else { "Purchase Invoice"@ }
}

/// A submitted invoice of the settled type and of the filtered company.
pub open spec fn is_candidate(f: PaymentPeriodFilters, invoice: InvoiceView) -> bool {
    invoice.5 && invoice.0 == settled_invoice_type(f.payment_type@) && invoice.2 == f.company@
}

/// The candidate invoices by name; of two with one name, the later one.
pub open spec fn invoice_map(f: PaymentPeriodFilters, invoices: Seq<InvoiceView>) -> Map<Seq<char>, InvoiceView>
    decreases invoices.len(),
{
    if invoices.len() == 0 {
        Map::empty()
    } else {
        let m = invoice_map(f, invoices.drop_last());
        let last = invoices.last();
        if is_candidate(f, last) { m.insert(last.1, last) } else { m }
    }
}

/// The candidate invoices by name.
pub fn get_invoice_posting_date_map(filters: &PaymentPeriodFilters, invoices: &[PaymentInvoice]) -> (r: BTreeMap<String, PaymentInvoice>)
    ensures
        r.deep_view() == invoice_map(*filters, invoices.deep_view()),
{
    let invoice_type = if str_eq(filters.payment_type.as_str(), "Incoming") { "Sales Invoice" } else { "Purchase Invoice" };
    let ghost all = invoices.deep_view();
    let mut r: BTreeMap<String, PaymentInvoice> = BTreeMap::new();
    proof {
        lemma_btree_map_deepview_dom(r);
        assert(r.deep_view() =~= Map::empty());
        assert(invoice_map(*filters, all.subrange(0, 0)) =~= Map::empty());
    }
    let mut i: usize = 0;
    while i < invoices.len()
        invariant
            i <= invoices@.len(),
            all == invoices.deep_view(),
            invoice_type@ == settled_invoice_type(filters.payment_type@),
            r.deep_view() == invoice_map(*filters, all.subrange(0, i as int)),
        decreases invoices@.len() - i,
    {
        assert(all.subrange(0, i + 1).drop_last() =~= all.subrange(0, i as int));
        assert(all.subrange(0, i + 1).last() == all[i as int]);
        let invoice = &invoices[i];
        if invoice.submitted && str_eq(invoice.doctype.as_str(), invoice_type) && str_eq(invoice.company.as_str(), filters.company.as_str()) {
            map_insert(&mut r, invoice.name.clone(), invoice.copy());
        }
        i = i + 1;
    }
    assert(all.subrange(0, i as int) =~= all);
    r
}

/// Division rounding toward zero, by a positive divisor.
pub open spec fn tdiv(a: int, b: int) -> int {
    if a >= 0 { a / b } else { -((-a) / b) }
}

/// The day number of a (year, month, day), counted from 1970-01-01, as the
/// civil-calendar formula computes it (with division toward zero) for any
/// numbers given.
pub open spec fn day_number(year: int, month: int, day: int) -> int {
    let y = if month <= 2 { year - 1 } else { year };
    let era = tdiv(if y >= 0 { y } else { y - 399 }, 400);
    let yoe = y - era * 400;
    let mp = month + if month > 2 { -3int } else { 9int };
    let doy = tdiv(153 * mp + 2, 5) + day - 1;
    let doe = yoe * 365 + tdiv(yoe, 4) - tdiv(yoe, 100) + doy;
    era * 146097 + doe - 719468
}

/// The day number of a `year-month-day` text: its first three `-`-separated
/// pieces read as integers; `None` when there are fewer or one does not read.
pub open spec fn date_day_number(date: Seq<char>) -> Option<int> {
    let parts = split_on(date, '-');
    if parts.len() >= 3 && parse_i64_spec(parts[0]) is Some && parse_i64_spec(parts[1]) is Some
        && parse_i64_spec(parts[2]) is Some {
        Some(day_number(parse_i64_spec(parts[0])->0 as int, parse_i64_spec(parts[1])->0 as int,
            parse_i64_spec(parts[2])->0 as int))
    } else {
        None
    }
}

pub open spec fn fits_i64(n: int) -> bool {
    i64::MIN <= n <= i64::MAX
}

fn trunc_div(a: i128, b: i128) -> (r: i128)
    requires
        b > 0,
        -0x1_0000_0000_0000_0000_0000_0000 < a < 0x1_0000_0000_0000_0000_0000_0000,
    ensures
        r == tdiv(a as int, b as int),
{
    if a >= 0 {
        a / b
    } else {
        -((-a) / b)
    }
}

fn days_from_civil(date: &str) -> (r: Option<i64>)
    ensures
        r == match date_day_number(date@) {
            Some(n) => if fits_i64(n) { Some(n as i64) } else { None },
            None => None,
        },
{
    let parts = split_char(date, '-');
    if parts.len() < 3 {
        return None;
    }
    let year = match parse_i64(parts[0].as_str()) { Some(v) => v, None => return None };
    let month = match parse_i64(parts[1].as_str()) { Some(v) => v, None => return None };
    let day = match parse_i64(parts[2].as_str()) { Some(v) => v, None => return None };
    let year: i128 = year as i128;
    let month: i128 = month as i128;
    let day: i128 = day as i128;
    let y: i128 = if month <= 2 { year - 1 } else { year };
    let era = trunc_div(if y >= 0 { y } else { y - 399 }, 400);
    let yoe = y - era * 400;
    let mp = month + if month > 2 { -3 } else { 9 };
    let doy = trunc_div(153 * mp + 2, 5) + day - 1;
    let doe = yoe * 365 + trunc_div(yoe, 4) - trunc_div(yoe, 100) + doy;
    let n = era * 146097 + doe - 719468;
    if n < -9_223_372_036_854_775_808 || n > 9_223_372_036_854_775_807 {
        None
    } else {
        Some(n as i64)
    }
}

/// The days from `start` to `end`, when both read as dates and the difference
/// fits in an `i64`.
pub open spec fn days_between_spec(start: Seq<char>, end: Seq<char>) -> Option<i64> {
    match (date_day_number(start), date_day_number(end)) {
        (Some(a), Some(b)) => if fits_i64(a) && fits_i64(b) && fits_i64(b - a) { Some((b - a) as i64) } else { None },
        _ => None,
    }
}

fn days_between(start: &str, end: &str) -> (r: Option<i64>)
    ensures
        r == days_between_spec(start@, end@),
{
    let b = match days_from_civil(end) { Some(v) => v, None => return None };
    let a = match days_from_civil(start) { Some(v) => v, None => return None };
    let d: i128 = b as i128 - a as i128;
    if d < -9_223_372_036_854_775_808 || d > 9_223_372_036_854_775_807 {
        None
    } else {
        Some(d as i64)
    }
}

/// The numbers among comma-separated pieces, each trimmed; pieces that do not
/// read as integers are skipped.
pub open spec fn range_numbers(pieces: Seq<Seq<char>>) -> Seq<i64>
    decreases pieces.len(),
{
    if pieces.len() == 0 {
        Seq::empty()
    } else {
        let before = range_numbers(pieces.drop_last());
        match parse_i64_spec(trimmed(pieces.last())) {
            Some(v) => before.push(v),
            None => before,
        }
    }
}

fn parse_ranges(range: &str) -> (r: Vec<i64>)
    ensures
        r@ == range_numbers(split_on(range@, ',')),
{
    let pieces = split_char(range, ',');
    let ghost all = pieces.deep_view();
    let mut r: Vec<i64> = Vec::new();
    let mut i: usize = 0;
    while i < pieces.len()
        invariant
            i <= pieces@.len(),
            all == pieces.deep_view(),
            r@ == range_numbers(all.subrange(0, i as int)),
        decreases pieces@.len() - i,
    {
        assert(all.subrange(0, i + 1).drop_last() =~= all.subrange(0, i as int));
        let t = trim(pieces[i].as_str());
        match parse_i64(t.as_str()) {
            Some(v) => r.push(v),
            None => {},
        }
        i = i + 1;
    }
    assert(all.subrange(0, i as int) =~= all);
    r
}

/// The ageing bucket of an age, counted from 0: the index of the first bound
/// it does not exceed, or the number of bounds when it exceeds them all.
pub open spec fn bucket_of(bounds: Seq<i64>, age: i64) -> nat
    decreases bounds.len(),
{
    if bounds.len() == 0 {
        0
    } else if age <= bounds[0] {
        0
    } else {
        1 + bucket_of(bounds.skip(1), age)
    }
}

fn bucket(bounds: &Vec<i64>, age: i64) -> (r: usize)
    ensures
        r == bucket_of(bounds@, age),
{
    let mut i: usize = 0;
    assert(bounds@.skip(0) =~= bounds@);
    while i < bounds.len() && age > bounds[i]
        invariant
            i <= bounds@.len(),
            bucket_of(bounds@, age) == i + bucket_of(bounds@.skip(i as int), age),
        decreases bounds@.len() - i,
    {
        assert(bounds@.skip(i as int).skip(1) =~= bounds@.skip(i + 1));
        i = i + 1;
    }
    i
}

/// An older payment never falls in an earlier ageing bucket, and no bucket
/// lies past the one after the last bound.
pub proof fn lemma_bucket_monotone(bounds: Seq<i64>, younger: i64, older: i64)
    requires
        younger <= older,
    ensures
        bucket_of(bounds, younger) <= bucket_of(bounds, older),
        bucket_of(bounds, older) <= bounds.len(),
    decreases bounds.len(),
{
    if bounds.len() > 0 {
        lemma_bucket_monotone(bounds.skip(1), younger, older);
    }
}

/// For a month among the twelve, the day number the report computes is the
/// calendar's count of days since 1970-01-01, whatever the year and day.
pub proof fn lemma_day_number_calendar(year: int, month: int, day: int)
    requires
        1 <= month <= 12,
    ensures
        day_number(year, month, day) == epoch_day(year, month, day),
{
    let y = if month <= 2 { year - 1 } else { year };
    let era = y / 400;
    let r = y - era * 400;
    assert(0 <= r < 400);
    if y < 0 {
        let k = -y;
        let q = (k + 399) / 400;
        assert(tdiv(y - 399, 400) == -q);
        assert(k + 399 == 400 * q + (k + 399) % 400);
        lemma_fundamental_div_mod_converse(y, 400, -q, 400 * q - k);
    }
    assert(tdiv(if y >= 0 { y } else { y - 399 }, 400) == era);
    lemma_hinnant(year, month, day);
}

/// The days between two dates in range are the difference of their calendar
/// day numbers; a date is no days from itself.
pub proof fn lemma_days_between_calendar(start: Seq<char>, end: Seq<char>)
    ensures
        days_between_spec(start, start) is Some ==> days_between_spec(start, start) == Some(0i64),
        (days_between_spec(start, end) matches Some(d) ==> {
            let ps = split_on(start, '-');
            let pe = split_on(end, '-');
            let (ys, ms, ds) = (parse_i64_spec(ps[0])->0 as int, parse_i64_spec(ps[1])->0 as int, parse_i64_spec(ps[2])->0 as int);
            let (ye, me, de) = (parse_i64_spec(pe[0])->0 as int, parse_i64_spec(pe[1])->0 as int, parse_i64_spec(pe[2])->0 as int);
            1 <= ms <= 12 && 1 <= me <= 12 ==> d == epoch_day(ye, me, de) - epoch_day(ys, ms, ds)
        }),
{
    if days_between_spec(start, end) is Some {
        let ps = split_on(start, '-');
        let pe = split_on(end, '-');
        let (ys, ms, ds) = (parse_i64_spec(ps[0])->0 as int, parse_i64_spec(ps[1])->0 as int, parse_i64_spec(ps[2])->0 as int);
        let (ye, me, de) = (parse_i64_spec(pe[0])->0 as int, parse_i64_spec(pe[1])->0 as int, parse_i64_spec(pe[2])->0 as int);
        if 1 <= ms <= 12 && 1 <= me <= 12 {
            lemma_day_number_calendar(ys, ms, ds);
            lemma_day_number_calendar(ye, me, de);
        }
    }
}

/// The bounds of the ageing buckets: those the filters give, else 30, 60, 90
/// and 120 days.
pub open spec fn ageing_bounds(f: PaymentPeriodFilters) -> Seq<i64> {
    match f.range {
        Some(r) => range_numbers(split_on(r@, ',')),
        None => seq![30i64, 60, 90, 120],
    }
}

/// A payment's age in days on the report date, and its ageing bucket; `None`
/// without a report date or when a date does not read.
pub open spec fn spec_ageing(f: PaymentPeriodFilters, entry_date: Seq<char>) -> Option<(i64, nat)> {
    match f.report_date {
        Some(d) => match days_between_spec(entry_date, d@) {
            Some(age) => Some((age, bucket_of(ageing_bounds(f), age))),
            None => None,
        },
        None => None,
    }
}

/// The age of a payment made against an invoice dated `entry_date`, and the
/// ageing bucket (0 to 3 for the report's four ranges) its amount goes to.
pub fn ageing(filters: &PaymentPeriodFilters, entry_date: &str) -> (r: Option<(i64, usize)>)
    ensures
        match (r, spec_ageing(*filters, entry_date@)) {
            (Some((age, b)), Some((sage, sb))) => age == sage && b == sb,
            (None, None) => true,
            _ => false,
        },
{
    let report_date = match &filters.report_date {
        Some(d) => d,
        None => return None,
    };
    let age = match days_between(entry_date, report_date.as_str()) {
        Some(a) => a,
        None => return None,
    };
    let bounds = match &filters.range {
        Some(range) => parse_ranges(range.as_str()),
        None => {
            let b = vec![30i64, 60, 90, 120];
            assert(b@ =~= seq![30i64, 60, 90, 120]);
            b
        },
    };
    Some((age, bucket(&bounds, age)))
}

/// The delay of a payment past the invoice's due date, in days; 0 when a
/// date does not read.
pub fn payment_delay(due_date: &str, posting_date: &str) -> (r: i64)
    ensures
        r == match days_between_spec(due_date@, posting_date@) {
            Some(d) => d,
            None => 0,
        },
{
    match days_between(due_date, posting_date) {
        Some(d) => d,
        None => 0,
    }
}

} // verus!
