//! Cheques and deposits cleared before they were posted: the queries on
//! journal and payment entries, the columns, and on which side a payment
//! entry's amount is shown.
use vstd::prelude::*;
use crate::text::{owned, str_eq};

verus! {

#[derive(Debug, PartialEq, Eq)]
pub struct ChequeClearanceFilters {
    pub account: String,
    pub report_date: String,
}

impl ChequeClearanceFilters {
    pub fn new(account: &str, report_date: &str) -> (r: Self)
        ensures
            r.account@ == account@,
            r.report_date@ == report_date@,
    {
        ChequeClearanceFilters { account: owned(account), report_date: owned(report_date) }
    }
}

#[derive(Debug, PartialEq, Eq)]
pub struct ReportColumn {
    pub label: &'static str,
    pub fieldname: &'static str,
    pub fieldtype: &'static str,
    pub options: &'static str,
    pub width: u16,
}

/// label, field name, field type, options, width
pub type ColumnView = (Seq<char>, Seq<char>, Seq<char>, Seq<char>, u16);

impl DeepView for ReportColumn {
    type V = ColumnView;

    open spec fn deep_view(&self) -> ColumnView {
        (self.label@, self.fieldname@, self.fieldtype@, self.options@, self.width)
    }
}

impl ReportColumn {
    pub fn data(label: &'static str, fieldname: &'static str, width: u16) -> (r: Self)
        ensures
            r.deep_view() == (label@, fieldname@, "Data"@, ""@, width),
    {
        ReportColumn { label, fieldname, fieldtype: "Data", options: "", width }
    }

    pub fn dynamic_link(label: &'static str, fieldname: &'static str, options: &'static str, width: u16) -> (r: Self)
        ensures
            r.deep_view() == (label@, fieldname@, "Dynamic Link"@, options@, width),
    {
        ReportColumn { label, fieldname, fieldtype: "Dynamic Link", options, width }
    }

    pub fn currency(label: &'static str, fieldname: &'static str, options: &'static str, width: u16) -> (r: Self)
        ensures
            r.deep_view() == (label@, fieldname@, "Currency"@, options@, width),
    {
        ReportColumn { label, fieldname, fieldtype: "Currency", options, width }
    }

    pub fn date(label: &'static str, fieldname: &'static str, width: u16) -> (r: Self)
        ensures
            r.deep_view() == (label@, fieldname@, "Date"@, ""@, width),
    {
        ReportColumn { label, fieldname, fieldtype: "Date", options: "", width }
    }
}

/// A query for entries posted after the report date but cleared on or
/// before it: the document (and its account table), and its filters.
#[derive(Debug, PartialEq, Eq)]
pub struct ChequeClearanceQueryPlan {
    pub source_doctype: &'static str,
    pub child_doctype: Option<&'static str>,
    pub account_filter: &'static str,
    pub posting_date_filter: &'static str,
    pub clearance_date_filter: &'static str,
    pub docstatus_filter: &'static str,
    pub extra_filter: &'static str,
}

/// source, account table, account, posting date, clearance date, status, extra
pub type PlanView = (Seq<char>, Option<Seq<char>>, Seq<char>, Seq<char>, Seq<char>, Seq<char>, Seq<char>);

impl DeepView for ChequeClearanceQueryPlan {
    type V = PlanView;

    open spec fn deep_view(&self) -> PlanView {
        (self.source_doctype@, self.child_doctype.deep_view(), self.account_filter@, self.posting_date_filter@,
            self.clearance_date_filter@, self.docstatus_filter@, self.extra_filter@)
    }
}

pub open spec fn spec_plans() -> Seq<PlanView> {
    seq![
        ("Journal Entry"@, Some("Journal Entry Account"@), "Journal Entry Account.account = filters.account"@,
            "Journal Entry.posting_date > filters.report_date"@, "Journal Entry.clearance_date <= filters.report_date"@,
            "Journal Entry.docstatus = 1"@, "(Journal Entry.is_opening is null or Journal Entry.is_opening = 'No')"@),
        ("Payment Entry"@, None, "Payment Entry.paid_from = filters.account or Payment Entry.paid_to = filters.account"@,
            "Payment Entry.posting_date > filters.report_date"@, "Payment Entry.clearance_date <= filters.report_date"@,
            "Payment Entry.docstatus = 1"@, ""@),
    ]
}

impl ChequeClearanceQueryPlan {
    pub fn from_filters(_filters: &ChequeClearanceFilters) -> (r: Vec<Self>)
        ensures
            r.deep_view() == spec_plans(),
    {
        let r = vec![
            ChequeClearanceQueryPlan {
                source_doctype: "Journal Entry",
                child_doctype: Some("Journal Entry Account"),
                account_filter: "Journal Entry Account.account = filters.account",
                posting_date_filter: "Journal Entry.posting_date > filters.report_date",
                clearance_date_filter: "Journal Entry.clearance_date <= filters.report_date",
                docstatus_filter: "Journal Entry.docstatus = 1",
                extra_filter: "(Journal Entry.is_opening is null or Journal Entry.is_opening = 'No')",
            },
            ChequeClearanceQueryPlan {
                source_doctype: "Payment Entry",
                child_doctype: None,
                account_filter: "Payment Entry.paid_from = filters.account or Payment Entry.paid_to = filters.account",
                posting_date_filter: "Payment Entry.posting_date > filters.report_date",
                clearance_date_filter: "Payment Entry.clearance_date <= filters.report_date",
                docstatus_filter: "Payment Entry.docstatus = 1",
                extra_filter: "",
            },
        ];
        assert(r.deep_view() =~= spec_plans());
        r
    }
}

pub open spec fn spec_columns() -> Seq<ColumnView> {
    seq![
        ("Payment Document Type"@, "payment_document"@, "Data"@, ""@, 220u16),
        ("Payment Document"@, "payment_entry"@, "Dynamic Link"@, "payment_document"@, 220u16),
        ("Debit"@, "debit"@, "Currency"@, "account_currency"@, 120u16),
        ("Credit"@, "credit"@, "Currency"@, "account_currency"@, 120u16),
        ("Posting Date"@, "posting_date"@, "Date"@, ""@, 110u16),
        ("Clearance Date"@, "clearance_date"@, "Date"@, ""@, 110u16),
    ]
}

pub fn get_columns() -> (r: Vec<ReportColumn>)
    ensures
        r.deep_view() == spec_columns(),
{
    let r = vec![
        ReportColumn::data("Payment Document Type", "payment_document", 220),
        ReportColumn::dynamic_link("Payment Document", "payment_entry", "payment_document", 220),
        ReportColumn::currency("Debit", "debit", "account_currency", 120),
        ReportColumn::currency("Credit", "credit", "account_currency", 120),
        ReportColumn::date("Posting Date", "posting_date", 110),
        ReportColumn::date("Clearance Date", "clearance_date", 110),
    ];
    assert(r.deep_view() =~= spec_columns());
    r
}

/// A payment received from a customer or supplier: its amount is shown as a
/// debit; any other payment entry's as a credit.
pub fn is_receive_party(payment_type: Option<&str>, party_type: Option<&str>) -> (r: bool)
    ensures
        r == (payment_type matches Some(p) && p@ == "Receive"@
            && (party_type matches Some(t) && (t@ == "Customer"@ || t@ == "Supplier"@))),
{
    match (payment_type, party_type) {
        (Some(p), Some(t)) => str_eq(p, "Receive") && (str_eq(t, "Customer") || str_eq(t, "Supplier")),
        _ => false,
    }
}


/// The vouchers the report shows rows for.
#[derive(Debug, PartialEq, Eq, Clone, Copy)]
pub enum ChequeVoucherKind {
    PaymentEntry,
    JournalEntry,
}

/// A payment or journal entry by its document type; other types are left
/// out of the report.
pub fn voucher_kind(doctype: &str) -> (r: Option<ChequeVoucherKind>)
    ensures
        r == (if doctype@ == "Payment Entry"@ {
            Some(ChequeVoucherKind::PaymentEntry)
        } else if doctype@ == "Journal Entry"@ {
            Some(ChequeVoucherKind::JournalEntry)
        } else {
            None
        }),
{
    if str_eq(doctype, "Payment Entry") {
        Some(ChequeVoucherKind::PaymentEntry)
    } else if str_eq(doctype, "Journal Entry") {
        Some(ChequeVoucherKind::JournalEntry)
    } else {
        None
    }
}

} // verus!
