//! Bank clearance summary: the three document queries whose entries the
//! report lists, and its columns.
use vstd::prelude::*;
use crate::text::owned;

verus! {

#[derive(Debug, PartialEq, Eq)]
pub struct BankClearanceFilters {
    pub account: String,
    pub from_date: String,
    pub to_date: String,
}

impl BankClearanceFilters {
    pub fn new(account: &str, from_date: &str, to_date: &str) -> (r: Self)
        ensures
            r.account@ == account@,
            r.from_date@ == from_date@,
            r.to_date@ == to_date@,
    {
        BankClearanceFilters { account: owned(account), from_date: owned(from_date), to_date: owned(to_date) }
    }
}

#[derive(Debug, PartialEq, Eq)]
pub struct ReportColumn {
    pub label: &'static str,
    pub fieldname: &'static str,
    pub fieldtype: &'static str,
    pub options: &'static str,
    pub width: u16,
}

/// label, field name, field type, options, width
pub type ColumnView = (Seq<char>, Seq<char>, Seq<char>, Seq<char>, u16);

impl DeepView for ReportColumn {
    type V = ColumnView;

    open spec fn deep_view(&self) -> ColumnView {
        (self.label@, self.fieldname@, self.fieldtype@, self.options@, self.width)
    }
}

pub open spec fn column(label: Seq<char>, fieldname: Seq<char>, fieldtype: Seq<char>, options: Seq<char>, width: u16) -> ColumnView {
    (label, fieldname, fieldtype, options, width)
}

impl ReportColumn {
    pub fn data(label: &'static str, fieldname: &'static str, width: u16) -> (r: Self)
        ensures
            r.deep_view() == column(label@, fieldname@, "Data"@, ""@, width),
    {
        ReportColumn { label, fieldname, fieldtype: "Data", options: "", width }
    }

    pub fn dynamic_link(label: &'static str, fieldname: &'static str, options: &'static str, width: u16) -> (r: Self)
        ensures
            r.deep_view() == column(label@, fieldname@, "Dynamic Link"@, options@, width),
    {
        ReportColumn { label, fieldname, fieldtype: "Dynamic Link", options, width }
    }

    pub fn date(label: &'static str, fieldname: &'static str, width: u16) -> (r: Self)
        ensures
            r.deep_view() == column(label@, fieldname@, "Date"@, ""@, width),
    {
        ReportColumn { label, fieldname, fieldtype: "Date", options: "", width }
    }

    pub fn plain(label: &'static str, fieldname: &'static str, width: u16) -> (r: Self)
        ensures
            r.deep_view() == column(label@, fieldname@, ""@, ""@, width),
    {
        ReportColumn { label, fieldname, fieldtype: "", options: "", width }
    }

    pub fn link(label: &'static str, fieldname: &'static str, options: &'static str, width: u16) -> (r: Self)
        ensures
            r.deep_view() == column(label@, fieldname@, "Link"@, options@, width),
    {
        ReportColumn { label, fieldname, fieldtype: "Link", options, width }
    }

    pub fn currency(label: &'static str, fieldname: &'static str, width: u16) -> (r: Self)
        ensures
            r.deep_view() == column(label@, fieldname@, "Currency"@, ""@, width),
    {
        ReportColumn { label, fieldname, fieldtype: "Currency", options: "", width }
    }
}

#[derive(Clone, Copy, Debug, PartialEq, Eq, Structural)]
pub enum BankClearanceSource {
    JournalEntry,
    PaymentEntry,
    PurchaseInvoice,
}

/// One document query: its source, its filters, its ordering and the amount
/// it reports.
#[derive(Debug, PartialEq, Eq)]
pub struct BankClearanceQueryPlan {
    pub source: BankClearanceSource,
    pub account_filter: &'static str,
    pub date_filter: &'static str,
    pub docstatus_filter: &'static str,
    pub extra_filter: &'static str,
    pub ordering: Vec<&'static str>,
    pub amount_formula: &'static str,
}

pub type PlanView = (BankClearanceSource, Seq<char>, Seq<char>, Seq<char>, Seq<char>, Seq<Seq<char>>, Seq<char>);

impl DeepView for BankClearanceQueryPlan {
    type V = PlanView;

    open spec fn deep_view(&self) -> PlanView {
        (self.source, self.account_filter@, self.date_filter@, self.docstatus_filter@, self.extra_filter@,
            self.ordering.deep_view(), self.amount_formula@)
    }
}

pub open spec fn spec_plans() -> Seq<PlanView> {
    seq![
        (BankClearanceSource::JournalEntry,
            "Journal Entry Account.account = filters.account"@,
            "Journal Entry.posting_date between filters.from_date and filters.to_date"@,
            "Journal Entry.docstatus = 1"@,
            "(Journal Entry.is_opening = 'No' or Journal Entry.is_opening is null)"@,
            seq!["Journal Entry.posting_date desc"@, "Journal Entry.name desc"@],
            "debit_in_account_currency - credit_in_account_currency"@),
        (BankClearanceSource::PaymentEntry,
            "Payment Entry.paid_from = filters.account or Payment Entry.paid_to = filters.account"@,
            "Payment Entry.posting_date between filters.from_date and filters.to_date"@,
            "Payment Entry.docstatus = 1"@,
            ""@,
            seq!["Payment Entry.posting_date desc"@, "Payment Entry.name desc"@],
            "if paid_from == filters.account then (paid_amount * -1) - total_taxes_and_charges else received_amount"@),
        (BankClearanceSource::PurchaseInvoice,
            "Purchase Invoice.cash_bank_account = filters.account"@,
            "Purchase Invoice.posting_date between filters.from_date and filters.to_date"@,
            "Purchase Invoice.docstatus = 1"@,
            "Purchase Invoice.is_paid = 1"@,
            seq!["Purchase Invoice.posting_date desc"@, "Purchase Invoice.name desc"@],
            "paid_amount * -1"@),
    ]
}

impl BankClearanceQueryPlan {
    /// The same three queries whatever the filters; they name the filter
    /// fields symbolically.
    pub fn from_filters(_filters: &BankClearanceFilters) -> (r: Vec<Self>)
        ensures
            r.deep_view() == spec_plans(),
    {
        let o1: Vec<&'static str> = vec!["Journal Entry.posting_date desc", "Journal Entry.name desc"];
        let o2: Vec<&'static str> = vec!["Payment Entry.posting_date desc", "Payment Entry.name desc"];
        let o3: Vec<&'static str> = vec!["Purchase Invoice.posting_date desc", "Purchase Invoice.name desc"];
        assert(o1.deep_view() =~= seq!["Journal Entry.posting_date desc"@, "Journal Entry.name desc"@]);
        assert(o2.deep_view() =~= seq!["Payment Entry.posting_date desc"@, "Payment Entry.name desc"@]);
        assert(o3.deep_view() =~= seq!["Purchase Invoice.posting_date desc"@, "Purchase Invoice.name desc"@]);
        let r = vec![
            BankClearanceQueryPlan {
                source: BankClearanceSource::JournalEntry,
                account_filter: "Journal Entry Account.account = filters.account",
                date_filter: "Journal Entry.posting_date between filters.from_date and filters.to_date",
                docstatus_filter: "Journal Entry.docstatus = 1",
                extra_filter: "(Journal Entry.is_opening = 'No' or Journal Entry.is_opening is null)",
                ordering: o1,
                amount_formula: "debit_in_account_currency - credit_in_account_currency",
            },
            BankClearanceQueryPlan {
                source: BankClearanceSource::PaymentEntry,
                account_filter: "Payment Entry.paid_from = filters.account or Payment Entry.paid_to = filters.account",
                date_filter: "Payment Entry.posting_date between filters.from_date and filters.to_date",
                docstatus_filter: "Payment Entry.docstatus = 1",
                extra_filter: "",
                ordering: o2,
                amount_formula: "if paid_from == filters.account then (paid_amount * -1) - total_taxes_and_charges else received_amount",
            },
            BankClearanceQueryPlan {
                source: BankClearanceSource::PurchaseInvoice,
                account_filter: "Purchase Invoice.cash_bank_account = filters.account",
                date_filter: "Purchase Invoice.posting_date between filters.from_date and filters.to_date",
                docstatus_filter: "Purchase Invoice.docstatus = 1",
                extra_filter: "Purchase Invoice.is_paid = 1",
                ordering: o3,
                amount_formula: "paid_amount * -1",
            },
        ];
        assert(r.deep_view() =~= spec_plans());
        r
    }
}

pub open spec fn spec_columns() -> Seq<ColumnView> {
    seq![
        column("Payment Document Type"@, "payment_document_type"@, "Data"@, ""@, 130),
        column("Payment Entry"@, "payment_entry"@, "Dynamic Link"@, "payment_document_type"@, 140),
        column("Posting Date"@, "posting_date"@, "Date"@, ""@, 120),
        column("Cheque/Reference No"@, "cheque_no"@, ""@, ""@, 120),
        column("Clearance Date"@, "clearance_date"@, "Date"@, ""@, 120),
        column("Against Account"@, "against"@, "Link"@, "Account"@, 200),
        column("Amount"@, "amount"@, "Currency"@, ""@, 120),
    ]
}

pub fn get_columns() -> (r: Vec<ReportColumn>)
    ensures
        r.deep_view() == spec_columns(),
{
    let r = vec![
        ReportColumn::data("Payment Document Type", "payment_document_type", 130),
        ReportColumn::dynamic_link("Payment Entry", "payment_entry", "payment_document_type", 140),
        ReportColumn::date("Posting Date", "posting_date", 120),
        ReportColumn::plain("Cheque/Reference No", "cheque_no", 120),
        ReportColumn::date("Clearance Date", "clearance_date", 120),
        ReportColumn::link("Against Account", "against", "Account", 200),
        ReportColumn::currency("Amount", "amount", 120),
    ];
    assert(r.deep_view() =~= spec_columns());
    r
}

} // verus!
