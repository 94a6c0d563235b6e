//! Bank reconciliation statement: the document sources of uncleared entries
//! and the statement's columns.
use vstd::prelude::*;
use crate::order::{key_view, keys_view, stable_order, stable_sorted, OrderKey};
use crate::text::{owned, str_eq};

verus! {

#[derive(Clone, Copy, Debug, PartialEq, Eq, Structural)]
pub enum BankReconciliationSource {
    JournalEntry,
    PaymentEntry,
    PurchaseInvoice,
    SalesInvoice,
}

impl BankReconciliationSource {
    pub open spec fn spec_label(self) -> Seq<char> {
        match self {
            BankReconciliationSource::JournalEntry => "Journal Entry"@,
            BankReconciliationSource::PaymentEntry => "Payment Entry"@,
            BankReconciliationSource::PurchaseInvoice => "Purchase Invoice"@,
            BankReconciliationSource::SalesInvoice => "Sales Invoice"@,
        }
    }

    /// The document type an entry of this source comes from.
    pub fn label(self) -> (r: &'static str)
        ensures
            r@ == self.spec_label(),
    {
        match self {
            BankReconciliationSource::JournalEntry => "Journal Entry",
            BankReconciliationSource::PaymentEntry => "Payment Entry",
            BankReconciliationSource::PurchaseInvoice => "Purchase Invoice",
            BankReconciliationSource::SalesInvoice => "Sales Invoice",
        }
    }
}

#[derive(Debug, PartialEq, Eq)]
pub struct ReportColumn {
    pub fieldname: &'static str,
    pub label: &'static str,
    pub fieldtype: &'static str,
    pub options: Option<&'static str>,
    pub width: u16,
}

/// label, field name, field type, options, width
pub type ColumnView = (Seq<char>, Seq<char>, Seq<char>, Option<Seq<char>>, u16);

impl DeepView for ReportColumn {
    type V = ColumnView;

    open spec fn deep_view(&self) -> ColumnView {
        (self.label@, self.fieldname@, self.fieldtype@, self.options.deep_view(), self.width)
    }
}

pub open spec fn column(label: Seq<char>, fieldname: Seq<char>, fieldtype: Seq<char>, options: Option<Seq<char>>, width: u16) -> ColumnView {
    (label, fieldname, fieldtype, options, width)
}

impl ReportColumn {
    pub fn new(label: &'static str, fieldname: &'static str, fieldtype: &'static str, options: Option<&'static str>, width: u16) -> (r: Self)
        ensures
            r.deep_view() == column(label@, fieldname@, fieldtype@, options.deep_view(), width),
    {
        ReportColumn { fieldname, label, fieldtype, options, width }
    }

    pub fn date(label: &'static str, fieldname: &'static str, width: u16) -> (r: Self)
        ensures
            r.deep_view() == column(label@, fieldname@, "Date"@, None, width),
    {
        Self::new(label, fieldname, "Date", None, width)
    }

    pub fn data(label: &'static str, fieldname: &'static str, width: u16) -> (r: Self)
        ensures
            r.deep_view() == column(label@, fieldname@, "Data"@, None, width),
    {
        Self::new(label, fieldname, "Data", None, width)
    }

    pub fn dynamic_link(label: &'static str, fieldname: &'static str, options: &'static str, width: u16) -> (r: Self)
        ensures
            r.deep_view() == column(label@, fieldname@, "Dynamic Link"@, Some(options@), width),
    {
        Self::new(label, fieldname, "Dynamic Link", Some(options), width)
    }

    pub fn currency(label: &'static str, fieldname: &'static str, options: &'static str, width: u16) -> (r: Self)
        ensures
            r.deep_view() == column(label@, fieldname@, "Currency"@, Some(options@), width),
    {
        Self::new(label, fieldname, "Currency", Some(options), width)
    }

    pub fn link(label: &'static str, fieldname: &'static str, options: &'static str, width: u16) -> (r: Self)
        ensures
            r.deep_view() == column(label@, fieldname@, "Link"@, Some(options@), width),
    {
        Self::new(label, fieldname, "Link", Some(options), width)
    }
}

/// The filters and ordering of the query for one document source.
#[derive(Debug, PartialEq, Eq)]
pub struct BankReconciliationQueryPlan {
    pub source: BankReconciliationSource,
    pub base_filters: Vec<&'static str>,
    pub ordering: Vec<&'static str>,
}

pub open spec fn spec_columns() -> Seq<ColumnView> {
    seq![
        column("Posting Date"@, "posting_date"@, "Date"@, None, 90),
        column("Payment Document Type"@, "payment_document"@, "Data"@, None, 220),
        column("Payment Document"@, "payment_entry"@, "Dynamic Link"@, Some("payment_document"@), 220),
        column("Debit"@, "debit"@, "Currency"@, Some("account_currency"@), 120),
        column("Credit"@, "credit"@, "Currency"@, Some("account_currency"@), 120),
        column("Against Account"@, "against_account"@, "Link"@, Some("Account"@), 200),
        column("Reference"@, "reference_no"@, "Data"@, None, 100),
        column("Ref Date"@, "ref_date"@, "Date"@, None, 110),
        column("Clearance Date"@, "clearance_date"@, "Date"@, None, 110),
        column("Currency"@, "account_currency"@, "Link"@, Some("Currency"@), 100),
    ]
}

pub fn get_columns() -> (r: Vec<ReportColumn>)
    ensures
        r.deep_view() == spec_columns(),
{
    let r = vec![
        ReportColumn::date("Posting Date", "posting_date", 90),
        ReportColumn::data("Payment Document Type", "payment_document", 220),
        ReportColumn::dynamic_link("Payment Document", "payment_entry", "payment_document", 220),
        ReportColumn::currency("Debit", "debit", "account_currency", 120),
        ReportColumn::currency("Credit", "credit", "account_currency", 120),
        ReportColumn::link("Against Account", "against_account", "Account", 200),
        ReportColumn::data("Reference", "reference_no", 100),
        ReportColumn::date("Ref Date", "ref_date", 110),
        ReportColumn::date("Clearance Date", "clearance_date", 110),
        ReportColumn::link("Currency", "account_currency", "Currency", 100),
    ];
    assert(r.deep_view() =~= spec_columns());
    r
}

/// The statement's filters, but for the balance as per the system, which is
/// an amount and plays no part in the queries.
#[derive(Debug, PartialEq, Eq)]
pub struct BankReconciliationFilters {
    pub company: String,
    pub account: Option<String>,
    pub report_date: String,
    pub account_currency: String,
    pub include_pos_transactions: bool,
}

/// source, base filters, ordering
pub type PlanView = (BankReconciliationSource, Seq<Seq<char>>, Seq<Seq<char>>);

impl DeepView for BankReconciliationQueryPlan {
    type V = PlanView;

    open spec fn deep_view(&self) -> PlanView {
        (self.source, self.base_filters.deep_view(), self.ordering.deep_view())
    }
}

/// The queries for uncleared entries: journal entries, payment entries and
/// paid purchase invoices on the account, and the POS payments of sales
/// invoices when POS transactions are included.
pub open spec fn spec_plans(include_pos_transactions: bool) -> Seq<PlanView> {
    let uncleared = "clearance_date is null or clearance_date > filters.report_date"@;
    let base = seq![
        (BankReconciliationSource::JournalEntry, seq![
            "docstatus = 1"@, "account = filters.account"@, "posting_date <= filters.report_date"@, uncleared,
            "company = filters.company"@, "is_opening is null or is_opening = 'No'"@,
        ], seq!["posting_date"@, "name desc"@]),
        (BankReconciliationSource::PaymentEntry, seq![
            "docstatus = 1"@, "paid_from = filters.account or paid_to = filters.account"@,
            "posting_date <= filters.report_date"@, uncleared, "company = filters.company"@,
        ], seq!["posting_date"@, "name desc"@]),
        (BankReconciliationSource::PurchaseInvoice, seq![
            "docstatus = 1"@, "is_paid = 1"@, "cash_bank_account = filters.account"@,
            "posting_date <= filters.report_date"@, uncleared, "company = filters.company"@,
        ], seq!["posting_date"@, "name desc"@]),
    ];
    if include_pos_transactions {
        base.push((BankReconciliationSource::SalesInvoice, seq![
            "Sales Invoice Payment.account = filters.account"@, "Sales Invoice.docstatus = 1"@,
            "Sales Invoice.posting_date <= filters.report_date"@,
            "Sales Invoice Payment.clearance_date is null or clearance_date > filters.report_date"@,
            "Sales Invoice.company = filters.company"@,
        ], seq!["posting_date"@, "Sales Invoice Payment.name desc"@]))
    } else {
        base
    }
}

impl BankReconciliationQueryPlan {
    pub fn for_filters(filters: &BankReconciliationFilters) -> (r: Vec<Self>)
        ensures
            r.deep_view() == spec_plans(filters.include_pos_transactions),
    {
        let uncleared = "clearance_date is null or clearance_date > filters.report_date";
        let mut plans = vec![
            BankReconciliationQueryPlan {
                source: BankReconciliationSource::JournalEntry,
                base_filters: vec!["docstatus = 1", "account = filters.account", "posting_date <= filters.report_date",
                    uncleared, "company = filters.company", "is_opening is null or is_opening = 'No'"],
                ordering: vec!["posting_date", "name desc"],
            },
            BankReconciliationQueryPlan {
                source: BankReconciliationSource::PaymentEntry,
                base_filters: vec!["docstatus = 1", "paid_from = filters.account or paid_to = filters.account",
                    "posting_date <= filters.report_date", uncleared, "company = filters.company"],
                ordering: vec!["posting_date", "name desc"],
            },
            BankReconciliationQueryPlan {
                source: BankReconciliationSource::PurchaseInvoice,
                base_filters: vec!["docstatus = 1", "is_paid = 1", "cash_bank_account = filters.account",
                    "posting_date <= filters.report_date", uncleared, "company = filters.company"],
                ordering: vec!["posting_date", "name desc"],
            },
        ];
        assert(plans.deep_view() =~~= spec_plans(false));
        if filters.include_pos_transactions {
            let ghost before = plans.deep_view();
            let pos = BankReconciliationQueryPlan {
                source: BankReconciliationSource::SalesInvoice,
                base_filters: vec!["Sales Invoice Payment.account = filters.account", "Sales Invoice.docstatus = 1",
                    "Sales Invoice.posting_date <= filters.report_date",
                    "Sales Invoice Payment.clearance_date is null or clearance_date > filters.report_date",
                    "Sales Invoice.company = filters.company"],
                ordering: vec!["posting_date", "Sales Invoice Payment.name desc"],
            };
            plans.push(pos);
            assert(plans.deep_view() =~~= before.push(pos.deep_view()));
            assert(plans.deep_view() =~~= spec_plans(true));
        }
        plans
    }
}

/// The order of the statement's entries, as indices: by posting date,
/// entries of one date in the order given.
pub fn get_entries(posting_dates: &[String]) -> (r: Vec<usize>)
    ensures
        r@.map_values(|v: usize| v as int) == stable_sorted(date_keys(posting_dates@), false, posting_dates@.len()),
{
    let mut keys: Vec<Vec<Option<String>>> = Vec::new();
    let mut i: usize = 0;
    while i < posting_dates.len()
        invariant
            i <= posting_dates@.len(),
            keys_view(keys@) == date_keys(posting_dates@).subrange(0, i as int),
        decreases posting_dates@.len() - i,
    {
        let k: Vec<Option<String>> = vec![Some(owned(posting_dates[i].as_str()))];
        let ghost before = keys@;
        assert(key_view(k@) =~= seq![Some(posting_dates@[i as int]@)]);
        keys.push(k);
        assert(keys_view(keys@) =~= keys_view(before).push(key_view(k@)));
        assert(date_keys(posting_dates@).subrange(0, i + 1) =~= date_keys(posting_dates@).subrange(0, i as int).push(
            date_keys(posting_dates@)[i as int],
        ));
        i = i + 1;
    }
    assert(date_keys(posting_dates@).subrange(0, i as int) =~= date_keys(posting_dates@));
    stable_order(&keys, false)
}

/// Each entry ordered by its posting date alone.
pub open spec fn date_keys(dates: Seq<String>) -> Seq<OrderKey> {
    Seq::new(dates.len(), |i: int| seq![Some(dates[i]@)])
}


/// What a payment entry shows on the statement of the bank account: whether
/// its received amount is a debit (it was paid to the account) and its paid
/// amount a credit (it was paid from the account), the account against it
/// (its party, else the other side) and its currency (that of the side paid
/// to, where that is the account, else that of the side paid from).
#[derive(Debug, PartialEq, Eq)]
pub struct PaymentEntrySides {
    pub debit_side: bool,
    pub credit_side: bool,
    pub against_account: String,
    pub account_currency: String,
}

pub fn payment_entry_sides(paid_from: &str, paid_to: &str, party: Option<&str>, paid_to_account_currency: &str,
    paid_from_account_currency: &str, account: &str) -> (r: PaymentEntrySides)
    ensures
        r.debit_side == (paid_to@ == account@),
        r.credit_side == (paid_from@ == account@),
        r.against_account@ == match party {
            Some(p) => p@,
            None => if paid_from@ == account@ { paid_to@ } else { paid_from@ },
        },
        r.account_currency@ == if paid_to@ == account@ { paid_to_account_currency@ } else { paid_from_account_currency@ },
{
    let to_account = str_eq(paid_to, account);
    let from_account = str_eq(paid_from, account);
    let against = match party {
        Some(p) => p,
        None => if from_account { paid_to } else { paid_from },
    };
    let currency = if to_account { paid_to_account_currency } else { paid_from_account_currency };
    PaymentEntrySides {
        debit_side: to_account,
        credit_side: from_account,
        against_account: owned(against),
        account_currency: owned(currency),
    }
}

} // verus!
