//! Accounts receivable summary: per-party totals report, its columns and its
//! ageing bucket labels.
use vstd::prelude::*;
use crate::text::{digit_fields, i64_text, int_text, usize_text, owned, parse_i32, parse_i32_spec, split_digit_fields, str_eq};

verus! {

#[derive(Clone, Copy, Debug, PartialEq, Eq, Structural)]
pub enum AccountType {
    Receivable,
    Payable,
}

#[derive(Debug, PartialEq, Eq)]
pub struct AccountsReceivableSummaryArgs {
    pub account_type: AccountType,
    pub party_naming_by: String,
}

#[derive(Debug, PartialEq, Eq)]
pub struct AccountsReceivableSummaryFilters {
    pub company: String,
    pub report_date: String,
    pub range: String,
    pub show_gl_balance: bool,
    pub show_future_payments: bool,
    pub show_sales_person: bool,
    pub sales_partner: Option<String>,
}

#[derive(Debug, PartialEq, Eq)]
pub struct ReceivableSummaryColumn {
    pub label: String,
    pub fieldname: String,
    pub fieldtype: &'static str,
    pub options: Option<&'static str>,
    pub width: u16,
}

/// label, field name, field type, options, width
pub type ColumnView = (Seq<char>, Seq<char>, Seq<char>, Option<Seq<char>>, u16);

impl DeepView for ReceivableSummaryColumn {
    type V = ColumnView;

    open spec fn deep_view(&self) -> ColumnView {
        (self.label@, self.fieldname@, self.fieldtype@, self.options.deep_view(), self.width)
    }
}

pub open spec fn column(label: Seq<char>, fieldname: Seq<char>, fieldtype: Seq<char>, options: Option<Seq<char>>, width: u16) -> ColumnView {
    (label, fieldname, fieldtype, options, width)
}

impl ReceivableSummaryColumn {
    pub fn data(label: &str, fieldname: &str, width: u16) -> (r: Self)
        ensures
            r.deep_view() == column(label@, fieldname@, "Data"@, None, width),
    {
        ReceivableSummaryColumn { label: owned(label), fieldname: owned(fieldname), fieldtype: "Data", options: None, width }
    }

    pub fn dynamic_link(label: &str, fieldname: &str, options: &'static str, width: u16) -> (r: Self)
        ensures
            r.deep_view() == column(label@, fieldname@, "Dynamic Link"@, Some(options@), width),
    {
        ReceivableSummaryColumn {
            label: owned(label),
            fieldname: owned(fieldname),
            fieldtype: "Dynamic Link",
            options: Some(options),
            width,
        }
    }

    pub fn link(label: &str, fieldname: &str, options: &'static str, width: u16) -> (r: Self)
        ensures
            r.deep_view() == column(label@, fieldname@, "Link"@, Some(options@), width),
    {
        ReceivableSummaryColumn { label: owned(label), fieldname: owned(fieldname), fieldtype: "Link", options: Some(options), width }
    }

    pub fn currency(label: &str, fieldname: &str, width: u16) -> (r: Self)
        ensures
            r.deep_view() == column(label@, fieldname@, "Currency"@, Some("currency"@), width),
    {
        ReceivableSummaryColumn {
            label: owned(label),
            fieldname: owned(fieldname),
            fieldtype: "Currency",
            options: Some("currency"),
            width,
        }
    }
}

impl AccountsReceivableSummaryArgs {
    pub fn receivable(party_naming_by: &str) -> (r: Self)
        ensures
            r.account_type == AccountType::Receivable,
            r.party_naming_by@ == party_naming_by@,
    {
        AccountsReceivableSummaryArgs { account_type: AccountType::Receivable, party_naming_by: owned(party_naming_by) }
    }
}

/// The bucket bounds a range filter names: its digit fields, or 30, 60, 90,
/// 120 when it names none.
pub open spec fn bucket_bounds(range: Seq<char>) -> Seq<Seq<char>> {
    let given = digit_fields(range, ',');
    if given.len() == 0 {
        seq!["30"@, "60"@, "90"@, "120"@]
    } else {
        given
    }
}

/// The lower bound that follows a bucket bounded by `current`: one past its
/// value, or one when it does not read as an `i32`.
pub open spec fn next_lower(current: Seq<char>) -> int {
    match parse_i32_spec(current) {
        Some(v) => v + 1,
        None => 1,
    }
}

/// `"{lower}-{bound}"` for each bound in turn, then `"{lower}-Above"`.
pub open spec fn bucket_labels(bounds: Seq<Seq<char>>, lower: int) -> Seq<Seq<char>>
    decreases bounds.len(),
{
    if bounds.len() == 0 {
        seq![int_text(lower) + "-Above"@]
    } else {
        seq![int_text(lower) + "-"@ + bounds[0]] + bucket_labels(bounds.skip(1), next_lower(bounds[0]))
    }
}

/// The ageing labels of a range filter, starting with `<0`.
pub open spec fn ageing_labels(range: Seq<char>) -> Seq<Seq<char>> {
    seq!["<0"@] + bucket_labels(bucket_bounds(range), 0)
}

/// No bound reads as the largest `i32`, whose successor would overflow.
pub open spec fn bounds_fit(bounds: Seq<Seq<char>>) -> bool {
    forall|i: int| 0 <= i < bounds.len() ==> parse_i32_spec(#[trigger] bounds[i]) != Some(i32::MAX)
}

fn ageing_range_labels(range: &str) -> (r: Vec<String>)
    requires
        bounds_fit(bucket_bounds(range@)),
    ensures
        r.deep_view() == ageing_labels(range@),
{
    let given = split_digit_fields(range, ',');
    let bounds: Vec<String> = if given.len() == 0 {
        vec![owned("30"), owned("60"), owned("90"), owned("120")]
    } else {
        given
    };
    let ghost all = bucket_bounds(range@);
    assert(bounds.deep_view() =~= all);
    let mut labels: Vec<String> = vec![owned("<0")];
    let ghost start = labels.deep_view();
    let mut previous: i32 = 0;
    let mut i: usize = 0;
    assert(all.skip(0) =~= all);
    assert(labels.deep_view() =~= seq!["<0"@]);
    while i < bounds.len()
        invariant
            bounds.deep_view() == all,
            i <= all.len(),
            bounds_fit(all),
            ageing_labels(range@) == labels.deep_view() + bucket_labels(all.skip(i as int), previous as int),
        decreases all.len() - i,
    {
        let current = &bounds[i];
        let mut label = i64_text(previous as i64);
        label.append("-");
        label.append(current.as_str());
        let ghost rest = all.skip(i as int);
        let ghost before = labels.deep_view();
        let ghost prev = previous as int;
        assert(rest[0] == current@);
        assert(rest.skip(1) =~= all.skip(i + 1));
        labels.push(label);
        previous = match parse_i32(current.as_str()) {
            Some(v) => {
                assert(all[i as int] == current@);
                v + 1
            },
            None => 1,
        };
        i = i + 1;
        assert(labels.deep_view() + bucket_labels(all.skip(i as int), previous as int)
            =~= before + bucket_labels(rest, prev));
    }
    let mut last = i64_text(previous as i64);
    last.append("-Above");
    let ghost before = labels.deep_view();
    labels.push(last);
    assert(all.skip(i as int) =~= Seq::<Seq<char>>::empty());
    assert(labels.deep_view() =~= ageing_labels(range@));
    labels
}


fn range_fieldname(index: usize) -> (r: String)
    ensures
        r@ == "range"@ + int_text(index as int),
{
    let mut r = owned("range");
    let digits = usize_text(index);
    r.append(digits.as_str());
    r
}

pub open spec fn when(cond: bool, cols: Seq<ColumnView>) -> Seq<ColumnView> {
    if cond { cols } else { Seq::empty() }
}

/// One currency column per ageing label, `range0`, `range1`, ...
pub open spec fn bucket_columns(labels: Seq<Seq<char>>) -> Seq<ColumnView> {
    Seq::new(labels.len(), |i: int| column(labels[i], "range"@ + int_text(i), "Currency"@, Some("currency"@), 120))
}

/// The columns before the ageing buckets.
pub open spec fn head_columns(filters: AccountsReceivableSummaryFilters, args: AccountsReceivableSummaryArgs) -> Seq<ColumnView> {
    let receivable = args.account_type == AccountType::Receivable;
    seq![column("Party Type"@, "party_type"@, "Data"@, None, 100), column("Party"@, "party"@, "Dynamic Link"@, Some("party_type"@), 180)]
        + when(args.party_naming_by@ == "Naming Series"@, seq![column(if receivable { "Customer Name"@ } else { "Supplier Name"@ }, "party_name"@, "Data"@, None, 120)])
        + seq![
            column("Advance Amount"@, "advance"@, "Currency"@, Some("currency"@), 120),
            column("Invoiced Amount"@, "invoiced"@, "Currency"@, Some("currency"@), 120),
            column("Paid Amount"@, "paid"@, "Currency"@, Some("currency"@), 120),
            column(if receivable { "Credit Note"@ } else { "Debit Note"@ }, "credit_note"@, "Currency"@, Some("currency"@), 120),
            column("Outstanding Amount"@, "outstanding"@, "Currency"@, Some("currency"@), 120),
        ]
        + when(filters.show_gl_balance, seq![
            column("GL Balance"@, "gl_balance"@, "Currency"@, Some("currency"@), 120),
            column("Difference"@, "diff"@, "Currency"@, Some("currency"@), 120),
        ])
}

/// The columns after the ageing buckets.
pub open spec fn tail_columns(filters: AccountsReceivableSummaryFilters, args: AccountsReceivableSummaryArgs) -> Seq<ColumnView> {
    let receivable = args.account_type == AccountType::Receivable;
        seq![column("Total Amount Due"@, "total_due"@, "Currency"@, Some("currency"@), 120)]
        + when(filters.show_future_payments, seq![
            column("Future Payment Amount"@, "future_amount"@, "Currency"@, Some("currency"@), 120),
            column("Remaining Balance"@, "remaining_balance"@, "Currency"@, Some("currency"@), 120),
        ])
        + if receivable {
            seq![
                column("Territory"@, "territory"@, "Link"@, Some("Territory"@), 120),
                column("Customer Group"@, "customer_group"@, "Link"@, Some("Customer Group"@), 120),
            ]
                + when(filters.show_sales_person, seq![column("Sales Person"@, "sales_person"@, "Data"@, None, 120)])
                + when(filters.sales_partner is Some, seq![column("Sales Partner"@, "default_sales_partner"@, "Data"@, None, 120)])
        } else {
            seq![column("Supplier Group"@, "supplier_group"@, "Link"@, Some("Supplier Group"@), 120)]
        }
        + seq![column("Currency"@, "currency"@, "Link"@, Some("Currency"@), 80)]

}

/// The summary's columns, in order.
pub open spec fn spec_columns(filters: AccountsReceivableSummaryFilters, args: AccountsReceivableSummaryArgs) -> Seq<ColumnView> {
    head_columns(filters, args) + bucket_columns(ageing_labels(filters.range@)) + tail_columns(filters, args)
}

fn push_bucket_columns(columns: &mut Vec<ReceivableSummaryColumn>, labels: &Vec<String>)
    ensures
        final(columns).deep_view() == old(columns).deep_view() + bucket_columns(labels.deep_view()),
{
    let ghost start = columns.deep_view();
    let mut i: usize = 0;
    while i < labels.len()
        invariant
            i <= labels@.len(),
            columns.deep_view() == start + bucket_columns(labels.deep_view()).subrange(0, i as int),
        decreases labels@.len() - i,
    {
        let name = range_fieldname(i);
        assert(labels.deep_view()[i as int] == labels@[i as int]@);
        let ghost before = columns.deep_view();
        let col = ReceivableSummaryColumn::currency(labels[i].as_str(), name.as_str(), 120);
        assert(col.deep_view() == bucket_columns(labels.deep_view())[i as int]);
        columns.push(col);
        assert(columns.deep_view() =~= before.push(col.deep_view()));
        assert(bucket_columns(labels.deep_view()).subrange(0, i + 1) =~= bucket_columns(labels.deep_view()).subrange(0, i as int).push(col.deep_view()));
        i = i + 1;
    }
    assert(bucket_columns(labels.deep_view()).subrange(0, i as int) =~= bucket_columns(labels.deep_view()));
}

pub fn get_columns(filters: &AccountsReceivableSummaryFilters, args: &AccountsReceivableSummaryArgs) -> (r: Vec<ReceivableSummaryColumn>)
    requires
        bounds_fit(bucket_bounds(filters.range@)),
    ensures
        r.deep_view() == spec_columns(*filters, *args),
{
    let receivable = args.account_type == AccountType::Receivable;
    let mut columns = vec![
        ReceivableSummaryColumn::data("Party Type", "party_type", 100),
        ReceivableSummaryColumn::dynamic_link("Party", "party", "party_type", 180),
    ];
    if str_eq(args.party_naming_by.as_str(), "Naming Series") {
        columns.push(ReceivableSummaryColumn::data(
            if receivable { "Customer Name" } else { "Supplier Name" },
            "party_name",
            120,
        ));
    }
    columns.push(ReceivableSummaryColumn::currency("Advance Amount", "advance", 120));
    columns.push(ReceivableSummaryColumn::currency("Invoiced Amount", "invoiced", 120));
    columns.push(ReceivableSummaryColumn::currency("Paid Amount", "paid", 120));
    columns.push(ReceivableSummaryColumn::currency(if receivable { "Credit Note" } else { "Debit Note" }, "credit_note", 120));
    columns.push(ReceivableSummaryColumn::currency("Outstanding Amount", "outstanding", 120));
    if filters.show_gl_balance {
        columns.push(ReceivableSummaryColumn::currency("GL Balance", "gl_balance", 120));
        columns.push(ReceivableSummaryColumn::currency("Difference", "diff", 120));
    }
    let ghost s1 = columns.deep_view();
    assert(s1 =~= head_columns(*filters, *args));
    let labels = ageing_range_labels(filters.range.as_str());
    proof {
        assert(ageing_labels(filters.range@).len() == bucket_bounds(filters.range@).len() + 2) by {
            lemma_bucket_labels_len(bucket_bounds(filters.range@), 0);
        }
    }
    assert(labels@.len() == labels.deep_view().len());
    push_bucket_columns(&mut columns, &labels);
    let ghost s2 = columns.deep_view();
    assert(s2 =~= s1 + bucket_columns(ageing_labels(filters.range@)));
    columns.push(ReceivableSummaryColumn::currency("Total Amount Due", "total_due", 120));
    if filters.show_future_payments {
        columns.push(ReceivableSummaryColumn::currency("Future Payment Amount", "future_amount", 120));
        columns.push(ReceivableSummaryColumn::currency("Remaining Balance", "remaining_balance", 120));
    }
    if receivable {
        columns.push(ReceivableSummaryColumn::link("Territory", "territory", "Territory", 120));
        columns.push(ReceivableSummaryColumn::link("Customer Group", "customer_group", "Customer Group", 120));
        if filters.show_sales_person {
            columns.push(ReceivableSummaryColumn::data("Sales Person", "sales_person", 120));
        }
        if filters.sales_partner.is_some() {
            columns.push(ReceivableSummaryColumn::data("Sales Partner", "default_sales_partner", 120));
        }
    } else {
        columns.push(ReceivableSummaryColumn::link("Supplier Group", "supplier_group", "Supplier Group", 120));
    }
    columns.push(ReceivableSummaryColumn::link("Currency", "currency", "Currency", 80));
    assert(columns.deep_view() =~= s2 + tail_columns(*filters, *args));
    assert(columns.deep_view() =~= spec_columns(*filters, *args));
    columns
}

proof fn lemma_bucket_labels_len(bounds: Seq<Seq<char>>, lower: int)
    ensures
        bucket_labels(bounds, lower).len() == bounds.len() + 1,
    decreases bounds.len(),
{
    if bounds.len() > 0 {
        lemma_bucket_labels_len(bounds.skip(1), next_lower(bounds[0]));
    }
}

} // verus!
