//! Item-wise sales register: the columns for each grouping, with the extra
//! item columns and a rate and amount column per tax.
use std::collections::BTreeMap;
use vstd::prelude::*;
use crate::erpnext::accounts::report::{lists_for, lists_for_keys, map_get};
use crate::order::{key_view, keys_view, opt_text, stable_order, stable_sorted, OrderKey};
use crate::text::{concat, lex_less, owned, str_eq, str_less, title_from_scrub, title_of};

verus! {

#[derive(Debug, PartialEq, Eq)]
pub struct ItemWiseSalesFilters {
    pub company: Option<String>,
    pub customer: Option<String>,
    pub customer_group: Option<String>,
    pub mode_of_payment: Option<String>,
    pub from_date: Option<String>,
    pub to_date: Option<String>,
    pub warehouse: Option<String>,
    pub brand: Option<String>,
    pub item_code: Option<String>,
    pub item_group: Option<String>,
    pub income_account: Option<String>,
    pub group_by: Option<String>,
}

#[derive(Debug, PartialEq, Eq)]
pub struct ReportColumn {
    pub label: String,
    pub fieldname: String,
    pub fieldtype: String,
    pub options: Option<String>,
    pub width: u16,
}

/// label, field name, field type, options, width
pub type ColumnView = (Seq<char>, Seq<char>, Seq<char>, Option<Seq<char>>, u16);

impl DeepView for ReportColumn {
    type V = ColumnView;

    open spec fn deep_view(&self) -> ColumnView {
        (self.label@, self.fieldname@, self.fieldtype@, self.options.deep_view(), self.width)
    }
}

pub open spec fn link_view(label: Seq<char>, fieldname: Seq<char>, options: Seq<char>, width: u16) -> ColumnView {
    (label, fieldname, "Link"@, Some(options), width)
}

pub open spec fn typed_view(label: Seq<char>, fieldname: Seq<char>, fieldtype: Seq<char>, width: u16) -> ColumnView {
    (label, fieldname, fieldtype, None, width)
}

pub open spec fn currency_view(label: Seq<char>, fieldname: Seq<char>, width: u16) -> ColumnView {
    (label, fieldname, "Currency"@, Some("currency"@), width)
}

impl ReportColumn {
    pub fn data(label: &str, fieldname: &str, width: u16) -> (r: Self)
        ensures
            r.deep_view() == typed_view(label@, fieldname@, "Data"@, width),
    {
        ReportColumn { label: owned(label), fieldname: owned(fieldname), fieldtype: owned("Data"), options: None, width }
    }

    pub fn typed(label: &str, fieldname: &str, fieldtype: &str, width: u16) -> (r: Self)
        ensures
            r.deep_view() == typed_view(label@, fieldname@, fieldtype@, width),
    {
        ReportColumn { label: owned(label), fieldname: owned(fieldname), fieldtype: owned(fieldtype), options: None, width }
    }

    pub fn link(label: &str, fieldname: &str, options: &str, width: u16) -> (r: Self)
        ensures
            r.deep_view() == link_view(label@, fieldname@, options@, width),
    {
        ReportColumn { label: owned(label), fieldname: owned(fieldname), fieldtype: owned("Link"), options: Some(owned(options)), width }
    }

    pub fn currency(label: &str, fieldname: &str, width: u16) -> (r: Self)
        ensures
            r.deep_view() == currency_view(label@, fieldname@, width),
    {
        ReportColumn { label: owned(label), fieldname: owned(fieldname), fieldtype: owned("Currency"), options: Some(owned("currency")), width }
    }
}

/// A further column of the invoice items table.
#[derive(Debug, PartialEq, Eq)]
pub struct AdditionalColumn {
    pub label: String,
    pub fieldname: String,
    pub fieldtype: String,
    pub width: u16,
}

impl AdditionalColumn {
    pub fn data(label: &str, fieldname: &str, width: u16) -> (r: Self)
        ensures
            r.label@ == label@,
            r.fieldname@ == fieldname@,
            r.fieldtype@ == "Data"@,
            r.width == width,
    {
        AdditionalColumn { label: owned(label), fieldname: owned(fieldname), fieldtype: owned("Data"), width }
    }
}

/// The report column of a further column: the same label, field, type and
/// width, without options.
pub open spec fn additional_view(c: AdditionalColumn) -> ColumnView {
    (c.label@, c.fieldname@, c.fieldtype@, None, c.width)
}

fn from_additional(c: &AdditionalColumn) -> (r: ReportColumn)
    ensures
        r.deep_view() == additional_view(*c),
{
    ReportColumn { label: c.label.clone(), fieldname: c.fieldname.clone(), fieldtype: c.fieldtype.clone(), options: None, width: c.width }
}

#[derive(Debug, PartialEq, Eq)]
pub struct CustomerDetail {
    pub customer_name: String,
    pub customer_group: String,
}

/// A rate and an amount column per tax, titled from the tax's field name.
pub open spec fn tax_columns(taxes: Seq<Seq<char>>) -> Seq<ColumnView>
    decreases taxes.len(),
{
    if taxes.len() == 0 {
        Seq::empty()
    } else {
        let t = taxes.last();
        tax_columns(taxes.drop_last()) + seq![
            typed_view(title_of(t) + " Rate"@, t + "_rate"@, "Float"@, 100),
            currency_view(title_of(t) + " Amount"@, t + "_amount"@, 100),
        ]
    }
}

pub open spec fn grouped_by(g: Option<String>, name: Seq<char>) -> bool {
    g matches Some(v) && v@ == name
}

pub open spec fn when(cond: bool, items: Seq<ColumnView>) -> Seq<ColumnView> {
    if cond { items } else { Seq::empty() }
}

/// The item, invoice and customer columns a grouping keeps.
pub open spec fn leading_columns(g: Option<String>) -> Seq<ColumnView> {
    when(!grouped_by(g, "Item"@), seq![link_view("Item Code"@, "item_code"@, "Item"@, 120), typed_view("Item Name"@, "item_name"@, "Data"@, 120)])
    + when(!(grouped_by(g, "Item"@) || grouped_by(g, "Item Group"@)), seq![link_view("Item Group"@, "item_group"@, "Item Group"@, 120)])
    + seq![typed_view("Description"@, "description"@, "Data"@, 150), link_view("Invoice"@, "invoice"@, "Sales Invoice"@, 150),
        typed_view("Posting Date"@, "posting_date"@, "Date"@, 120)]
    + when(!grouped_by(g, "Customer"@), seq![link_view("Customer Group"@, "customer_group"@, "Customer Group"@, 120)])
    + when(!(grouped_by(g, "Customer"@) || grouped_by(g, "Customer Group"@)),
        seq![link_view("Customer"@, "customer"@, "Customer"@, 120), typed_view("Customer Name"@, "customer_name"@, "Data"@, 120)])
}

/// The account, payment, territory, document and amount columns.
pub open spec fn middle_columns(g: Option<String>) -> Seq<ColumnView> {
    seq![link_view("Receivable Account"@, "debit_to"@, "Account"@, 80), typed_view("Mode Of Payment"@, "mode_of_payment"@, "Data"@, 120)]
    + when(!grouped_by(g, "Territory"@), seq![link_view("Territory"@, "territory"@, "Territory"@, 80)])
    + seq![
        link_view("Project"@, "project"@, "Project"@, 80), link_view("Company"@, "company"@, "Company"@, 80),
        link_view("Sales Order"@, "sales_order"@, "Sales Order"@, 100), link_view("Delivery Note"@, "delivery_note"@, "Delivery Note"@, 100),
        link_view("Income Account"@, "income_account"@, "Account"@, 100), link_view("Cost Center"@, "cost_center"@, "Cost Center"@, 100),
        typed_view("Stock Qty"@, "stock_qty"@, "Float"@, 100), link_view("Stock UOM"@, "stock_uom"@, "UOM"@, 100),
        typed_view("Rate"@, "rate"@, "Float"@, 100), currency_view("Amount"@, "amount"@, 100),
    ]
    + when(g is Some, seq![typed_view("% Of Grand Total"@, "percent_gt"@, "Float"@, 80)])
}

pub open spec fn total_columns() -> Seq<ColumnView> {
    seq![currency_view("Total Tax"@, "total_tax"@, 100), currency_view("Total Other Charges"@, "total_other_charges"@, 100),
        currency_view("Total"@, "total"@, 100), currency_view("Currency"@, "currency"@, 80)]
}

/// The register's columns: those the grouping keeps, the further item
/// columns, the account to amount columns, one rate and amount per tax, and
/// the totals.
pub open spec fn spec_columns(additional: Seq<AdditionalColumn>, g: Option<String>, taxes: Seq<Seq<char>>) -> Seq<ColumnView> {
    leading_columns(g) + Seq::new(additional.len(), |i: int| additional_view(additional[i])) + middle_columns(g)
        + tax_columns(taxes) + total_columns()
}

fn push_column(columns: &mut Vec<ReportColumn>, c: ReportColumn)
    ensures
        final(columns).deep_view() == old(columns).deep_view().push(c.deep_view()),
{
    let ghost before = columns.deep_view();
    columns.push(c);
    assert(columns.deep_view() =~= before.push(c.deep_view()));
}

fn is_group(g: &Option<String>, name: &str) -> (r: bool)
    ensures
        r == grouped_by(*g, name@),
{
    match g {
        Some(v) => str_eq(v.as_str(), name),
        None => false,
    }
}

fn push_tax_columns(columns: &mut Vec<ReportColumn>, taxes: &[String])
    ensures
        final(columns).deep_view() == old(columns).deep_view() + tax_columns(taxes.deep_view()),
{
    let ghost head = columns.deep_view();
    let ghost ts = taxes.deep_view();
    let mut i: usize = 0;
    while i < taxes.len()
        invariant
            i <= taxes@.len(),
            ts == taxes.deep_view(),
            columns.deep_view() == head + tax_columns(ts.subrange(0, i as int)),
        decreases taxes@.len() - i,
    {
        assert(ts.subrange(0, i + 1).drop_last() =~= ts.subrange(0, i as int));
        let tax = taxes[i].as_str();
        let title = title_from_scrub(tax);
        push_column(columns, ReportColumn::typed(concat(title.as_str(), " Rate").as_str(), concat(tax, "_rate").as_str(), "Float", 100));
        push_column(columns, ReportColumn::currency(concat(title.as_str(), " Amount").as_str(), concat(tax, "_amount").as_str(), 100));
        i = i + 1;
        assert(columns.deep_view() =~= head + tax_columns(ts.subrange(0, i as int)));
    }
    assert(ts.subrange(0, i as int) =~= ts);
}

fn push_leading(c: &mut Vec<ReportColumn>, g: &Option<String>)
    ensures
        final(c).deep_view() == old(c).deep_view() + leading_columns(*g),
{
    let ghost s0 = c.deep_view();
    if !is_group(g, "Item") {
        push_column(c, ReportColumn::link("Item Code", "item_code", "Item", 120));
        push_column(c, ReportColumn::data("Item Name", "item_name", 120));
    }
    let ghost s1 = c.deep_view();
    if !(is_group(g, "Item") || is_group(g, "Item Group")) {
        push_column(c, ReportColumn::link("Item Group", "item_group", "Item Group", 120));
    }
    let ghost s2 = c.deep_view();
    push_column(c, ReportColumn::data("Description", "description", 150));
    push_column(c, ReportColumn::link("Invoice", "invoice", "Sales Invoice", 150));
    push_column(c, ReportColumn::typed("Posting Date", "posting_date", "Date", 120));
    let ghost s3 = c.deep_view();
    if !is_group(g, "Customer") {
        push_column(c, ReportColumn::link("Customer Group", "customer_group", "Customer Group", 120));
    }
    let ghost s4 = c.deep_view();
    if !(is_group(g, "Customer") || is_group(g, "Customer Group")) {
        push_column(c, ReportColumn::link("Customer", "customer", "Customer", 120));
        push_column(c, ReportColumn::data("Customer Name", "customer_name", 120));
    }
    assert(s1 =~= s0 + when(!grouped_by(*g, "Item"@), seq![link_view("Item Code"@, "item_code"@, "Item"@, 120), typed_view("Item Name"@, "item_name"@, "Data"@, 120)]));
    assert(s2 =~= s1 + when(!(grouped_by(*g, "Item"@) || grouped_by(*g, "Item Group"@)), seq![link_view("Item Group"@, "item_group"@, "Item Group"@, 120)]));
    assert(s4 =~= s3 + when(!grouped_by(*g, "Customer"@), seq![link_view("Customer Group"@, "customer_group"@, "Customer Group"@, 120)]));
    assert(c.deep_view() =~= s0 + leading_columns(*g));
}

fn push_middle(c: &mut Vec<ReportColumn>, g: &Option<String>)
    ensures
        final(c).deep_view() == old(c).deep_view() + middle_columns(*g),
{
    let ghost s0 = c.deep_view();
    push_column(c, ReportColumn::link("Receivable Account", "debit_to", "Account", 80));
    push_column(c, ReportColumn::data("Mode Of Payment", "mode_of_payment", 120));
    let ghost s1 = c.deep_view();
    if !is_group(g, "Territory") {
        push_column(c, ReportColumn::link("Territory", "territory", "Territory", 80));
    }
    let ghost s2 = c.deep_view();
    push_column(c, ReportColumn::link("Project", "project", "Project", 80));
    push_column(c, ReportColumn::link("Company", "company", "Company", 80));
    push_column(c, ReportColumn::link("Sales Order", "sales_order", "Sales Order", 100));
    push_column(c, ReportColumn::link("Delivery Note", "delivery_note", "Delivery Note", 100));
    push_column(c, ReportColumn::link("Income Account", "income_account", "Account", 100));
    push_column(c, ReportColumn::link("Cost Center", "cost_center", "Cost Center", 100));
    push_column(c, ReportColumn::typed("Stock Qty", "stock_qty", "Float", 100));
    push_column(c, ReportColumn::link("Stock UOM", "stock_uom", "UOM", 100));
    push_column(c, ReportColumn::typed("Rate", "rate", "Float", 100));
    push_column(c, ReportColumn::currency("Amount", "amount", 100));
    let ghost s3 = c.deep_view();
    if g.is_some() {
        push_column(c, ReportColumn::typed("% Of Grand Total", "percent_gt", "Float", 80));
    }
    assert(s2 =~= s1 + when(!grouped_by(*g, "Territory"@), seq![link_view("Territory"@, "territory"@, "Territory"@, 80)]));
    assert(c.deep_view() =~= s0 + middle_columns(*g));
}

fn push_totals(c: &mut Vec<ReportColumn>)
    ensures
        final(c).deep_view() == old(c).deep_view() + total_columns(),
{
    let ghost s0 = c.deep_view();
    push_column(c, ReportColumn::currency("Total Tax", "total_tax", 100));
    push_column(c, ReportColumn::currency("Total Other Charges", "total_other_charges", 100));
    push_column(c, ReportColumn::currency("Total", "total", 100));
    push_column(c, ReportColumn::currency("Currency", "currency", 80));
    assert(c.deep_view() =~= s0 + total_columns());
}

pub fn get_columns(additional_table_columns: &[AdditionalColumn], filters: &ItemWiseSalesFilters, tax_columns: &[String])
    -> (r: Vec<ReportColumn>)
    ensures
        r.deep_view() == spec_columns(additional_table_columns@, filters.group_by, tax_columns.deep_view()),
{
    let mut c: Vec<ReportColumn> = Vec::new();
    push_leading(&mut c, &filters.group_by);
    let ghost s5 = c.deep_view();
    let mut i: usize = 0;
    while i < additional_table_columns.len()
        invariant
            i <= additional_table_columns@.len(),
            c.deep_view() == s5 + Seq::new(i as nat, |j: int| additional_view(additional_table_columns@[j])),
        decreases additional_table_columns@.len() - i,
    {
        push_column(&mut c, from_additional(&additional_table_columns[i]));
        i = i + 1;
        assert(c.deep_view() =~= s5 + Seq::new(i as nat, |j: int| additional_view(additional_table_columns@[j])));
    }
    push_middle(&mut c, &filters.group_by);
    push_tax_columns(&mut c, tax_columns);
    push_totals(&mut c);
    assert(c.deep_view() =~= spec_columns(additional_table_columns@, filters.group_by, tax_columns.deep_view()));
    c
}

/// The fields of an invoice item row that the item filters read.
#[derive(Debug, PartialEq, Eq)]
pub struct SalesItemKeys {
    pub docstatus: i32,
    pub parenttype: String,
    pub parent: String,
    pub company: String,
    pub customer: String,
    pub customer_group: String,
    pub territory: String,
    pub posting_date: String,
    pub warehouse: Option<String>,
    pub brand: Option<String>,
    pub item_code: String,
    pub si_item_group: Option<String>,
    pub i_item_group: Option<String>,
    pub income_account: Option<String>,
    pub deferred_revenue_account: Option<String>,
    pub unrealized_profit_loss_account: Option<String>,
}

/// A filter that is unset lets every row through; a set one asks `holds` of
/// its value.
pub open spec fn unset_or(f: Option<String>, holds: spec_fn(Seq<char>) -> bool) -> bool {
    match f {
        Some(v) => holds(v@),
        None => true,
    }
}

pub open spec fn same_opt(a: Option<String>, b: Seq<char>) -> bool {
    a matches Some(x) && x@ == b
}

/// A submitted sales-invoice item that meets every filter that is set: the
/// company, customer and group equal, the posting date within the dates, a
/// payment of the mode among its invoice's payments, the warehouse, brand and
/// item equal, the item group that of the row or of the item, and the income
/// account its income, deferred revenue or unrealized profit account.
pub open spec fn spec_item_matches(f: ItemWiseSalesFilters, row: SalesItemKeys, payment_modes: Option<Seq<Seq<char>>>) -> bool {
    &&& row.docstatus == 1
    &&& row.parenttype@ == "Sales Invoice"@
    &&& unset_or(f.company, |v: Seq<char>| row.company@ == v)
    &&& unset_or(f.customer, |v: Seq<char>| row.customer@ == v)
    &&& unset_or(f.customer_group, |v: Seq<char>| row.customer_group@ == v)
    &&& unset_or(f.from_date, |v: Seq<char>| !lex_less(row.posting_date@, v))
    &&& unset_or(f.to_date, |v: Seq<char>| !lex_less(v, row.posting_date@))
    &&& unset_or(f.mode_of_payment, |v: Seq<char>| payment_modes matches Some(modes) && modes.contains(v))
    &&& unset_or(f.warehouse, |v: Seq<char>| same_opt(row.warehouse, v))
    &&& unset_or(f.brand, |v: Seq<char>| same_opt(row.brand, v))
    &&& unset_or(f.item_code, |v: Seq<char>| row.item_code@ == v)
    &&& unset_or(f.item_group, |v: Seq<char>| same_opt(row.si_item_group, v) || same_opt(row.i_item_group, v))
    &&& unset_or(f.income_account, |v: Seq<char>| same_opt(row.income_account, v)
        || same_opt(row.deferred_revenue_account, v) || same_opt(row.unrealized_profit_loss_account, v))
}

fn opt_is(a: &Option<String>, b: &str) -> (r: bool)
    ensures
        r == same_opt(*a, b@),
{
    match a {
        Some(x) => str_eq(x.as_str(), b),
        None => false,
    }
}

fn names_hold(items: &Vec<String>, key: &str) -> (r: bool)
    ensures
        r == items.deep_view().contains(key@),
{
    let mut i: usize = 0;
    while i < items.len()
        invariant
            i <= items@.len(),
            forall|j: int| 0 <= j < i ==> #[trigger] items.deep_view()[j] != key@,
        decreases items@.len() - i,
    {
        if str_eq(items[i].as_str(), key) {
            assert(items.deep_view()[i as int] == key@);
            return true;
        }
        i = i + 1;
    }
    false
}

/// Whether the item row is one the register lists; `payment_modes` are the
/// modes of payment of the row's invoice, where it has any.
pub fn item_matches(filters: &ItemWiseSalesFilters, row: &SalesItemKeys, payment_modes: Option<&Vec<String>>) -> (r: bool)
    ensures
        r == spec_item_matches(*filters, *row, match payment_modes { Some(m) => Some(m.deep_view()), None => None }),
{
    if row.docstatus != 1 || !str_eq(row.parenttype.as_str(), "Sales Invoice") {
        return false;
    }
    if let Some(v) = &filters.company { if !str_eq(row.company.as_str(), v.as_str()) { return false; } }
    if let Some(v) = &filters.customer { if !str_eq(row.customer.as_str(), v.as_str()) { return false; } }
    if let Some(v) = &filters.customer_group { if !str_eq(row.customer_group.as_str(), v.as_str()) { return false; } }
    if let Some(v) = &filters.from_date { if str_less(row.posting_date.as_str(), v.as_str()) { return false; } }
    if let Some(v) = &filters.to_date { if str_less(v.as_str(), row.posting_date.as_str()) { return false; } }
    if let Some(v) = &filters.mode_of_payment {
        match payment_modes {
            Some(modes) => { if !names_hold(modes, v.as_str()) { return false; } },
            None => { return false; },
        }
    }
    if let Some(v) = &filters.warehouse { if !opt_is(&row.warehouse, v.as_str()) { return false; } }
    if let Some(v) = &filters.brand { if !opt_is(&row.brand, v.as_str()) { return false; } }
    if let Some(v) = &filters.item_code { if !str_eq(row.item_code.as_str(), v.as_str()) { return false; } }
    if let Some(v) = &filters.item_group {
        if !opt_is(&row.si_item_group, v.as_str()) && !opt_is(&row.i_item_group, v.as_str()) { return false; }
    }
    if let Some(v) = &filters.income_account {
        if !opt_is(&row.income_account, v.as_str()) && !opt_is(&row.deferred_revenue_account, v.as_str())
            && !opt_is(&row.unrealized_profit_loss_account, v.as_str()) { return false; }
    }
    true
}

/// The key of a row for a grouping: by posting date then item group without
/// one, else by the grouping's own field.
pub open spec fn order_key(row: SalesItemKeys, group_by: Option<Seq<char>>) -> OrderKey {
    match group_by {
        None => seq![Some(row.posting_date@), opt_text(row.si_item_group)],
        Some(g) => if g == "Invoice"@ {
            seq![Some(row.parent@)]
        } else if g == "Item"@ {
            seq![Some(row.item_code@)]
        } else if g == "Item Group"@ {
            seq![opt_text(row.si_item_group)]
        } else if g == "Customer"@ || g == "Supplier"@ {
            seq![Some(row.customer@)]
        } else if g == "Customer Group"@ {
            seq![Some(row.customer_group@)]
        } else if g == "Territory"@ {
            seq![Some(row.territory@)]
        } else {
            Seq::empty()
        },
    }
}

/// Items grouped by item or item group come in ascending order; otherwise the
/// latest or greatest come first.
pub open spec fn descending_for(group_by: Option<Seq<char>>) -> bool {
    !(group_by == Some("Item"@) || group_by == Some("Item Group"@))
}

/// The rows the register lists, in its order.
pub open spec fn selected_rows(filters: ItemWiseSalesFilters, rows: Seq<SalesItemKeys>,
    modes: Map<Seq<char>, Seq<Seq<char>>>) -> Seq<int>
{
    let kept = matching_rows(filters, rows, modes, rows.len());
    let g = opt_text(filters.group_by);
    let keys = Seq::new(kept.len(), |j: int| order_key(rows[kept[j]], g));
    if g is None || g == Some("Invoice"@) || g == Some("Item"@) || g == Some("Item Group"@) || g == Some("Customer"@)
        || g == Some("Customer Group"@) || g == Some("Territory"@) || g == Some("Supplier"@) {
        Seq::new(kept.len(), |j: int| kept[stable_sorted(keys, descending_for(g), kept.len())[j]])
    } else {
        kept
    }
}

/// The indices among the first `m` rows that meet the filters, the payment
/// modes of each row's invoice looked up by the invoice.
pub open spec fn matching_rows(filters: ItemWiseSalesFilters, rows: Seq<SalesItemKeys>,
    modes: Map<Seq<char>, Seq<Seq<char>>>, m: nat) -> Seq<int>
    decreases m,
{
    if m == 0 {
        Seq::empty()
    } else {
        let before = matching_rows(filters, rows, modes, (m - 1) as nat);
        let row = rows[m - 1];
        let row_modes = if modes.contains_key(row.parent@) { Some(modes[row.parent@]) } else { None };
        if spec_item_matches(filters, row, row_modes) { before.push(m - 1) } else { before }
    }
}

fn row_key(row: &SalesItemKeys, group_by: &Option<String>) -> (r: Vec<Option<String>>)
    ensures
        key_view(r@) == order_key(*row, opt_text(*group_by)),
{
    let r = match group_by {
        None => vec![Some(row.posting_date.clone()), row.si_item_group.clone()],
        Some(g) => {
            let g = g.as_str();
            if str_eq(g, "Invoice") {
                vec![Some(row.parent.clone())]
            } else if str_eq(g, "Item") {
                vec![Some(row.item_code.clone())]
            } else if str_eq(g, "Item Group") {
                vec![row.si_item_group.clone()]
            } else if str_eq(g, "Customer") || str_eq(g, "Supplier") {
                vec![Some(row.customer.clone())]
            } else if str_eq(g, "Customer Group") {
                vec![Some(row.customer_group.clone())]
            } else if str_eq(g, "Territory") {
                vec![Some(row.territory.clone())]
            } else {
                Vec::new()
            }
        },
    };
    assert(key_view(r@) =~= order_key(*row, opt_text(*group_by)));
    r
}

/// The rows the register lists, as indices into `rows`, in the order the
/// register shows them: rows that meet the filters, ordered by the grouping.
pub fn select_items(filters: &ItemWiseSalesFilters, rows: &[SalesItemKeys], mode_of_payments: &BTreeMap<String, Vec<String>>)
    -> (r: Vec<usize>)
    ensures
        r@.map_values(|v: usize| v as int) == selected_rows(*filters, rows@, mode_of_payments.deep_view()),
{
    let ghost modes = mode_of_payments.deep_view();
    let mut kept: Vec<usize> = Vec::new();
    let mut i: usize = 0;
    while i < rows.len()
        invariant
            i <= rows@.len(),
            modes == mode_of_payments.deep_view(),
            kept@.map_values(|v: usize| v as int) == matching_rows(*filters, rows@, modes, i as nat),
            forall|j: int| 0 <= j < kept@.len() ==> #[trigger] kept@[j] < i,
        decreases rows@.len() - i,
    {
        let row = &rows[i];
        let row_modes = map_get(mode_of_payments, row.parent.as_str());
        let ghost want = if modes.contains_key(row.parent@) { Some(modes[row.parent@]) } else { None::<Seq<Seq<char>>> };
        let ok = item_matches(filters, row, row_modes);
        assert(ok == spec_item_matches(*filters, *row, want)) by {
            match row_modes {
                Some(m) => { assert(m.deep_view() == modes[row.parent@]); },
                None => {},
            }
        }
        if ok {
            let ghost before = kept@.map_values(|v: usize| v as int);
            kept.push(i);
            assert(kept@.map_values(|v: usize| v as int) =~= before.push(i as int));
        }
        i = i + 1;
    }
    let ghost kept_view = kept@.map_values(|v: usize| v as int);
    let sorts = match &filters.group_by {
        None => true,
        Some(g) => {
            let g = g.as_str();
            str_eq(g, "Invoice") || str_eq(g, "Item") || str_eq(g, "Item Group") || str_eq(g, "Customer")
                || str_eq(g, "Customer Group") || str_eq(g, "Territory") || str_eq(g, "Supplier")
        },
    };
    if !sorts {
        return kept;
    }
    let descending = match &filters.group_by {
        None => true,
        Some(g) => !(str_eq(g.as_str(), "Item") || str_eq(g.as_str(), "Item Group")),
    };
    let mut keys: Vec<Vec<Option<String>>> = Vec::new();
    let mut j: usize = 0;
    while j < kept.len()
        invariant
            j <= kept@.len(),
            kept_view == kept@.map_values(|v: usize| v as int),
            forall|q: int| 0 <= q < kept@.len() ==> #[trigger] kept@[q] < rows@.len(),
            keys_view(keys@) == Seq::new(j as nat, |q: int| order_key(rows@[kept_view[q]], opt_text(filters.group_by))),
        decreases kept@.len() - j,
    {
        let k = row_key(&rows[kept[j]], &filters.group_by);
        let ghost before = keys@;
        assert(kept_view[j as int] == kept@[j as int] as int);
        keys.push(k);
        assert(keys@ == before.push(k));
        assert(keys_view(keys@) =~= keys_view(before).push(key_view(k@)));
        assert(keys_view(keys@) =~= Seq::new((j + 1) as nat, |q: int| order_key(rows@[kept_view[q]], opt_text(filters.group_by))));
        j = j + 1;
    }
    let order = stable_order(&keys, descending);
    let ghost ord = stable_sorted(keys_view(keys@), descending, keys@.len());
    let mut out: Vec<usize> = Vec::new();
    let mut q: usize = 0;
    while q < order.len()
        invariant
            q <= order@.len(),
            order@.len() == keys@.len(),
            keys@.len() == kept@.len(),
            ord == order@.map_values(|v: usize| v as int),
            forall|x: int| 0 <= x < order@.len() ==> #[trigger] order@[x] < keys@.len(),
            out@.map_values(|v: usize| v as int) == Seq::new(q as nat, |x: int| kept_view[ord[x]]),
            kept_view == kept@.map_values(|v: usize| v as int),
        decreases order@.len() - q,
    {
        let ghost before = out@.map_values(|v: usize| v as int);
        assert(ord[q as int] == order@[q as int] as int);
        assert(kept_view[ord[q as int]] == kept@[order@[q as int] as int] as int);
        out.push(kept[order[q]]);
        assert(out@.map_values(|v: usize| v as int) =~= before.push(kept_view[ord[q as int]]));
        assert(out@.map_values(|v: usize| v as int) =~= Seq::new((q + 1) as nat, |x: int| kept_view[ord[x]]));
        q = q + 1;
    }
    assert(keys_view(keys@) =~= Seq::new(kept_view.len(), |x: int| order_key(rows@[kept_view[x]], opt_text(filters.group_by))));
    out
}

pub open spec fn opt_or_empty(o: Option<String>) -> Seq<char> {
    match o {
        Some(x) => x@,
        None => Seq::empty(),
    }
}

/// The field a grouping groups by; empty for an unknown grouping.
pub open spec fn spec_group_by_field(group_by: Seq<char>) -> Seq<char> {
    if group_by == "Item"@ { "item_code"@ } else if group_by == "Invoice"@ { "parent"@ }
    else if group_by == "Item Group"@ { "item_group"@ } else if group_by == "Customer Group"@ { "customer_group"@ }
    else if group_by == "Customer"@ { "customer"@ } else if group_by == "Territory"@ { "territory"@ } else { ""@ }
}

pub fn group_by_field(group_by: &str) -> (r: &'static str)
    ensures
        r@ == spec_group_by_field(group_by@),
{
    proof {
        reveal_strlit("item_code"); reveal_strlit("parent"); reveal_strlit("item_group");
        reveal_strlit("customer_group"); reveal_strlit("customer"); reveal_strlit("territory"); reveal_strlit("");
    }
    if str_eq(group_by, "Item") { "item_code" } else if str_eq(group_by, "Invoice") { "parent" }
    else if str_eq(group_by, "Item Group") { "item_group" } else if str_eq(group_by, "Customer Group") { "customer_group" }
    else if str_eq(group_by, "Customer") { "customer" } else if str_eq(group_by, "Territory") { "territory" } else { "" }
}

/// The row's value of a grouping field; empty for an unknown field.
pub open spec fn spec_string_for_group(row: SalesItemKeys, field: Seq<char>) -> Seq<char> {
    if field == "item_code"@ { row.item_code@ } else if field == "item_group"@ { opt_or_empty(row.si_item_group) }
    else if field == "parent"@ { row.parent@ } else if field == "customer"@ { row.customer@ }
    else if field == "customer_group"@ { row.customer_group@ } else if field == "territory"@ { row.territory@ }
    else { Seq::empty() }
}

pub fn string_for_group(row: &SalesItemKeys, field: &str) -> (r: String)
    ensures
        r@ == spec_string_for_group(*row, field@),
{
    if str_eq(field, "item_code") { owned(row.item_code.as_str()) }
    else if str_eq(field, "item_group") {
        match &row.si_item_group { Some(g) => owned(g.as_str()), None => String::new() }
    }
    else if str_eq(field, "parent") { owned(row.parent.as_str()) } else if str_eq(field, "customer") { owned(row.customer.as_str()) }
    else if str_eq(field, "customer_group") { owned(row.customer_group.as_str()) }
    else if str_eq(field, "territory") { owned(row.territory.as_str()) } else { String::new() }
}

/// What a group's subtotal row shows: an item's code and name, or a
/// customer's id and name, joined by `: ` where they differ; else the group
/// value.
pub open spec fn spec_display_value(group_by: Seq<char>, field: Seq<char>, row: SalesItemKeys, item_name: Seq<char>,
    customer_name: Seq<char>) -> Seq<char> {
    if group_by == "Item"@ {
        if row.item_code@ != item_name { row.item_code@ + ": "@ + item_name } else { row.item_code@ }
    } else if group_by == "Customer"@ {
        if row.customer@ != customer_name { row.customer@ + ": "@ + customer_name } else { row.customer@ }
    } else {
        spec_string_for_group(row, field)
    }
}

pub fn get_display_value(group_by: &str, field: &str, row: &SalesItemKeys, item_name: &str, customer_name: &str) -> (r: String)
    ensures
        r@ == spec_display_value(group_by@, field@, *row, item_name@, customer_name@),
{
    proof { reveal_strlit(": "); }
    if str_eq(group_by, "Item") {
        if !str_eq(row.item_code.as_str(), item_name) {
            let mut r = concat(row.item_code.as_str(), ": ");
            r.append(item_name);
            r
        } else {
            owned(row.item_code.as_str())
        }
    } else if str_eq(group_by, "Customer") {
        if !str_eq(row.customer.as_str(), customer_name) {
            let mut r = concat(row.customer.as_str(), ": ");
            r.append(customer_name);
            r
        } else {
            owned(row.customer.as_str())
        }
    } else {
        string_for_group(row, field)
    }
}

/// The field a subtotal row shows its label in.
pub fn subtotal_display_field(group_by: &str) -> (r: &'static str)
    ensures
        r@ == if group_by@ == "Item"@ { "invoice"@ } else { "item_code"@ },
{
    proof { reveal_strlit("invoice"); reveal_strlit("item_code"); }
    if str_eq(group_by, "Item") { "invoice" } else { "item_code" }
}

/// The delivery notes of the sales-order rows the items name, by row.
pub fn get_delivery_notes_against_sales_order(so_details: &[Option<String>],
    delivery_notes_by_so_detail: &BTreeMap<String, Vec<String>>) -> (r: BTreeMap<String, Vec<String>>)
    ensures
        r.deep_view() == lists_for(so_details.deep_view(), delivery_notes_by_so_detail.deep_view()),
{
    lists_for_keys(so_details, delivery_notes_by_so_detail)
}

/// The account an item's income goes to: the deferred-revenue account where
/// revenue is deferred, else the unrealized profit-and-loss account for an
/// internal customer, else the income account.
pub fn get_income_account(row: &SalesItemKeys, enable_deferred_revenue: bool, is_internal_customer: bool) -> (r: Option<String>)
    ensures
        r.deep_view() == if enable_deferred_revenue { row.deferred_revenue_account.deep_view() }
            else if is_internal_customer { row.unrealized_profit_loss_account.deep_view() }
            else { row.income_account.deep_view() },
{
    let chosen = if enable_deferred_revenue { &row.deferred_revenue_account }
        else if is_internal_customer { &row.unrealized_profit_loss_account } else { &row.income_account };
    match chosen {
        Some(a) => Some(owned(a.as_str())),
        None => None,
    }
}

} // verus!
