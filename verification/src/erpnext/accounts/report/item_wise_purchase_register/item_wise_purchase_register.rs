//! Item-wise purchase register: the columns for each grouping, with the
//! extra item columns and a rate and amount column per tax.
use vstd::prelude::*;
use std::collections::BTreeMap;
use crate::erpnext::accounts::report::{lists_for, lists_for_keys, map_get};
use crate::text::{join_strings, joined};
use crate::order::{key_view, keys_view, opt_text, stable_order, stable_sorted, OrderKey};
use crate::text::{concat, lex_less, owned, str_eq, str_less, title_from_scrub, title_of};

verus! {

#[derive(Debug, PartialEq, Eq)]
pub struct ItemWisePurchaseFilters {
    pub company: Option<String>,
    pub supplier: Option<String>,
    pub mode_of_payment: Option<String>,
    pub from_date: Option<String>,
    pub to_date: Option<String>,
    pub item_code: Option<String>,
    pub item_group: Option<String>,
    pub group_by: Option<String>,
}

#[derive(Debug, PartialEq, Eq)]
pub struct ReportColumn {
    pub label: String,
    pub fieldname: String,
    pub fieldtype: String,
    pub options: Option<String>,
    pub width: u16,
}

/// label, field name, field type, options, width
pub type ColumnView = (Seq<char>, Seq<char>, Seq<char>, Option<Seq<char>>, u16);

impl DeepView for ReportColumn {
    type V = ColumnView;

    open spec fn deep_view(&self) -> ColumnView {
        (self.label@, self.fieldname@, self.fieldtype@, self.options.deep_view(), self.width)
    }
}

pub open spec fn link_view(label: Seq<char>, fieldname: Seq<char>, options: Seq<char>, width: u16) -> ColumnView {
    (label, fieldname, "Link"@, Some(options), width)
}

pub open spec fn typed_view(label: Seq<char>, fieldname: Seq<char>, fieldtype: Seq<char>, width: u16) -> ColumnView {
    (label, fieldname, fieldtype, None, width)
}

pub open spec fn currency_view(label: Seq<char>, fieldname: Seq<char>, width: u16) -> ColumnView {
    (label, fieldname, "Currency"@, Some("currency"@), width)
}

impl ReportColumn {
    pub fn data(label: &str, fieldname: &str, width: u16) -> (r: Self)
        ensures
            r.deep_view() == typed_view(label@, fieldname@, "Data"@, width),
    {
        ReportColumn { label: owned(label), fieldname: owned(fieldname), fieldtype: owned("Data"), options: None, width }
    }

    pub fn typed(label: &str, fieldname: &str, fieldtype: &str, width: u16) -> (r: Self)
        ensures
            r.deep_view() == typed_view(label@, fieldname@, fieldtype@, width),
    {
        ReportColumn { label: owned(label), fieldname: owned(fieldname), fieldtype: owned(fieldtype), options: None, width }
    }

    pub fn link(label: &str, fieldname: &str, options: &str, width: u16) -> (r: Self)
        ensures
            r.deep_view() == link_view(label@, fieldname@, options@, width),
    {
        ReportColumn { label: owned(label), fieldname: owned(fieldname), fieldtype: owned("Link"), options: Some(owned(options)), width }
    }

    pub fn currency(label: &str, fieldname: &str, width: u16) -> (r: Self)
        ensures
            r.deep_view() == currency_view(label@, fieldname@, width),
    {
        ReportColumn { label: owned(label), fieldname: owned(fieldname), fieldtype: owned("Currency"), options: Some(owned("currency")), width }
    }
}

/// A further column of the invoice items table.
#[derive(Debug, PartialEq, Eq)]
pub struct AdditionalColumn {
    pub label: String,
    pub fieldname: String,
    pub fieldtype: String,
    pub width: u16,
}

impl AdditionalColumn {
    pub fn data(label: &str, fieldname: &str, width: u16) -> (r: Self)
        ensures
            r.label@ == label@,
            r.fieldname@ == fieldname@,
            r.fieldtype@ == "Data"@,
            r.width == width,
    {
        AdditionalColumn { label: owned(label), fieldname: owned(fieldname), fieldtype: owned("Data"), width }
    }
}

/// The report column of a further column: the same label, field, type and
/// width, without options.
pub open spec fn additional_view(c: AdditionalColumn) -> ColumnView {
    (c.label@, c.fieldname@, c.fieldtype@, None, c.width)
}

fn from_additional(c: &AdditionalColumn) -> (r: ReportColumn)
    ensures
        r.deep_view() == additional_view(*c),
{
    ReportColumn { label: c.label.clone(), fieldname: c.fieldname.clone(), fieldtype: c.fieldtype.clone(), options: None, width: c.width }
}

/// A rate and an amount column per tax, titled from the tax's field name.
pub open spec fn tax_columns(taxes: Seq<Seq<char>>) -> Seq<ColumnView>
    decreases taxes.len(),
{
    if taxes.len() == 0 {
        Seq::empty()
    } else {
        let t = taxes.last();
        tax_columns(taxes.drop_last()) + seq![
            typed_view(title_of(t) + " Rate"@, t + "_rate"@, "Float"@, 100),
            currency_view(title_of(t) + " Amount"@, t + "_amount"@, 100),
        ]
    }
}

pub open spec fn grouped_by(g: Option<String>, name: Seq<char>) -> bool {
    g matches Some(v) && v@ == name
}

pub open spec fn when(cond: bool, items: Seq<ColumnView>) -> Seq<ColumnView> {
    if cond { items } else { Seq::empty() }
}

/// The item, invoice and supplier columns a grouping keeps.
pub open spec fn leading_columns(g: Option<String>) -> Seq<ColumnView> {
    when(!grouped_by(g, "Item"@), seq![link_view("Item Code"@, "item_code"@, "Item"@, 120), typed_view("Item Name"@, "item_name"@, "Data"@, 120)])
    + when(!(grouped_by(g, "Item"@) || grouped_by(g, "Item Group"@)), seq![link_view("Item Group"@, "item_group"@, "Item Group"@, 120)])
    + seq![typed_view("Description"@, "description"@, "Data"@, 150), link_view("Invoice"@, "invoice"@, "Purchase Invoice"@, 150),
        typed_view("Posting Date"@, "posting_date"@, "Date"@, 120)]
    + when(!grouped_by(g, "Supplier"@),
        seq![link_view("Supplier"@, "supplier"@, "Supplier"@, 120), typed_view("Supplier Name"@, "supplier_name"@, "Data"@, 120)])
}

/// The account, payment, document and amount columns.
pub open spec fn middle_columns() -> Seq<ColumnView> {
    seq![
        link_view("Payable Account"@, "credit_to"@, "Account"@, 80), link_view("Mode Of Payment"@, "mode_of_payment"@, "Mode of Payment"@, 120),
        link_view("Project"@, "project"@, "Project"@, 80), link_view("Company"@, "company"@, "Company"@, 80),
        link_view("Purchase Order"@, "purchase_order"@, "Purchase Order"@, 100),
        link_view("Purchase Receipt"@, "purchase_receipt"@, "Purchase Receipt"@, 100),
        link_view("Expense Account"@, "expense_account"@, "Account"@, 100),
        typed_view("Stock Qty"@, "stock_qty"@, "Float"@, 100), link_view("Stock UOM"@, "stock_uom"@, "UOM"@, 100),
        typed_view("Rate"@, "rate"@, "Float"@, 100), currency_view("Amount"@, "amount"@, 100),
    ]
}

/// The totals, then the share of the grand total when grouping.
pub open spec fn total_columns(g: Option<String>) -> Seq<ColumnView> {
    seq![currency_view("Total Tax"@, "total_tax"@, 100), currency_view("Total"@, "total"@, 100),
        typed_view("Currency"@, "currency"@, "Currency"@, 80)]
    + when(g is Some, seq![typed_view("% Of Grand Total"@, "percent_gt"@, "Float"@, 80)])
}

/// The register's columns: those the grouping keeps, the further item
/// columns, the account to amount columns, one rate and amount per tax, and
/// the totals.
pub open spec fn spec_columns(additional: Seq<AdditionalColumn>, g: Option<String>, taxes: Seq<Seq<char>>) -> Seq<ColumnView> {
    leading_columns(g) + Seq::new(additional.len(), |i: int| additional_view(additional[i])) + middle_columns()
        + tax_columns(taxes) + total_columns(g)
}

fn push_column(columns: &mut Vec<ReportColumn>, c: ReportColumn)
    ensures
        final(columns).deep_view() == old(columns).deep_view().push(c.deep_view()),
{
    let ghost before = columns.deep_view();
    columns.push(c);
    assert(columns.deep_view() =~= before.push(c.deep_view()));
}

fn is_group(g: &Option<String>, name: &str) -> (r: bool)
    ensures
        r == grouped_by(*g, name@),
{
    match g {
        Some(v) => str_eq(v.as_str(), name),
        None => false,
    }
}

fn push_tax_columns(columns: &mut Vec<ReportColumn>, taxes: &[String])
    ensures
        final(columns).deep_view() == old(columns).deep_view() + tax_columns(taxes.deep_view()),
{
    let ghost head = columns.deep_view();
    let ghost ts = taxes.deep_view();
    let mut i: usize = 0;
    while i < taxes.len()
        invariant
            i <= taxes@.len(),
            ts == taxes.deep_view(),
            columns.deep_view() == head + tax_columns(ts.subrange(0, i as int)),
        decreases taxes@.len() - i,
    {
        assert(ts.subrange(0, i + 1).drop_last() =~= ts.subrange(0, i as int));
        let tax = taxes[i].as_str();
        let title = title_from_scrub(tax);
        push_column(columns, ReportColumn::typed(concat(title.as_str(), " Rate").as_str(), concat(tax, "_rate").as_str(), "Float", 100));
        push_column(columns, ReportColumn::currency(concat(title.as_str(), " Amount").as_str(), concat(tax, "_amount").as_str(), 100));
        i = i + 1;
        assert(columns.deep_view() =~= head + tax_columns(ts.subrange(0, i as int)));
    }
    assert(ts.subrange(0, i as int) =~= ts);
}

fn push_leading(c: &mut Vec<ReportColumn>, g: &Option<String>)
    ensures
        final(c).deep_view() == old(c).deep_view() + leading_columns(*g),
{
    let ghost s0 = c.deep_view();
    if !is_group(g, "Item") {
        push_column(c, ReportColumn::link("Item Code", "item_code", "Item", 120));
        push_column(c, ReportColumn::data("Item Name", "item_name", 120));
    }
    let ghost s1 = c.deep_view();
    if !(is_group(g, "Item") || is_group(g, "Item Group")) {
        push_column(c, ReportColumn::link("Item Group", "item_group", "Item Group", 120));
    }
    let ghost s2 = c.deep_view();
    push_column(c, ReportColumn::data("Description", "description", 150));
    push_column(c, ReportColumn::link("Invoice", "invoice", "Purchase Invoice", 150));
    push_column(c, ReportColumn::typed("Posting Date", "posting_date", "Date", 120));
    let ghost s3 = c.deep_view();
    if !is_group(g, "Supplier") {
        push_column(c, ReportColumn::link("Supplier", "supplier", "Supplier", 120));
        push_column(c, ReportColumn::data("Supplier Name", "supplier_name", 120));
    }
    assert(s1 =~= s0 + when(!grouped_by(*g, "Item"@), seq![link_view("Item Code"@, "item_code"@, "Item"@, 120), typed_view("Item Name"@, "item_name"@, "Data"@, 120)]));
    assert(s2 =~= s1 + when(!(grouped_by(*g, "Item"@) || grouped_by(*g, "Item Group"@)), seq![link_view("Item Group"@, "item_group"@, "Item Group"@, 120)]));
    assert(c.deep_view() =~= s0 + leading_columns(*g));
}

fn push_middle(c: &mut Vec<ReportColumn>)
    ensures
        final(c).deep_view() == old(c).deep_view() + middle_columns(),
{
    let ghost s0 = c.deep_view();
    push_column(c, ReportColumn::link("Payable Account", "credit_to", "Account", 80));
    push_column(c, ReportColumn::link("Mode Of Payment", "mode_of_payment", "Mode of Payment", 120));
    push_column(c, ReportColumn::link("Project", "project", "Project", 80));
    push_column(c, ReportColumn::link("Company", "company", "Company", 80));
    push_column(c, ReportColumn::link("Purchase Order", "purchase_order", "Purchase Order", 100));
    push_column(c, ReportColumn::link("Purchase Receipt", "purchase_receipt", "Purchase Receipt", 100));
    push_column(c, ReportColumn::link("Expense Account", "expense_account", "Account", 100));
    push_column(c, ReportColumn::typed("Stock Qty", "stock_qty", "Float", 100));
    push_column(c, ReportColumn::link("Stock UOM", "stock_uom", "UOM", 100));
    push_column(c, ReportColumn::typed("Rate", "rate", "Float", 100));
    push_column(c, ReportColumn::currency("Amount", "amount", 100));
    assert(c.deep_view() =~= s0 + middle_columns());
}

fn push_totals(c: &mut Vec<ReportColumn>, g: &Option<String>)
    ensures
        final(c).deep_view() == old(c).deep_view() + total_columns(*g),
{
    let ghost s0 = c.deep_view();
    push_column(c, ReportColumn::currency("Total Tax", "total_tax", 100));
    push_column(c, ReportColumn::currency("Total", "total", 100));
    push_column(c, ReportColumn::typed("Currency", "currency", "Currency", 80));
    if g.is_some() {
        push_column(c, ReportColumn::typed("% Of Grand Total", "percent_gt", "Float", 80));
    }
    assert(c.deep_view() =~= s0 + total_columns(*g));
}

pub fn get_columns(additional_table_columns: &[AdditionalColumn], filters: &ItemWisePurchaseFilters, tax_columns: &[String])
    -> (r: Vec<ReportColumn>)
    ensures
        r.deep_view() == spec_columns(additional_table_columns@, filters.group_by, tax_columns.deep_view()),
{
    let mut c: Vec<ReportColumn> = Vec::new();
    push_leading(&mut c, &filters.group_by);
    let ghost s5 = c.deep_view();
    let mut i: usize = 0;
    while i < additional_table_columns.len()
        invariant
            i <= additional_table_columns@.len(),
            c.deep_view() == s5 + Seq::new(i as nat, |j: int| additional_view(additional_table_columns@[j])),
        decreases additional_table_columns@.len() - i,
    {
        push_column(&mut c, from_additional(&additional_table_columns[i]));
        i = i + 1;
        assert(c.deep_view() =~= s5 + Seq::new(i as nat, |j: int| additional_view(additional_table_columns@[j])));
    }
    push_middle(&mut c);
    push_tax_columns(&mut c, tax_columns);
    push_totals(&mut c, &filters.group_by);
    assert(c.deep_view() =~= spec_columns(additional_table_columns@, filters.group_by, tax_columns.deep_view()));
    c
}

/// The fields of a purchase invoice item row that the filters and the order
/// read.
#[derive(Debug, PartialEq, Eq)]
pub struct PurchaseItemKeys {
    pub docstatus: i32,
    pub parenttype: String,
    pub parent: String,
    pub company: String,
    pub supplier: String,
    pub mode_of_payment: Option<String>,
    pub posting_date: String,
    pub item_code: String,
    pub pi_item_group: Option<String>,
    pub i_item_group: Option<String>,
}

pub open spec fn same_opt(a: Option<String>, b: Seq<char>) -> bool {
    a matches Some(x) && x@ == b
}

/// A submitted purchase-invoice item that meets every filter that is set.
pub open spec fn spec_purchase_item_matches(f: ItemWisePurchaseFilters, row: PurchaseItemKeys) -> bool {
    &&& row.docstatus == 1
    &&& row.parenttype@ == "Purchase Invoice"@
    &&& (f.company matches Some(v) ==> row.company@ == v@)
    &&& (f.supplier matches Some(v) ==> row.supplier@ == v@)
    &&& (f.mode_of_payment matches Some(v) ==> same_opt(row.mode_of_payment, v@))
    &&& (f.from_date matches Some(v) ==> !lex_less(row.posting_date@, v@))
    &&& (f.to_date matches Some(v) ==> !lex_less(v@, row.posting_date@))
    &&& (f.item_code matches Some(v) ==> row.item_code@ == v@)
    &&& (f.item_group matches Some(v) ==> same_opt(row.pi_item_group, v@) || same_opt(row.i_item_group, v@))
}

/// The key of a row for a grouping: by posting date then item group without
/// one, else by the grouping's own field.
pub open spec fn purchase_order_key(row: PurchaseItemKeys, group_by: Option<Seq<char>>) -> OrderKey {
    match group_by {
        None => seq![Some(row.posting_date@), opt_text(row.pi_item_group)],
        Some(g) => if g == "Invoice"@ {
            seq![Some(row.parent@)]
        } else if g == "Item"@ {
            seq![Some(row.item_code@)]
        } else if g == "Item Group"@ {
            seq![opt_text(row.pi_item_group)]
        } else if g == "Supplier"@ {
            seq![Some(row.supplier@)]
        } else {
            Seq::empty()
        },
    }
}

pub open spec fn purchase_matching(f: ItemWisePurchaseFilters, rows: Seq<PurchaseItemKeys>, m: nat) -> Seq<int>
    decreases m,
{
    if m == 0 {
        Seq::empty()
    } else {
        let before = purchase_matching(f, rows, (m - 1) as nat);
        if spec_purchase_item_matches(f, rows[m - 1]) { before.push(m - 1) } else { before }
    }
}

/// The rows the register lists, in its order: without a grouping the latest
/// first, by invoice or supplier the greatest first, by item or item group the
/// smallest first; other groupings keep the rows' order.
pub open spec fn selected_purchase_rows(f: ItemWisePurchaseFilters, rows: Seq<PurchaseItemKeys>) -> Seq<int> {
    let kept = purchase_matching(f, rows, rows.len());
    let g = opt_text(f.group_by);
    let keys = Seq::new(kept.len(), |j: int| purchase_order_key(rows[kept[j]], g));
    if g is None || g == Some("Invoice"@) || g == Some("Item"@) || g == Some("Item Group"@) || g == Some("Supplier"@) {
        let descending = !(g == Some("Item"@) || g == Some("Item Group"@));
        Seq::new(kept.len(), |j: int| kept[stable_sorted(keys, descending, kept.len())[j]])
    } else {
        kept
    }
}

fn opt_equals(a: &Option<String>, b: &str) -> (r: bool)
    ensures
        r == same_opt(*a, b@),
{
    match a {
        Some(x) => str_eq(x.as_str(), b),
        None => false,
    }
}

pub fn purchase_item_matches(filters: &ItemWisePurchaseFilters, row: &PurchaseItemKeys) -> (r: bool)
    ensures
        r == spec_purchase_item_matches(*filters, *row),
{
    row.docstatus == 1
        && str_eq(row.parenttype.as_str(), "Purchase Invoice")
        && match &filters.company { Some(v) => str_eq(row.company.as_str(), v.as_str()), None => true }
        && match &filters.supplier { Some(v) => str_eq(row.supplier.as_str(), v.as_str()), None => true }
        && match &filters.mode_of_payment { Some(v) => opt_equals(&row.mode_of_payment, v.as_str()), None => true }
        && match &filters.from_date { Some(v) => !str_less(row.posting_date.as_str(), v.as_str()), None => true }
        && match &filters.to_date { Some(v) => !str_less(v.as_str(), row.posting_date.as_str()), None => true }
        && match &filters.item_code { Some(v) => str_eq(row.item_code.as_str(), v.as_str()), None => true }
        && match &filters.item_group {
            Some(v) => opt_equals(&row.pi_item_group, v.as_str()) || opt_equals(&row.i_item_group, v.as_str()),
            None => true,
        }
}

fn purchase_row_key(row: &PurchaseItemKeys, group_by: &Option<String>) -> (r: Vec<Option<String>>)
    ensures
        key_view(r@) == purchase_order_key(*row, opt_text(*group_by)),
{
    let r = match group_by {
        None => vec![Some(row.posting_date.clone()), row.pi_item_group.clone()],
        Some(g) => {
            let g = g.as_str();
            if str_eq(g, "Invoice") {
                vec![Some(row.parent.clone())]
            } else if str_eq(g, "Item") {
                vec![Some(row.item_code.clone())]
            } else if str_eq(g, "Item Group") {
                vec![row.pi_item_group.clone()]
            } else if str_eq(g, "Supplier") {
                vec![Some(row.supplier.clone())]
            } else {
                Vec::new()
            }
        },
    };
    assert(key_view(r@) =~= purchase_order_key(*row, opt_text(*group_by)));
    r
}

/// The rows the register lists, as indices into `rows`, in its order.
pub fn get_items(filters: &ItemWisePurchaseFilters, rows: &[PurchaseItemKeys]) -> (r: Vec<usize>)
    ensures
        r@.map_values(|v: usize| v as int) == selected_purchase_rows(*filters, rows@),
{
    let mut kept: Vec<usize> = Vec::new();
    let mut i: usize = 0;
    while i < rows.len()
        invariant
            i <= rows@.len(),
            kept@.map_values(|v: usize| v as int) == purchase_matching(*filters, rows@, i as nat),
            forall|j: int| 0 <= j < kept@.len() ==> #[trigger] kept@[j] < i,
        decreases rows@.len() - i,
    {
        if purchase_item_matches(filters, &rows[i]) {
            let ghost before = kept@.map_values(|v: usize| v as int);
            kept.push(i);
            assert(kept@.map_values(|v: usize| v as int) =~= before.push(i as int));
        }
        i = i + 1;
    }
    let ghost kept_view = kept@.map_values(|v: usize| v as int);
    let sorts = match &filters.group_by {
        None => true,
        Some(g) => {
            let g = g.as_str();
            str_eq(g, "Invoice") || str_eq(g, "Item") || str_eq(g, "Item Group") || str_eq(g, "Supplier")
        },
    };
    if !sorts {
        return kept;
    }
    let descending = match &filters.group_by {
        None => true,
        Some(g) => !(str_eq(g.as_str(), "Item") || str_eq(g.as_str(), "Item Group")),
    };
    let mut keys: Vec<Vec<Option<String>>> = Vec::new();
    let mut j: usize = 0;
    while j < kept.len()
        invariant
            j <= kept@.len(),
            kept_view == kept@.map_values(|v: usize| v as int),
            forall|q: int| 0 <= q < kept@.len() ==> #[trigger] kept@[q] < rows@.len(),
            keys_view(keys@) == Seq::new(j as nat, |q: int| purchase_order_key(rows@[kept_view[q]], opt_text(filters.group_by))),
        decreases kept@.len() - j,
    {
        let k = purchase_row_key(&rows[kept[j]], &filters.group_by);
        let ghost before = keys@;
        assert(kept_view[j as int] == kept@[j as int] as int);
        keys.push(k);
        assert(keys@ == before.push(k));
        assert(keys_view(keys@) =~= keys_view(before).push(key_view(k@)));
        assert(keys_view(keys@) =~= Seq::new((j + 1) as nat, |q: int| purchase_order_key(rows@[kept_view[q]], opt_text(filters.group_by))));
        j = j + 1;
    }
    let order = stable_order(&keys, descending);
    let ghost ord = stable_sorted(keys_view(keys@), descending, keys@.len());
    let mut out: Vec<usize> = Vec::new();
    let mut q: usize = 0;
    while q < order.len()
        invariant
            q <= order@.len(),
            order@.len() == keys@.len(),
            keys@.len() == kept@.len(),
            ord == order@.map_values(|v: usize| v as int),
            forall|x: int| 0 <= x < order@.len() ==> #[trigger] order@[x] < keys@.len(),
            out@.map_values(|v: usize| v as int) == Seq::new(q as nat, |x: int| kept_view[ord[x]]),
            kept_view == kept@.map_values(|v: usize| v as int),
        decreases order@.len() - q,
    {
        let ghost before = out@.map_values(|v: usize| v as int);
        assert(ord[q as int] == order@[q as int] as int);
        assert(kept_view[ord[q as int]] == kept@[order@[q as int] as int] as int);
        out.push(kept[order[q]]);
        assert(out@.map_values(|v: usize| v as int) =~= before.push(kept_view[ord[q as int]]));
        assert(out@.map_values(|v: usize| v as int) =~= Seq::new((q + 1) as nat, |x: int| kept_view[ord[x]]));
        q = q + 1;
    }
    assert(keys_view(keys@) =~= Seq::new(kept_view.len(), |x: int| purchase_order_key(rows@[kept_view[x]], opt_text(filters.group_by))));
    out
}

pub open spec fn opt_or_empty(o: Option<String>) -> Seq<char> {
    match o {
        Some(x) => x@,
        None => Seq::empty(),
    }
}

/// The field a grouping groups by; the item code for an unknown grouping.
pub open spec fn spec_group_by_field(group_by: Seq<char>) -> Seq<char> {
    if group_by == "Invoice"@ { "parent"@ } else if group_by == "Supplier"@ { "supplier"@ }
    else if group_by == "Item Group"@ { "item_group"@ } else { "item_code"@ }
}

pub fn group_by_field(group_by: &str) -> (r: &'static str)
    ensures
        r@ == spec_group_by_field(group_by@),
{
    proof { reveal_strlit("parent"); reveal_strlit("supplier"); reveal_strlit("item_group"); reveal_strlit("item_code"); }
    if str_eq(group_by, "Invoice") { "parent" } else if str_eq(group_by, "Supplier") { "supplier" }
    else if str_eq(group_by, "Item Group") { "item_group" } else { "item_code" }
}

/// The row's value of a grouping field (the item group of the invoice row,
/// else of the item); empty for an unknown field.
pub open spec fn spec_string_for_group(row: PurchaseItemKeys, field: Seq<char>) -> Seq<char> {
    if field == "item_code"@ { row.item_code@ } else if field == "parent"@ { row.parent@ }
    else if field == "supplier"@ { row.supplier@ }
    else if field == "item_group"@ {
        match row.pi_item_group { Some(g) => g@, None => opt_or_empty(row.i_item_group) }
    } else { Seq::empty() }
}

pub fn string_for_group(row: &PurchaseItemKeys, field: &str) -> (r: String)
    ensures
        r@ == spec_string_for_group(*row, field@),
{
    if str_eq(field, "item_code") { owned(row.item_code.as_str()) } else if str_eq(field, "parent") { owned(row.parent.as_str()) }
    else if str_eq(field, "supplier") { owned(row.supplier.as_str()) }
    else if str_eq(field, "item_group") {
        match &row.pi_item_group {
            Some(g) => owned(g.as_str()),
            None => match &row.i_item_group { Some(g) => owned(g.as_str()), None => String::new() },
        }
    } else { String::new() }
}

/// What a group's subtotal row shows: an item's code and name, or a
/// supplier's id and name, joined by `: ` where they differ; else the group
/// value.
pub open spec fn spec_display_value(group_by: Seq<char>, field: Seq<char>, row: PurchaseItemKeys, item_name: Seq<char>,
    supplier_name: Seq<char>) -> Seq<char> {
    if group_by == "Item"@ {
        if row.item_code@ != item_name { row.item_code@ + ": "@ + item_name } else { row.item_code@ }
    } else if group_by == "Supplier"@ {
        if row.supplier@ != supplier_name { row.supplier@ + ": "@ + supplier_name } else { row.supplier@ }
    } else {
        spec_string_for_group(row, field)
    }
}

pub fn get_display_value(group_by: &str, field: &str, row: &PurchaseItemKeys, item_name: &str, supplier_name: &str) -> (r: String)
    ensures
        r@ == spec_display_value(group_by@, field@, *row, item_name@, supplier_name@),
{
    proof { reveal_strlit(": "); }
    if str_eq(group_by, "Item") {
        if !str_eq(row.item_code.as_str(), item_name) {
            let mut r = concat(row.item_code.as_str(), ": ");
            r.append(item_name);
            r
        } else {
            owned(row.item_code.as_str())
        }
    } else if str_eq(group_by, "Supplier") {
        if !str_eq(row.supplier.as_str(), supplier_name) {
            let mut r = concat(row.supplier.as_str(), ": ");
            r.append(supplier_name);
            r
        } else {
            owned(row.supplier.as_str())
        }
    } else {
        string_for_group(row, field)
    }
}

/// The purchase receipts of the purchase-order rows the items name, by row.
pub fn get_purchase_receipts_against_purchase_order(po_details: &[Option<String>],
    purchase_receipts_by_po_detail: &BTreeMap<String, Vec<String>>) -> (r: BTreeMap<String, Vec<String>>)
    ensures
        r.deep_view() == lists_for(po_details.deep_view(), purchase_receipts_by_po_detail.deep_view()),
{
    lists_for_keys(po_details, purchase_receipts_by_po_detail)
}

/// The first of two optional texts that is present.
pub fn first_present(a: &Option<String>, b: &Option<String>) -> (r: Option<String>)
    ensures
        r.deep_view() == match a.deep_view() { Some(x) => Some(x), None => b.deep_view() },
{
    match a {
        Some(x) => Some(owned(x.as_str())),
        None => match b {
            Some(y) => Some(owned(y.as_str())),
            None => None,
        },
    }
}

/// An item row's purchase receipt: its own, else the receipts of its
/// purchase-order row joined by `, `, else empty.
pub open spec fn spec_purchase_receipt(purchase_receipt: Option<Seq<char>>, po_detail: Option<Seq<char>>,
    receipts: Map<Seq<char>, Seq<Seq<char>>>) -> Seq<char> {
    match purchase_receipt {
        Some(p) => p,
        None => match po_detail {
            Some(d) => if receipts.contains_key(d) { joined(receipts[d], ", "@) } else { Seq::empty() },
            None => Seq::empty(),
        },
    }
}

pub fn purchase_receipt_text(purchase_receipt: &Option<String>, po_detail: &Option<String>,
    po_pr_map: &BTreeMap<String, Vec<String>>) -> (r: String)
    ensures
        r@ == spec_purchase_receipt(purchase_receipt.deep_view(), po_detail.deep_view(), po_pr_map.deep_view()),
{
    match purchase_receipt {
        Some(p) => owned(p.as_str()),
        None => match po_detail {
            Some(d) => match map_get(po_pr_map, d.as_str()) {
                Some(list) => join_strings(list, ", "),
                None => String::new(),
            },
            None => String::new(),
        },
    }
}

/// An item row's expense account: the unrealized profit-and-loss account,
/// else its expense account, else the company's stock-received-but-not-
/// billed account, else empty.
pub open spec fn spec_expense_account(unrealized: Option<Seq<char>>, expense: Option<Seq<char>>, company: Seq<char>,
    srbnb: Map<Seq<char>, Seq<char>>) -> Seq<char> {
    match unrealized {
        Some(a) => a,
        None => match expense {
            Some(a) => a,
            None => if srbnb.contains_key(company) { srbnb[company] } else { Seq::empty() },
        },
    }
}

pub fn expense_account_text(unrealized_profit_loss_account: &Option<String>, expense_account: &Option<String>,
    company: &str, stock_received_but_not_billed: &BTreeMap<String, String>) -> (r: String)
    ensures
        r@ == spec_expense_account(unrealized_profit_loss_account.deep_view(), expense_account.deep_view(), company@,
            stock_received_but_not_billed.deep_view()),
{
    match unrealized_profit_loss_account {
        Some(a) => owned(a.as_str()),
        None => match expense_account {
            Some(a) => owned(a.as_str()),
            None => match map_get(stock_received_but_not_billed, company) {
                Some(a) => owned(a.as_str()),
                None => String::new(),
            },
        },
    }
}

} // verus!
