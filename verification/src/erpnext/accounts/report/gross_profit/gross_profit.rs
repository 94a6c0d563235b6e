//! Gross profit: the invoice, return, delivery, bundle, stock ledger and
//! purchase-rate query plans, and the columns of the report for each grouping.
use vstd::prelude::*;
use std::collections::BTreeMap;
use crate::erpnext::accounts::report::{map_get, map_insert};
use crate::erpnext::accounts::report::budget_variance_report::budget_variance_report::{
    lemma_month_names, spec_month_abbr, spec_month_name,
};
use crate::text::{lemma_split_on_len, parse_u32, parse_u32_spec, split_char, split_on};
use crate::text::{concat, join_string_slice, join_strings, joined, lowercase_text, owned, replace_char, replaced, str_eq, str_to_lowercase, trim, trimmed};

verus! {

#[derive(Debug, PartialEq, Eq)]
pub struct GrossProfitFilters {
    pub company: String,
    pub from_date: String,
    pub to_date: String,
    pub group_by: String,
    pub currency: String,
    pub currency_precision: u32,
    pub float_precision: u32,
    pub include_returned_invoices: bool,
    pub item_group: Option<String>,
    pub sales_person: Option<String>,
    pub sales_invoice: Option<String>,
    pub item_code: Option<String>,
    pub cost_center: Vec<String>,
    pub project: Vec<String>,
    pub warehouse: Option<String>,
    pub accounting_dimensions: Vec<AccountingDimensionFilter>,
}

/// How suppliers and customers are named: by their names, or by series.
#[derive(Debug, PartialEq, Eq)]
pub struct MasterNameSettings {
    pub supplier_master_name: String,
    pub customer_master_name: String,
}

impl Default for MasterNameSettings {
    fn default() -> (r: Self)
        ensures
            r.supplier_master_name@ == Seq::<char>::empty(),
            r.customer_master_name@ == Seq::<char>::empty(),
    {
        MasterNameSettings { supplier_master_name: String::new(), customer_master_name: String::new() }
    }
}

/// A filter on an accounting dimension: its field and the values it admits.
#[derive(Debug, PartialEq, Eq)]
pub struct AccountingDimensionFilter {
    pub fieldname: String,
    pub values: Vec<String>,
}

/// A request for the incoming rate of an item moved by a document.
#[derive(Debug, PartialEq, Eq)]
pub struct IncomingRateRequest {
    pub item_code: String,
    pub warehouse: String,
    pub parenttype: String,
    pub parent: String,
    pub company: String,
    pub serial_and_batch_bundle: Option<String>,
}

#[derive(Clone, Copy, Debug)]
pub struct ReportColumn {
    pub label: &'static str,
    pub fieldname: &'static str,
    pub fieldtype: &'static str,
    pub options: &'static str,
    pub width: u16,
    pub hidden: bool,
}

/// label, field name, field type, options, width, hidden
pub type ColumnView = (Seq<char>, Seq<char>, Seq<char>, Seq<char>, u16, bool);

impl DeepView for ReportColumn {
    type V = ColumnView;

    open spec fn deep_view(&self) -> ColumnView {
        (self.label@, self.fieldname@, self.fieldtype@, self.options@, self.width, self.hidden)
    }
}

pub open spec fn column(label: Seq<char>, fieldname: Seq<char>, fieldtype: Seq<char>, options: Seq<char>, width: u16) -> ColumnView {
    (label, fieldname, fieldtype, options, width, false)
}

impl ReportColumn {
    pub fn link(label: &'static str, fieldname: &'static str, options: &'static str, width: u16) -> (r: Self)
        ensures
            r.deep_view() == column(label@, fieldname@, "Link"@, options@, width),
    {
        ReportColumn { label, fieldname, fieldtype: "Link", options, width, hidden: false }
    }

    pub fn hidden_link(label: &'static str, fieldname: &'static str, options: &'static str) -> (r: Self)
        ensures
            r.deep_view() == (label@, fieldname@, "Link"@, options@, 0u16, true),
    {
        ReportColumn { label, fieldname, fieldtype: "Link", options, width: 0, hidden: true }
    }

    pub fn date(label: &'static str, fieldname: &'static str, width: u16) -> (r: Self)
        ensures
            r.deep_view() == column(label@, fieldname@, "Date"@, ""@, width),
    {
        ReportColumn { label, fieldname, fieldtype: "Date", options: "", width, hidden: false }
    }

    pub fn data(label: &'static str, fieldname: &'static str, width: u16) -> (r: Self)
        ensures
            r.deep_view() == column(label@, fieldname@, "Data"@, ""@, width),
    {
        ReportColumn { label, fieldname, fieldtype: "Data", options: "", width, hidden: false }
    }

    pub fn float(label: &'static str, fieldname: &'static str, width: u16) -> (r: Self)
        ensures
            r.deep_view() == column(label@, fieldname@, "Float"@, ""@, width),
    {
        ReportColumn { label, fieldname, fieldtype: "Float", options: "", width, hidden: false }
    }

    pub fn currency(label: &'static str, fieldname: &'static str, options: &'static str, width: u16) -> (r: Self)
        ensures
            r.deep_view() == column(label@, fieldname@, "Currency"@, options@, width),
    {
        ReportColumn { label, fieldname, fieldtype: "Currency", options, width, hidden: false }
    }

    pub fn percent(label: &'static str, fieldname: &'static str, width: u16) -> (r: Self)
        ensures
            r.deep_view() == column(label@, fieldname@, "Percent"@, ""@, width),
    {
        ReportColumn { label, fieldname, fieldtype: "Percent", options: "", width, hidden: false }
    }
}

/// The column shown for a column key of the report.
pub open spec fn column_of(key: Seq<char>) -> Option<ColumnView> {
    if key == "parent"@ { Some(column("Sales Invoice"@, "parent_invoice"@, "Link"@, "Sales Invoice"@, 120)) }
    else if key == "invoice_or_item"@ { Some(column("Sales Invoice"@, "sales_invoice"@, "Link"@, "Sales Invoice"@, 120)) }
    else if key == "posting_date"@ { Some(column("Posting Date"@, "posting_date"@, "Date"@, ""@, 120)) }
    else if key == "posting_time"@ { Some(column("Posting Time"@, "posting_time"@, "Data"@, ""@, 100)) }
    else if key == "item_code"@ { Some(column("Item Code"@, "item_code"@, "Link"@, "Item"@, 100)) }
    else if key == "item_name"@ { Some(column("Item Name"@, "item_name"@, "Data"@, ""@, 100)) }
    else if key == "item_group"@ { Some(column("Item Group"@, "item_group"@, "Link"@, "Item Group"@, 100)) }
    else if key == "brand"@ { Some(column("Brand"@, "brand"@, "Link"@, "Brand"@, 100)) }
    else if key == "description"@ { Some(column("Description"@, "description"@, "Data"@, ""@, 100)) }
    else if key == "warehouse"@ { Some(column("Warehouse"@, "warehouse"@, "Link"@, "Warehouse"@, 100)) }
    else if key == "qty"@ { Some(column("Qty"@, "qty"@, "Float"@, ""@, 80)) }
    else if key == "base_rate"@ { Some(column("Avg. Selling Rate"@, "avg._selling_rate"@, "Currency"@, "currency"@, 100)) }
    else if key == "buying_rate"@ { Some(column("Valuation Rate"@, "valuation_rate"@, "Currency"@, "currency"@, 100)) }
    else if key == "base_amount"@ { Some(column("Selling Amount"@, "selling_amount"@, "Currency"@, "currency"@, 100)) }
    else if key == "buying_amount"@ { Some(column("Buying Amount"@, "buying_amount"@, "Currency"@, "currency"@, 100)) }
    else if key == "gross_profit"@ { Some(column("Gross Profit"@, "gross_profit"@, "Currency"@, "currency"@, 100)) }
    else if key == "gross_profit_percent"@ { Some(column("Gross Profit Percent"@, "gross_profit_%"@, "Percent"@, ""@, 100)) }
    else if key == "project"@ { Some(column("Project"@, "project"@, "Link"@, "Project"@, 140)) }
    else if key == "cost_center"@ { Some(column("Cost Center"@, "cost_center"@, "Link"@, "Cost Center"@, 140)) }
    else if key == "sales_person"@ { Some(column("Sales Person"@, "sales_person"@, "Link"@, "Sales Person"@, 100)) }
    else if key == "allocated_amount"@ { Some(column("Allocated Amount"@, "allocated_amount"@, "Currency"@, "currency"@, 100)) }
    else if key == "customer"@ { Some(column("Customer"@, "customer"@, "Link"@, "Customer"@, 100)) }
    else if key == "customer_group"@ { Some(column("Customer Group"@, "customer_group"@, "Link"@, "Customer Group"@, 100)) }
    else if key == "customer_name"@ { Some(column("Customer Name"@, "customer_name"@, "Data"@, ""@, 150)) }
    else if key == "territory"@ { Some(column("Territory"@, "territory"@, "Link"@, "Territory"@, 100)) }
    else if key == "monthly"@ { Some(column("Monthly"@, "monthly"@, "Data"@, ""@, 100)) }
    else if key == "payment_term"@ { Some(column("Payment Term"@, "payment_term"@, "Link"@, "Payment Term"@, 170)) }
    else { None }
}

fn column_for(key: &str) -> (r: Option<ReportColumn>)
    ensures
        r.deep_view() == column_of(key@),
{
    if str_eq(key, "parent") { Some(ReportColumn::link("Sales Invoice", "parent_invoice", "Sales Invoice", 120)) }
    else if str_eq(key, "invoice_or_item") { Some(ReportColumn::link("Sales Invoice", "sales_invoice", "Sales Invoice", 120)) }
    else if str_eq(key, "posting_date") { Some(ReportColumn::date("Posting Date", "posting_date", 120)) }
    else if str_eq(key, "posting_time") { Some(ReportColumn::data("Posting Time", "posting_time", 100)) }
    else if str_eq(key, "item_code") { Some(ReportColumn::link("Item Code", "item_code", "Item", 100)) }
    else if str_eq(key, "item_name") { Some(ReportColumn::data("Item Name", "item_name", 100)) }
    else if str_eq(key, "item_group") { Some(ReportColumn::link("Item Group", "item_group", "Item Group", 100)) }
    else if str_eq(key, "brand") { Some(ReportColumn::link("Brand", "brand", "Brand", 100)) }
    else if str_eq(key, "description") { Some(ReportColumn::data("Description", "description", 100)) }
    else if str_eq(key, "warehouse") { Some(ReportColumn::link("Warehouse", "warehouse", "Warehouse", 100)) }
    else if str_eq(key, "qty") { Some(ReportColumn::float("Qty", "qty", 80)) }
    else if str_eq(key, "base_rate") { Some(ReportColumn::currency("Avg. Selling Rate", "avg._selling_rate", "currency", 100)) }
    else if str_eq(key, "buying_rate") { Some(ReportColumn::currency("Valuation Rate", "valuation_rate", "currency", 100)) }
    else if str_eq(key, "base_amount") { Some(ReportColumn::currency("Selling Amount", "selling_amount", "currency", 100)) }
    else if str_eq(key, "buying_amount") { Some(ReportColumn::currency("Buying Amount", "buying_amount", "currency", 100)) }
    else if str_eq(key, "gross_profit") { Some(ReportColumn::currency("Gross Profit", "gross_profit", "currency", 100)) }
    else if str_eq(key, "gross_profit_percent") { Some(ReportColumn::percent("Gross Profit Percent", "gross_profit_%", 100)) }
    else if str_eq(key, "project") { Some(ReportColumn::link("Project", "project", "Project", 140)) }
    else if str_eq(key, "cost_center") { Some(ReportColumn::link("Cost Center", "cost_center", "Cost Center", 140)) }
    else if str_eq(key, "sales_person") { Some(ReportColumn::link("Sales Person", "sales_person", "Sales Person", 100)) }
    else if str_eq(key, "allocated_amount") { Some(ReportColumn::currency("Allocated Amount", "allocated_amount", "currency", 100)) }
    else if str_eq(key, "customer") { Some(ReportColumn::link("Customer", "customer", "Customer", 100)) }
    else if str_eq(key, "customer_group") { Some(ReportColumn::link("Customer Group", "customer_group", "Customer Group", 100)) }
    else if str_eq(key, "customer_name") { Some(ReportColumn::data("Customer Name", "customer_name", 150)) }
    else if str_eq(key, "territory") { Some(ReportColumn::link("Territory", "territory", "Territory", 100)) }
    else if str_eq(key, "monthly") { Some(ReportColumn::data("Monthly", "monthly", 100)) }
    else if str_eq(key, "payment_term") { Some(ReportColumn::link("Payment Term", "payment_term", "Payment Term", 170)) }
    else { None }
}


/// The amount columns that close every grouping.
pub open spec fn amount_keys() -> Seq<Seq<char>> {
    seq!["base_amount"@, "buying_amount"@, "gross_profit"@, "gross_profit_percent"@]
}

/// Quantity and rates, then the amounts.
pub open spec fn rate_and_amount_keys() -> Seq<Seq<char>> {
    seq!["qty"@, "base_rate"@, "buying_rate"@] + amount_keys()
}

/// The column keys of each grouping, by the grouping's name.
pub open spec fn group_wise_columns() -> Map<Seq<char>, Seq<Seq<char>>> {
    map![
        "brand"@ => (seq!["brand"@] + rate_and_amount_keys()),
        "cost_center"@ => (seq!["cost_center"@] + amount_keys()),
        "customer"@ => (seq!["customer"@, "customer_group"@, "customer_name"@] + rate_and_amount_keys()),
        "customer_group"@ => (seq!["customer_group"@] + rate_and_amount_keys()),
        "invoice"@ => (seq!["invoice_or_item"@, "customer"@, "customer_group"@, "customer_name"@, "posting_date"@,
            "item_code"@, "item_name"@, "item_group"@, "brand"@, "description"@, "warehouse"@]
            + rate_and_amount_keys() + seq!["project"@]),
        "item_code"@ => (seq!["item_code"@, "item_name"@, "brand"@, "description"@] + rate_and_amount_keys()),
        "item_group"@ => (seq!["item_group"@] + rate_and_amount_keys()),
        "monthly"@ => (seq!["monthly"@] + rate_and_amount_keys()),
        "payment_term"@ => (seq!["payment_term"@] + amount_keys()),
        "project"@ => (seq!["project"@] + amount_keys()),
        "sales_person"@ => (seq!["sales_person"@, "allocated_amount"@] + rate_and_amount_keys()),
        "territory"@ => (seq!["territory"@] + amount_keys()),
        "warehouse"@ => (seq!["warehouse"@] + rate_and_amount_keys()),
    ]
}

fn with_amounts(mut keys: Vec<&'static str>, rates: bool) -> (r: Vec<&'static str>)
    ensures
        r.deep_view() == keys.deep_view() + if rates { rate_and_amount_keys() } else { amount_keys() },
{
    let ghost before = keys.deep_view();
    if rates {
        keys.push("qty");
        keys.push("base_rate");
        keys.push("buying_rate");
    }
    keys.push("base_amount");
    keys.push("buying_amount");
    keys.push("gross_profit");
    keys.push("gross_profit_percent");
    assert(keys.deep_view() =~= before + if rates { rate_and_amount_keys() } else { amount_keys() });
    keys
}

/// The column keys of each grouping, by the grouping's name.
pub fn get_group_wise_columns() -> (r: BTreeMap<String, Vec<&'static str>>)
    ensures
        r.deep_view() == group_wise_columns(),
{
    let invoice_keys = vec![
        "invoice_or_item", "customer", "customer_group", "customer_name", "posting_date", "item_code",
        "item_name", "item_group", "brand", "description", "warehouse",
    ];
    assert(invoice_keys.deep_view() =~= seq!["invoice_or_item"@, "customer"@, "customer_group"@, "customer_name"@,
        "posting_date"@, "item_code"@, "item_name"@, "item_group"@, "brand"@, "description"@, "warehouse"@]);
    let mut invoice = with_amounts(invoice_keys, true);
    let ghost before = invoice.deep_view();
    invoice.push("project");
    assert(invoice.deep_view() =~= before.push("project"@));
    assert(invoice.deep_view() =~= seq!["invoice_or_item"@, "customer"@, "customer_group"@, "customer_name"@,
        "posting_date"@, "item_code"@, "item_name"@, "item_group"@, "brand"@, "description"@, "warehouse"@]
        + rate_and_amount_keys() + seq!["project"@]);
    let mut r: BTreeMap<String, Vec<&'static str>> = BTreeMap::new();
    let ghost mut expected = Map::<Seq<char>, Seq<Seq<char>>>::empty();
    proof {
        vstd::std_specs::btree::lemma_btree_map_deepview_dom(r);
        assert(r.deep_view() =~= expected);
    }
    let keys_brand = vec!["brand"];
    assert(keys_brand.deep_view() =~= seq!["brand"@]);
    let keys_brand = with_amounts(keys_brand, true);
    proof { expected = expected.insert("brand"@, keys_brand.deep_view()); }
    map_insert(&mut r, owned("brand"), keys_brand);
    let keys_cost_center = vec!["cost_center"];
    assert(keys_cost_center.deep_view() =~= seq!["cost_center"@]);
    let keys_cost_center = with_amounts(keys_cost_center, false);
    proof { expected = expected.insert("cost_center"@, keys_cost_center.deep_view()); }
    map_insert(&mut r, owned("cost_center"), keys_cost_center);
    let keys_customer = vec!["customer", "customer_group", "customer_name"];
    assert(keys_customer.deep_view() =~= seq!["customer"@, "customer_group"@, "customer_name"@]);
    let keys_customer = with_amounts(keys_customer, true);
    proof { expected = expected.insert("customer"@, keys_customer.deep_view()); }
    map_insert(&mut r, owned("customer"), keys_customer);
    let keys_customer_group = vec!["customer_group"];
    assert(keys_customer_group.deep_view() =~= seq!["customer_group"@]);
    let keys_customer_group = with_amounts(keys_customer_group, true);
    proof { expected = expected.insert("customer_group"@, keys_customer_group.deep_view()); }
    map_insert(&mut r, owned("customer_group"), keys_customer_group);
    proof { expected = expected.insert("invoice"@, invoice.deep_view()); }
    map_insert(&mut r, owned("invoice"), invoice);
    let keys_item_code = vec!["item_code", "item_name", "brand", "description"];
    assert(keys_item_code.deep_view() =~= seq!["item_code"@, "item_name"@, "brand"@, "description"@]);
    let keys_item_code = with_amounts(keys_item_code, true);
    proof { expected = expected.insert("item_code"@, keys_item_code.deep_view()); }
    map_insert(&mut r, owned("item_code"), keys_item_code);
    let keys_item_group = vec!["item_group"];
    assert(keys_item_group.deep_view() =~= seq!["item_group"@]);
    let keys_item_group = with_amounts(keys_item_group, true);
    proof { expected = expected.insert("item_group"@, keys_item_group.deep_view()); }
    map_insert(&mut r, owned("item_group"), keys_item_group);
    let keys_monthly = vec!["monthly"];
    assert(keys_monthly.deep_view() =~= seq!["monthly"@]);
    let keys_monthly = with_amounts(keys_monthly, true);
    proof { expected = expected.insert("monthly"@, keys_monthly.deep_view()); }
    map_insert(&mut r, owned("monthly"), keys_monthly);
    let keys_payment_term = vec!["payment_term"];
    assert(keys_payment_term.deep_view() =~= seq!["payment_term"@]);
    let keys_payment_term = with_amounts(keys_payment_term, false);
    proof { expected = expected.insert("payment_term"@, keys_payment_term.deep_view()); }
    map_insert(&mut r, owned("payment_term"), keys_payment_term);
    let keys_project = vec!["project"];
    assert(keys_project.deep_view() =~= seq!["project"@]);
    let keys_project = with_amounts(keys_project, false);
    proof { expected = expected.insert("project"@, keys_project.deep_view()); }
    map_insert(&mut r, owned("project"), keys_project);
    let keys_sales_person = vec!["sales_person", "allocated_amount"];
    assert(keys_sales_person.deep_view() =~= seq!["sales_person"@, "allocated_amount"@]);
    let keys_sales_person = with_amounts(keys_sales_person, true);
    proof { expected = expected.insert("sales_person"@, keys_sales_person.deep_view()); }
    map_insert(&mut r, owned("sales_person"), keys_sales_person);
    let keys_territory = vec!["territory"];
    assert(keys_territory.deep_view() =~= seq!["territory"@]);
    let keys_territory = with_amounts(keys_territory, false);
    proof { expected = expected.insert("territory"@, keys_territory.deep_view()); }
    map_insert(&mut r, owned("territory"), keys_territory);
    let keys_warehouse = vec!["warehouse"];
    assert(keys_warehouse.deep_view() =~= seq!["warehouse"@]);
    let keys_warehouse = with_amounts(keys_warehouse, true);
    proof { expected = expected.insert("warehouse"@, keys_warehouse.deep_view()); }
    map_insert(&mut r, owned("warehouse"), keys_warehouse);
    assert(r.deep_view() == expected);
    assert(expected =~= group_wise_columns());
    r
}

/// The field name shown for each column key, ordered by key.
pub open spec fn column_names() -> Seq<(Seq<char>, Seq<char>)> {
    seq![
        ("base_amount"@, "selling_amount"@),
        ("base_rate"@, "avg._selling_rate"@),
        ("brand"@, "brand"@),
        ("buying_amount"@, "buying_amount"@),
        ("buying_rate"@, "valuation_rate"@),
        ("customer"@, "customer"@),
        ("customer_group"@, "customer_group"@),
        ("customer_name"@, "customer_name"@),
        ("description"@, "description"@),
        ("gross_profit"@, "gross_profit"@),
        ("gross_profit_percent"@, "gross_profit_%"@),
        ("invoice_or_item"@, "sales_invoice"@),
        ("item_code"@, "item_code"@),
        ("item_group"@, "item_group"@),
        ("item_name"@, "item_name"@),
        ("posting_date"@, "posting_date"@),
        ("project"@, "project"@),
        ("qty"@, "qty"@),
        ("warehouse"@, "warehouse"@),
    ]
}

pub fn get_column_names() -> (r: Vec<(&'static str, &'static str)>)
    ensures
        r.deep_view() == column_names(),
{
    let r = vec![
        ("base_amount", "selling_amount"),
        ("base_rate", "avg._selling_rate"),
        ("brand", "brand"),
        ("buying_amount", "buying_amount"),
        ("buying_rate", "valuation_rate"),
        ("customer", "customer"),
        ("customer_group", "customer_group"),
        ("customer_name", "customer_name"),
        ("description", "description"),
        ("gross_profit", "gross_profit"),
        ("gross_profit_percent", "gross_profit_%"),
        ("invoice_or_item", "sales_invoice"),
        ("item_code", "item_code"),
        ("item_group", "item_group"),
        ("item_name", "item_name"),
        ("posting_date", "posting_date"),
        ("project", "project"),
        ("qty", "qty"),
        ("warehouse", "warehouse"),
    ];
    assert(r.deep_view() =~= column_names());
    r
}

/// The grouping key a grouping's name gives: trimmed, lowercased, spaces
/// made underscores.
pub open spec fn group_key(group_by: Seq<char>) -> Seq<char> {
    replaced(lowercase_text(trimmed(group_by)), ' ', '_')
}

fn scrub(value: &str) -> (r: String)
    ensures
        r@ == group_key(value@),
{
    let t = trim(value);
    let lowered = str_to_lowercase(t.as_str());
    replace_char(lowered.as_str(), ' ', '_')
}

/// Whether suppliers and customers are both named by their names, in which
/// case the customer's name column repeats the customer column.
pub open spec fn hides_customer_name(settings: MasterNameSettings) -> bool {
    settings.supplier_master_name@ == "Supplier Name"@ && settings.customer_master_name@ == "Customer Name"@
}

fn hides_name(settings: &MasterNameSettings) -> (r: bool)
    ensures
        r == hides_customer_name(*settings),
{
    str_eq(settings.supplier_master_name.as_str(), "Supplier Name")
        && str_eq(settings.customer_master_name.as_str(), "Customer Name")
}

/// The columns for the keys, in order, without the customer's name where it is
/// hidden and without keys that have no column.
pub open spec fn columns_for_keys(keys: Seq<Seq<char>>, hide_name: bool) -> Seq<ColumnView>
    decreases keys.len(),
{
    if keys.len() == 0 {
        Seq::empty()
    } else {
        let before = columns_for_keys(keys.drop_last(), hide_name);
        let key = keys.last();
        if key == "customer_name"@ && hide_name {
            before
        } else {
            match column_of(key) {
                Some(c) => before.push(c),
                None => before,
            }
        }
    }
}

/// The report's columns: those of the grouping, then the hidden currency.
pub open spec fn spec_columns(filters: GrossProfitFilters, settings: MasterNameSettings) -> Seq<ColumnView> {
    let groups = group_wise_columns();
    let key = group_key(filters.group_by@);
    let keys = if groups.contains_key(key) { groups[key] } else { Seq::empty() };
    columns_for_keys(keys, hides_customer_name(settings)).push(("Currency"@, "currency"@, "Link"@, "Currency"@, 0u16, true))
}

pub fn get_columns(filters: &GrossProfitFilters, master_settings: &MasterNameSettings) -> (r: Vec<ReportColumn>)
    ensures
        r.deep_view() == spec_columns(*filters, *master_settings),
{
    let key = scrub(filters.group_by.as_str());
    let groups = get_group_wise_columns();
    let hide_name = hides_name(master_settings);
    let empty: Vec<&'static str> = Vec::new();
    let keys: &Vec<&'static str> = match map_get(&groups, key.as_str()) {
        Some(k) => k,
        None => &empty,
    };
    let ghost ks = keys.deep_view();
    assert(ks == if group_wise_columns().contains_key(group_key(filters.group_by@)) {
        group_wise_columns()[group_key(filters.group_by@)]
    } else {
        Seq::<Seq<char>>::empty()
    });
    let mut columns: Vec<ReportColumn> = Vec::new();
    let mut i: usize = 0;
    while i < keys.len()
        invariant
            i <= keys@.len(),
            ks == keys.deep_view(),
            columns.deep_view() == columns_for_keys(ks.subrange(0, i as int), hide_name),
        decreases keys@.len() - i,
    {
        assert(ks.subrange(0, i + 1).drop_last() =~= ks.subrange(0, i as int));
        let col = keys[i];
        if !(str_eq(col, "customer_name") && hide_name) {
            match column_for(col) {
                Some(c) => {
                    let ghost before = columns.deep_view();
                    columns.push(c);
                    assert(columns.deep_view() =~= before.push(c.deep_view()));
                },
                None => {},
            }
        }
        i = i + 1;
    }
    assert(ks.subrange(0, i as int) =~= ks);
    let ghost before = columns.deep_view();
    columns.push(ReportColumn::hidden_link("Currency", "currency", "Currency"));
    assert(columns.deep_view() =~= before.push(("Currency"@, "currency"@, "Link"@, "Currency"@, 0u16, true)));
    columns
}

/// The columns with the first one showing the invoice, and two columns that
/// repeat the customer removed: those after the fourth when customers go by
/// name, else those after the fifth; a list too short for them is kept.
pub open spec fn grouped_by_invoice(columns: Seq<ColumnView>, hide_name: bool) -> Seq<ColumnView> {
    let n = columns.len();
    let first_set = if n > 0 {
        columns.update(0, (columns[0].0, "sales_invoice"@, columns[0].2, "Item"@, 300u16, columns[0].5))
    } else {
        columns
    };
    if hide_name {
        if n >= 6 { first_set.subrange(0, 4) + first_set.subrange(6, n as int) } else { first_set }
    } else if n >= 7 {
        first_set.subrange(0, 5) + first_set.subrange(7, n as int)
    } else {
        first_set
    }
}

pub fn get_columns_for_grouped_by_invoice(columns: &[ReportColumn], master_settings: &MasterNameSettings) -> (r: Vec<ReportColumn>)
    ensures
        r.deep_view() == grouped_by_invoice(columns.deep_view(), hides_customer_name(*master_settings)),
{
    let hide_name = hides_name(master_settings);
    let n = columns.len();
    let (from, to): (usize, usize) = if hide_name {
        if n >= 6 { (4, 6) } else { (n, n) }
    } else if n >= 7 {
        (5, 7)
    } else {
        (n, n)
    };
    let ghost all = columns.deep_view();
    let ghost first_set = if n > 0 {
        all.update(0, (all[0].0, "sales_invoice"@, all[0].2, "Item"@, 300u16, all[0].5))
    } else {
        all
    };
    let mut r: Vec<ReportColumn> = Vec::new();
    let mut i: usize = 0;
    while i < n
        invariant
            n == columns@.len(),
            n == all.len(),
            all == columns.deep_view(),
            first_set.len() == n,
            first_set == (if n > 0 { all.update(0, (all[0].0, "sales_invoice"@, all[0].2, "Item"@, 300u16, all[0].5)) } else { all }),
            from <= to <= n,
            i <= n,
            r.deep_view() == if i <= from { first_set.subrange(0, i as int) } else if i <= to {
                first_set.subrange(0, from as int) } else { first_set.subrange(0, from as int) + first_set.subrange(to as int, i as int) },
        decreases n - i,
    {
        if i < from || i >= to {
            let mut c = columns[i];
            if i == 0 {
                c.fieldname = "sales_invoice";
                c.options = "Item";
                c.width = 300;
            }
            let ghost before = r.deep_view();
            r.push(c);
            assert(c.deep_view() == first_set[i as int]);
            assert(r.deep_view() =~= before.push(first_set[i as int]));
        }
        i = i + 1;
        assert(first_set.subrange(0, i as int) =~= first_set.subrange(0, i - 1).push(first_set[i - 1]));
        if i > to {
            assert(first_set.subrange(0, from as int) + first_set.subrange(to as int, i as int) =~=
                (first_set.subrange(0, from as int) + first_set.subrange(to as int, i - 1)).push(first_set[i - 1]));
        }
    }
    assert(first_set.subrange(0, n as int) =~= first_set);
    if from == to {
        assert(first_set.subrange(0, from as int) + first_set.subrange(to as int, n as int) =~= first_set);
    }
    r
}

/// The report's columns; grouped by invoice, reshaped for invoice rows.
pub open spec fn spec_report_columns(filters: GrossProfitFilters, settings: MasterNameSettings) -> Seq<ColumnView> {
    if filters.group_by@ == "Invoice"@ {
        grouped_by_invoice(spec_columns(filters, settings), hides_customer_name(settings))
    } else {
        spec_columns(filters, settings)
    }
}

pub fn get_report_columns(filters: &GrossProfitFilters, master_settings: &MasterNameSettings) -> (r: Vec<ReportColumn>)
    ensures
        r.deep_view() == spec_report_columns(*filters, *master_settings),
{
    let columns = get_columns(filters, master_settings);
    if str_eq(filters.group_by.as_str(), "Invoice") {
        get_columns_for_grouped_by_invoice(columns.as_slice(), master_settings)
    } else {
        columns
    }
}

/// A query: its source table, inner and left joins, selected fields,
/// conditions, grouping, ordering and row limit.
#[derive(Debug, Default, PartialEq, Eq)]
pub struct QueryPlan {
    pub source: &'static str,
    pub joins: Vec<&'static str>,
    pub left_joins: Vec<&'static str>,
    pub selects: Vec<&'static str>,
    pub conditions: Vec<String>,
    pub group_by: Vec<&'static str>,
    pub order_by: Vec<&'static str>,
    pub limit: Option<usize>,
}

/// A query plan as plain values.
#[verifier::ext_equal]
pub struct PlanModel {
    pub source: Seq<char>,
    pub joins: Seq<Seq<char>>,
    pub left_joins: Seq<Seq<char>>,
    pub selects: Seq<Seq<char>>,
    pub conditions: Seq<Seq<char>>,
    pub group_by: Seq<Seq<char>>,
    pub order_by: Seq<Seq<char>>,
    pub limit: Option<usize>,
}

impl DeepView for QueryPlan {
    type V = PlanModel;

    open spec fn deep_view(&self) -> PlanModel {
        PlanModel {
            source: self.source@,
            joins: self.joins.deep_view(),
            left_joins: self.left_joins.deep_view(),
            selects: self.selects.deep_view(),
            conditions: self.conditions.deep_view(),
            group_by: self.group_by.deep_view(),
            order_by: self.order_by.deep_view(),
            limit: self.limit,
        }
    }
}

/// A plan on `source` that selects `selects` under `conditions`, with nothing else set.
pub open spec fn simple_plan(source: Seq<char>, selects: Seq<Seq<char>>, conditions: Seq<Seq<char>>) -> PlanModel {
    PlanModel {
        source,
        joins: Seq::empty(),
        left_joins: Seq::empty(),
        selects,
        conditions,
        group_by: Seq::empty(),
        order_by: Seq::empty(),
        limit: None,
    }
}

fn plan_on(source: &'static str, selects: Vec<&'static str>, conditions: Vec<String>) -> (r: QueryPlan)
    ensures
        r.deep_view() == simple_plan(source@, selects.deep_view(), conditions.deep_view()),
{
    let r = QueryPlan {
        source,
        joins: Vec::new(),
        left_joins: Vec::new(),
        selects,
        conditions,
        group_by: Vec::new(),
        order_by: Vec::new(),
        limit: None,
    };
    assert(r.deep_view().joins =~= Seq::<Seq<char>>::empty());
    assert(r.deep_view().left_joins =~= Seq::<Seq<char>>::empty());
    assert(r.deep_view().group_by =~= Seq::<Seq<char>>::empty());
    assert(r.deep_view().order_by =~= Seq::<Seq<char>>::empty());
    r
}

/// The plans for the invoice rows and for the returns against other invoices.
#[derive(Debug, PartialEq, Eq)]
pub struct InvoiceItemLoadQueryPlans {
    pub normal: QueryPlan,
    pub returns: QueryPlan,
}

pub open spec fn when(cond: bool, items: Seq<Seq<char>>) -> Seq<Seq<char>> {
    if cond { items } else { Seq::empty() }
}

/// `prefix` followed by the value, when there is one.
pub open spec fn optional_condition(value: Option<String>, prefix: Seq<char>) -> Seq<Seq<char>> {
    match value {
        Some(v) => seq![prefix + v@],
        None => Seq::empty(),
    }
}

/// `prefix` followed by the values in square brackets, separated by commas.
pub open spec fn in_list(prefix: Seq<char>, values: Seq<Seq<char>>) -> Seq<char> {
    prefix + "["@ + joined(values, ", "@) + "]"@
}

pub open spec fn dimension_conditions(dimensions: Seq<AccountingDimensionFilter>) -> Seq<Seq<char>> {
    Seq::new(dimensions.len(), |i: int|
        in_list("sales_invoice_item."@ + dimensions[i].fieldname@ + " in "@, dimensions[i].values.deep_view()))
}

/// The conditions every invoice query takes from the filters.
pub open spec fn common_conditions(f: GrossProfitFilters) -> Seq<Seq<char>> {
    when(f.company@.len() > 0, seq!["sales_invoice.company = "@ + f.company@])
    + when(f.from_date@.len() > 0, seq!["sales_invoice.posting_date >= "@ + f.from_date@])
    + when(f.to_date@.len() > 0, seq!["sales_invoice.posting_date <= "@ + f.to_date@])
    + optional_condition(f.item_group, "item group condition for "@)
    + optional_condition(f.sales_person, "exists sales_team where parent = sales_invoice.name and sales_person = "@)
    + optional_condition(f.sales_invoice, "sales_invoice.name = "@)
    + optional_condition(f.item_code, "sales_invoice_item.item_code = "@)
    + when(f.cost_center@.len() > 0, seq![in_list("sales_invoice_item.cost_center in "@, f.cost_center.deep_view())])
    + when(f.project@.len() > 0, seq![in_list("sales_invoice_item.project in "@, f.project.deep_view())])
    + dimension_conditions(f.accounting_dimensions@)
    + optional_condition(f.warehouse, "sales_invoice_item.warehouse in warehouse descendants of "@)
}

fn list_condition(prefix: &str, values: &[String]) -> (r: String)
    ensures
        r@ == in_list(prefix@, values.deep_view()),
{
    let head = concat(prefix, "[");
    let body = concat(head.as_str(), join_string_slice(values, ", ").as_str());
    concat(body.as_str(), "]")
}

fn push_condition(conditions: &mut Vec<String>, condition: String)
    ensures
        final(conditions).deep_view() == old(conditions).deep_view().push(condition@),
{
    let ghost before = conditions.deep_view();
    conditions.push(condition);
    assert(conditions.deep_view() =~= before.push(condition@));
}

fn push_optional(conditions: &mut Vec<String>, value: &Option<String>, prefix: &str)
    ensures
        final(conditions).deep_view() == old(conditions).deep_view() + optional_condition(*value, prefix@),
{
    let ghost before = conditions.deep_view();
    if let Some(v) = value {
        push_condition(conditions, concat(prefix, v.as_str()));
    }
    assert(conditions.deep_view() =~= before + optional_condition(*value, prefix@));
}

fn common_filter_conditions(f: &GrossProfitFilters) -> (r: Vec<String>)
    ensures
        r.deep_view() == common_conditions(*f),
{
    let mut c: Vec<String> = Vec::new();
    let ghost s0 = c.deep_view();
    if !f.company.as_str().is_empty() {
        push_condition(&mut c, concat("sales_invoice.company = ", f.company.as_str()));
    }
    let ghost s1 = c.deep_view();
    assert(s1 =~= s0 + when(f.company@.len() > 0, seq!["sales_invoice.company = "@ + f.company@]));
    if !f.from_date.as_str().is_empty() {
        push_condition(&mut c, concat("sales_invoice.posting_date >= ", f.from_date.as_str()));
    }
    let ghost s2 = c.deep_view();
    assert(s2 =~= s1 + when(f.from_date@.len() > 0, seq!["sales_invoice.posting_date >= "@ + f.from_date@]));
    if !f.to_date.as_str().is_empty() {
        push_condition(&mut c, concat("sales_invoice.posting_date <= ", f.to_date.as_str()));
    }
    let ghost s3 = c.deep_view();
    assert(s3 =~= s2 + when(f.to_date@.len() > 0, seq!["sales_invoice.posting_date <= "@ + f.to_date@]));
    push_optional(&mut c, &f.item_group, "item group condition for ");
    push_optional(&mut c, &f.sales_person, "exists sales_team where parent = sales_invoice.name and sales_person = ");
    push_optional(&mut c, &f.sales_invoice, "sales_invoice.name = ");
    push_optional(&mut c, &f.item_code, "sales_invoice_item.item_code = ");
    let ghost s4 = c.deep_view();
    if f.cost_center.len() > 0 {
        push_condition(&mut c, list_condition("sales_invoice_item.cost_center in ", f.cost_center.as_slice()));
    }
    let ghost s5 = c.deep_view();
    assert(s5 =~= s4 + when(f.cost_center@.len() > 0, seq![in_list("sales_invoice_item.cost_center in "@, f.cost_center.deep_view())]));
    if f.project.len() > 0 {
        push_condition(&mut c, list_condition("sales_invoice_item.project in ", f.project.as_slice()));
    }
    let ghost s6 = c.deep_view();
    assert(s6 =~= s5 + when(f.project@.len() > 0, seq![in_list("sales_invoice_item.project in "@, f.project.deep_view())]));
    let dims = &f.accounting_dimensions;
    let mut i: usize = 0;
    while i < dims.len()
        invariant
            i <= dims@.len(),
            *dims == f.accounting_dimensions,
            c.deep_view() == s6 + dimension_conditions(dims@).subrange(0, i as int),
        decreases dims@.len() - i,
    {
        let d = &dims[i];
        let prefix = concat(concat("sales_invoice_item.", d.fieldname.as_str()).as_str(), " in ");
        push_condition(&mut c, list_condition(prefix.as_str(), d.values.as_slice()));
        i = i + 1;
        assert(c.deep_view() =~= s6 + dimension_conditions(dims@).subrange(0, i as int));
    }
    assert(dimension_conditions(dims@).subrange(0, i as int) =~= dimension_conditions(dims@));
    push_optional(&mut c, &f.warehouse, "sales_invoice_item.warehouse in warehouse descendants of ");
    assert(c.deep_view() =~= common_conditions(*f));
    c
}

pub open spec fn invoice_selects() -> Seq<Seq<char>> {
    seq![
        "sales_invoice_item.parenttype"@, "sales_invoice_item.parent"@, "sales_invoice.posting_date"@,
        "sales_invoice.posting_time"@, "sales_invoice.project"@, "sales_invoice.update_stock"@,
        "sales_invoice.customer"@, "sales_invoice.customer_group"@, "sales_invoice.customer_name"@,
        "sales_invoice.territory"@, "sales_invoice_item.item_code"@,
        "sales_invoice.base_net_total as invoice_base_net_total"@, "sales_invoice_item.item_name"@,
        "sales_invoice_item.description"@, "sales_invoice_item.warehouse"@, "sales_invoice_item.item_group"@,
        "sales_invoice_item.brand"@, "sales_invoice_item.so_detail"@, "sales_invoice_item.sales_order"@,
        "sales_invoice_item.dn_detail"@, "sales_invoice_item.delivery_note"@, "sales_invoice_item.stock_qty as qty"@,
        "sales_invoice_item.base_net_rate"@, "sales_invoice_item.base_net_amount"@,
        "sales_invoice_item.name as item_row"@, "sales_invoice.is_return"@, "sales_invoice_item.cost_center"@,
        "sales_invoice_item.serial_and_batch_bundle"@, "sales_invoice_item.delivered_by_supplier"@,
    ]
}

fn invoice_query_selects() -> (r: Vec<&'static str>)
    ensures
        r.deep_view() == invoice_selects(),
{
    let r = vec![
        "sales_invoice_item.parenttype", "sales_invoice_item.parent", "sales_invoice.posting_date",
        "sales_invoice.posting_time", "sales_invoice.project", "sales_invoice.update_stock",
        "sales_invoice.customer", "sales_invoice.customer_group", "sales_invoice.customer_name",
        "sales_invoice.territory", "sales_invoice_item.item_code",
        "sales_invoice.base_net_total as invoice_base_net_total", "sales_invoice_item.item_name",
        "sales_invoice_item.description", "sales_invoice_item.warehouse", "sales_invoice_item.item_group",
        "sales_invoice_item.brand", "sales_invoice_item.so_detail", "sales_invoice_item.sales_order",
        "sales_invoice_item.dn_detail", "sales_invoice_item.delivery_note", "sales_invoice_item.stock_qty as qty",
        "sales_invoice_item.base_net_rate", "sales_invoice_item.base_net_amount",
        "sales_invoice_item.name as item_row", "sales_invoice.is_return", "sales_invoice_item.cost_center",
        "sales_invoice_item.serial_and_batch_bundle", "sales_invoice_item.delivered_by_supplier",
    ];
    assert(r.deep_view() =~= invoice_selects());
    r
}

/// The extra selects and left join of a grouping by sales person or by
/// payment term.
pub open spec fn group_extras(group_by: Seq<char>) -> (Seq<Seq<char>>, Seq<Seq<char>>) {
    if group_by == "Sales Person"@ {
        (seq!["sales_team.sales_person"@,
            "sales_team.allocated_percentage * sales_invoice_item.base_net_amount / 100 as allocated_amount"@,
            "sales_team.incentives"@], seq!["Sales Team"@])
    } else if group_by == "Payment Term"@ {
        (seq!["case when sales_invoice.is_return = 1 then Sales Return else coalesce(payment_schedule.payment_term, No Terms) end as payment_term"@,
            "payment_schedule.invoice_portion"@, "payment_schedule.payment_amount"@], seq!["Payment Schedule"@])
    } else {
        (Seq::empty(), Seq::empty())
    }
}

/// The invoice query before the return conditions.
pub open spec fn base_invoice_plan(f: GrossProfitFilters) -> PlanModel {
    PlanModel {
        source: "Sales Invoice"@,
        joins: seq!["Sales Invoice Item"@, "Item"@],
        left_joins: group_extras(f.group_by@).1,
        selects: invoice_selects() + group_extras(f.group_by@).0,
        conditions: seq!["sales_invoice.docstatus = 1"@, "sales_invoice.is_opening != Yes"@] + common_conditions(f),
        group_by: Seq::empty(),
        order_by: seq!["sales_invoice.posting_date desc"@, "sales_invoice.posting_time desc"@],
        limit: None,
    }
}

fn base_invoice_query_plan(filters: &GrossProfitFilters) -> (r: QueryPlan)
    ensures
        r.deep_view() == base_invoice_plan(*filters),
{
    let mut conditions = vec![owned("sales_invoice.docstatus = 1"), owned("sales_invoice.is_opening != Yes")];
    let ghost head = conditions.deep_view();
    let mut common = common_filter_conditions(filters);
    conditions.append(&mut common);
    assert(conditions.deep_view() =~= head + common_conditions(*filters));
    let mut selects = invoice_query_selects();
    let mut left_joins: Vec<&'static str> = Vec::new();
    if str_eq(filters.group_by.as_str(), "Sales Person") {
        selects.push("sales_team.sales_person");
        selects.push("sales_team.allocated_percentage * sales_invoice_item.base_net_amount / 100 as allocated_amount");
        selects.push("sales_team.incentives");
        left_joins.push("Sales Team");
    } else if str_eq(filters.group_by.as_str(), "Payment Term") {
        selects.push("case when sales_invoice.is_return = 1 then Sales Return else coalesce(payment_schedule.payment_term, No Terms) end as payment_term");
        selects.push("payment_schedule.invoice_portion");
        selects.push("payment_schedule.payment_amount");
        left_joins.push("Payment Schedule");
    }
    let r = QueryPlan {
        source: "Sales Invoice",
        joins: vec!["Sales Invoice Item", "Item"],
        left_joins,
        selects,
        conditions,
        group_by: Vec::new(),
        order_by: vec!["sales_invoice.posting_date desc", "sales_invoice.posting_time desc"],
        limit: None,
    };
    assert(r.deep_view() =~= base_invoice_plan(*filters));
    r
}

pub open spec fn with_conditions(plan: PlanModel, extra: Seq<Seq<char>>) -> PlanModel {
    PlanModel { conditions: plan.conditions + extra, ..plan }
}

pub fn prepare_invoice_query_plan(filters: &GrossProfitFilters) -> (r: QueryPlan)
    ensures
        r.deep_view() == with_conditions(base_invoice_plan(*filters), seq![
            if filters.include_returned_invoices {
                "(sales_invoice.is_return = 0 or (sales_invoice.is_return = 1 and sales_invoice.return_against is null))"@
            } else {
                "sales_invoice.is_return = 0"@
            }]),
{
    let mut plan = base_invoice_query_plan(filters);
    if filters.include_returned_invoices {
        push_condition(&mut plan.conditions,
            owned("(sales_invoice.is_return = 0 or (sales_invoice.is_return = 1 and sales_invoice.return_against is null))"));
    } else {
        push_condition(&mut plan.conditions, owned("sales_invoice.is_return = 0"));
    }
    plan
}

pub fn prepare_return_invoice_query_plan(filters: &GrossProfitFilters, vouchers_to_ignore: &[String]) -> (r: QueryPlan)
    ensures
        r.deep_view() == with_conditions(base_invoice_plan(*filters),
            seq!["(sales_invoice.is_return = 1 and sales_invoice.return_against is not null)"@]
            + when(vouchers_to_ignore@.len() > 0,
                seq![in_list("sales_invoice.return_against not in "@, vouchers_to_ignore.deep_view())])),
{
    let mut plan = base_invoice_query_plan(filters);
    let ghost base = plan.conditions.deep_view();
    push_condition(&mut plan.conditions, owned("(sales_invoice.is_return = 1 and sales_invoice.return_against is not null)"));
    if vouchers_to_ignore.len() > 0 {
        push_condition(&mut plan.conditions, list_condition("sales_invoice.return_against not in ", vouchers_to_ignore));
    }
    assert(plan.conditions.deep_view() =~= base + seq!["(sales_invoice.is_return = 1 and sales_invoice.return_against is not null)"@]
        + when(vouchers_to_ignore@.len() > 0, seq![in_list("sales_invoice.return_against not in "@, vouchers_to_ignore.deep_view())]));
    plan
}

pub open spec fn returned_items_plan(filters: GrossProfitFilters) -> PlanModel {
    PlanModel {
            joins: seq!["Sales Invoice Item"@],
            ..simple_plan("Sales Invoice"@,
                seq!["sales_invoice.name"@, "sales_invoice_item.item_code"@, "sales_invoice_item.stock_qty as qty"@,
                    "sales_invoice_item.base_net_amount as base_amount"@, "sales_invoice.return_against"@],
                seq!["sales_invoice.name = sales_invoice_item.parent"@, "sales_invoice.docstatus = 1"@,
                    "sales_invoice.is_return = 1"@,
                    "sales_invoice.posting_date between "@ + filters.from_date@ + " and "@ + filters.to_date@])
        }
}

pub fn get_returned_invoice_items_query_plan(filters: &GrossProfitFilters) -> (r: QueryPlan)
    ensures
        r.deep_view() == returned_items_plan(*filters),

{
    let between = concat(concat("sales_invoice.posting_date between ", filters.from_date.as_str()).as_str(), " and ");
    let mut plan = plan_on(
        "Sales Invoice",
        vec![
            "sales_invoice.name", "sales_invoice_item.item_code", "sales_invoice_item.stock_qty as qty",
            "sales_invoice_item.base_net_amount as base_amount", "sales_invoice.return_against",
        ],
        vec![
            owned("sales_invoice.name = sales_invoice_item.parent"), owned("sales_invoice.docstatus = 1"),
            owned("sales_invoice.is_return = 1"), concat(between.as_str(), filters.to_date.as_str()),
        ],
    );
    plan.joins.push("Sales Invoice Item");
    assert(plan.joins.deep_view() =~= seq!["Sales Invoice Item"@]);
    plan
}

pub open spec fn delivery_notes_plan(invoices: Seq<Seq<char>>) -> PlanModel {
    PlanModel {
            group_by: seq!["delivery_note_item.si_detail"@],
            ..simple_plan("Delivery Note Item"@,
                seq!["delivery_note_item.si_detail"@,
                    "sum(delivery_note_item.stock_qty * delivery_note_item.incoming_rate) as total_incoming_value"@,
                    "sum(delivery_note_item.stock_qty) as total_qty"@],
                seq!["delivery_note_item.docstatus = 1"@,
                    in_list("delivery_note_item.against_sales_invoice in "@, invoices),
                    "delivery_note_item.si_detail is not null"@, "delivery_note_item.si_detail != "@])
        }
}

pub fn get_delivery_notes_query_plan(invoices: &[String]) -> (r: QueryPlan)
    ensures
        r.deep_view() == delivery_notes_plan(invoices.deep_view()),

{
    let mut plan = plan_on(
        "Delivery Note Item",
        vec![
            "delivery_note_item.si_detail",
            "sum(delivery_note_item.stock_qty * delivery_note_item.incoming_rate) as total_incoming_value",
            "sum(delivery_note_item.stock_qty) as total_qty",
        ],
        vec![
            owned("delivery_note_item.docstatus = 1"),
            list_condition("delivery_note_item.against_sales_invoice in ", invoices),
            owned("delivery_note_item.si_detail is not null"), owned("delivery_note_item.si_detail != "),
        ],
    );
    plan.group_by.push("delivery_note_item.si_detail");
    assert(plan.group_by.deep_view() =~= seq!["delivery_note_item.si_detail"@]);
    plan
}

pub open spec fn product_bundle_plan() -> PlanModel {
    simple_plan("Packed Item"@,
            seq!["packed_item.parenttype"@, "packed_item.parent"@, "packed_item.parent_item"@, "packed_item.item_code"@,
                "packed_item.warehouse"@, "-1 * packed_item.qty as total_qty"@, "packed_item.rate"@,
                "packed_item.rate * packed_item.qty as base_amount"@, "packed_item.parent_detail_docname"@,
                "packed_item.serial_and_batch_bundle"@],
            seq!["packed_item.docstatus = 1"@])
}

pub fn get_product_bundle_query_plan() -> (r: QueryPlan)
    ensures
        r.deep_view() == product_bundle_plan(),

{
    let selects = vec![
        "packed_item.parenttype", "packed_item.parent", "packed_item.parent_item", "packed_item.item_code",
        "packed_item.warehouse", "-1 * packed_item.qty as total_qty", "packed_item.rate",
        "packed_item.rate * packed_item.qty as base_amount", "packed_item.parent_detail_docname",
        "packed_item.serial_and_batch_bundle",
    ];
    let conditions = vec![owned("packed_item.docstatus = 1")];
    let r = plan_on("Packed Item", selects, conditions);
    assert(r.deep_view() =~= simple_plan("Packed Item"@,
        seq!["packed_item.parenttype"@, "packed_item.parent"@, "packed_item.parent_item"@, "packed_item.item_code"@,
            "packed_item.warehouse"@, "-1 * packed_item.qty as total_qty"@, "packed_item.rate"@,
            "packed_item.rate * packed_item.qty as base_amount"@, "packed_item.parent_detail_docname"@,
            "packed_item.serial_and_batch_bundle"@],
        seq!["packed_item.docstatus = 1"@]));
    r
}

pub fn load_non_stock_items_query_plan() -> (r: QueryPlan)
    ensures
        r.deep_view() == simple_plan("Item"@, seq!["item.name"@], seq!["item.is_stock_item = 0"@]),
{
    let selects = vec!["item.name"];
    let conditions = vec![owned("item.is_stock_item = 0")];
    let r = plan_on("Item", selects, conditions);
    assert(r.deep_view() =~= simple_plan("Item"@, seq!["item.name"@], seq!["item.is_stock_item = 0"@]));
    r
}

pub open spec fn stock_ledger_plan(item_code: Seq<char>, warehouse: Seq<char>, company: Seq<char>) -> PlanModel {
    PlanModel {
            order_by: seq!["stock_ledger_entry.item_code"@, "stock_ledger_entry.warehouse desc"@,
                "stock_ledger_entry.posting_datetime desc"@, "stock_ledger_entry.creation desc"@],
            ..simple_plan("Stock Ledger Entry"@,
                seq!["stock_ledger_entry.item_code"@, "stock_ledger_entry.voucher_type"@, "stock_ledger_entry.voucher_no"@,
                    "stock_ledger_entry.voucher_detail_no"@, "stock_ledger_entry.stock_value"@,
                    "stock_ledger_entry.warehouse"@, "stock_ledger_entry.actual_qty as qty"@],
                seq!["stock_ledger_entry.company = "@ + company, "stock_ledger_entry.item_code = "@ + item_code,
                    "stock_ledger_entry.warehouse = "@ + warehouse, "stock_ledger_entry.is_cancelled = 0"@])
        }
}

pub fn get_stock_ledger_query_plan(item_code: &str, warehouse: &str, company: &str) -> (r: QueryPlan)
    ensures
        r.deep_view() == stock_ledger_plan(item_code@, warehouse@, company@),

{
    let mut plan = plan_on(
        "Stock Ledger Entry",
        vec![
            "stock_ledger_entry.item_code", "stock_ledger_entry.voucher_type", "stock_ledger_entry.voucher_no",
            "stock_ledger_entry.voucher_detail_no", "stock_ledger_entry.stock_value", "stock_ledger_entry.warehouse",
            "stock_ledger_entry.actual_qty as qty",
        ],
        vec![
            concat("stock_ledger_entry.company = ", company), concat("stock_ledger_entry.item_code = ", item_code),
            concat("stock_ledger_entry.warehouse = ", warehouse), owned("stock_ledger_entry.is_cancelled = 0"),
        ],
    );
    plan.order_by = vec![
        "stock_ledger_entry.item_code", "stock_ledger_entry.warehouse desc",
        "stock_ledger_entry.posting_datetime desc", "stock_ledger_entry.creation desc",
    ];
    assert(plan.order_by.deep_view() =~= seq!["stock_ledger_entry.item_code"@, "stock_ledger_entry.warehouse desc"@,
        "stock_ledger_entry.posting_datetime desc"@, "stock_ledger_entry.creation desc"@]);
    plan
}

/// `prefix` followed by the value, when there is one.
pub open spec fn optional_str_condition(value: Option<&str>, prefix: Seq<char>) -> Seq<Seq<char>> {
    match value {
        Some(v) => seq![prefix + v@],
        None => Seq::empty(),
    }
}

pub open spec fn last_purchase_rate_plan(item_code: Seq<char>, project: Option<&str>, cost_center: Option<&str>, to_date: Seq<char>) -> PlanModel {
    PlanModel {
            joins: seq!["Purchase Invoice"@],
            order_by: seq!["purchase_invoice.posting_date desc"@],
            limit: Some(1),
            ..simple_plan("Purchase Invoice Item"@,
                seq!["purchase_invoice_item.base_rate / purchase_invoice_item.conversion_factor"@],
                seq!["purchase_invoice.docstatus = 1"@, "purchase_invoice.posting_date <= "@ + to_date,
                    "purchase_invoice_item.item_code = "@ + item_code, "purchase_invoice.is_return = 0"@,
                    "purchase_invoice_item.parenttype = Purchase Invoice"@]
                    + optional_str_condition(project, "purchase_invoice_item.project = "@)
                    + optional_str_condition(cost_center, "purchase_invoice_item.cost_center = "@))
        }
}

pub fn get_last_purchase_rate_query_plan(item_code: &str, project: Option<&str>, cost_center: Option<&str>, to_date: &str) -> (r: QueryPlan)
    ensures
        r.deep_view() == last_purchase_rate_plan(item_code@, project, cost_center, to_date@),

{
    let mut plan = plan_on(
        "Purchase Invoice Item",
        vec!["purchase_invoice_item.base_rate / purchase_invoice_item.conversion_factor"],
        vec![
            owned("purchase_invoice.docstatus = 1"), concat("purchase_invoice.posting_date <= ", to_date),
            concat("purchase_invoice_item.item_code = ", item_code), owned("purchase_invoice.is_return = 0"),
            owned("purchase_invoice_item.parenttype = Purchase Invoice"),
        ],
    );
    plan.joins.push("Purchase Invoice");
    plan.order_by.push("purchase_invoice.posting_date desc");
    plan.limit = Some(1);
    let ghost base = plan.conditions.deep_view();
    if let Some(project) = project {
        push_condition(&mut plan.conditions, concat("purchase_invoice_item.project = ", project));
    }
    if let Some(cost_center) = cost_center {
        push_condition(&mut plan.conditions, concat("purchase_invoice_item.cost_center = ", cost_center));
    }
    assert(plan.conditions.deep_view() =~= base + optional_str_condition(project, "purchase_invoice_item.project = "@)
        + optional_str_condition(cost_center, "purchase_invoice_item.cost_center = "@));
    assert(plan.joins.deep_view() =~= seq!["Purchase Invoice"@]);
    assert(plan.order_by.deep_view() =~= seq!["purchase_invoice.posting_date desc"@]);
    plan
}

pub open spec fn delivered_by_supplier_plan(po_details: Seq<Seq<char>>) -> PlanModel {
    simple_plan("Purchase Invoice Item"@,
            seq!["sum(purchase_invoice_item.qty * purchase_invoice_item.base_net_rate)"@],
            seq![in_list("purchase_invoice_item.po_detail in "@, po_details), "purchase_invoice_item.docstatus = 1"@])
}

pub fn prepare_delivered_by_supplier_purchase_query_plan(po_details: &[String]) -> (r: QueryPlan)
    ensures
        r.deep_view() == delivered_by_supplier_plan(po_details.deep_view()),

{
    let selects = vec!["sum(purchase_invoice_item.qty * purchase_invoice_item.base_net_rate)"];
    let conditions = vec![
        list_condition("purchase_invoice_item.po_detail in ", po_details), owned("purchase_invoice_item.docstatus = 1"),
    ];
    let r = plan_on("Purchase Invoice Item", selects, conditions);
    assert(r.deep_view() =~= simple_plan("Purchase Invoice Item"@,
        seq!["sum(purchase_invoice_item.qty * purchase_invoice_item.base_net_rate)"@],
        seq![in_list("purchase_invoice_item.po_detail in "@, po_details.deep_view()), "purchase_invoice_item.docstatus = 1"@]));
    r
}

pub open spec fn so_dn_buying_plan(sales_order: Seq<char>, so_detail: Seq<char>, item_code: Seq<char>) -> PlanModel {
    PlanModel {
            group_by: seq!["delivery_note_item.item_code"@],
            ..simple_plan("Delivery Note Item"@, seq!["avg(delivery_note_item.incoming_rate)"@],
                seq!["delivery_note_item.docstatus = 1"@, "delivery_note_item.item_code = "@ + item_code,
                    "delivery_note_item.against_sales_order = "@ + sales_order, "delivery_note_item.so_detail = "@ + so_detail])
        }
}

pub fn get_buying_amount_from_so_dn_query_plan(sales_order: &str, so_detail: &str, item_code: &str) -> (r: QueryPlan)
    ensures
        r.deep_view() == so_dn_buying_plan(sales_order@, so_detail@, item_code@),

{
    let mut plan = plan_on(
        "Delivery Note Item",
        vec!["avg(delivery_note_item.incoming_rate)"],
        vec![
            owned("delivery_note_item.docstatus = 1"), concat("delivery_note_item.item_code = ", item_code),
            concat("delivery_note_item.against_sales_order = ", sales_order), concat("delivery_note_item.so_detail = ", so_detail),
        ],
    );
    plan.group_by.push("delivery_note_item.item_code");
    assert(plan.group_by.deep_view() =~= seq!["delivery_note_item.item_code"@]);
    plan
}

pub open spec fn short_month(m: int) -> Seq<char> {
    if m == 1 { "Jan"@ } else if m == 2 { "Feb"@ } else if m == 3 { "Mar"@ } else if m == 4 { "Apr"@ }
    else if m == 5 { "May"@ } else if m == 6 { "Jun"@ } else if m == 7 { "Jul"@ } else if m == 8 { "Aug"@ }
    else if m == 9 { "Sep"@ } else if m == 10 { "Oct"@ } else if m == 11 { "Nov"@ } else if m == 12 { "Dec"@ }
    else { ""@ }
}

/// The month of a `year-month-...` text as a number, 0 where there is none or
/// it does not read.
pub open spec fn month_number(date: Seq<char>) -> int {
    let parts = split_on(date, '-');
    if parts.len() >= 2 {
        match parse_u32_spec(parts[1]) {
            Some(m) => m as int,
            None => 0,
        }
    } else {
        0
    }
}

/// The month's abbreviation and the year, as in `Mar 2024`; empty without a
/// month among the twelve or without a year.
pub open spec fn month_year(date: Seq<char>) -> Seq<char> {
    let year = split_on(date, '-')[0];
    let m = month_number(date);
    if 1 <= m <= 12 && year.len() > 0 { short_month(m) + " "@ + year } else { Seq::empty() }
}

/// The month-year text of a date names its calendar month by the first
/// three letters of the month's English name, then a space and the year:
/// dates in different months give different texts.
pub proof fn lemma_month_year_names(d1: Seq<char>, d2: Seq<char>)
    requires
        1 <= month_number(d1) <= 12,
        1 <= month_number(d2) <= 12,
        split_on(d1, '-')[0].len() > 0,
        split_on(d2, '-')[0].len() > 0,
    ensures
        month_year(d1) == spec_month_name(month_number(d1) as u32).subrange(0, 3) + " "@ + split_on(d1, '-')[0],
        month_number(d1) != month_number(d2) ==> month_year(d1) != month_year(d2),
{
    let m1 = month_number(d1) as u32;
    let m2 = month_number(d2) as u32;
    lemma_month_names(m1, m2);
    lemma_month_names(m2, m1);
    assert(short_month(m1 as int) == spec_month_abbr(m1));
    assert(short_month(m2 as int) == spec_month_abbr(m2));
    if m1 != m2 && month_year(d1) == month_year(d2) {
        assert(month_year(d1).subrange(0, 3) =~= short_month(m1 as int));
        assert(month_year(d2).subrange(0, 3) =~= short_month(m2 as int));
    }
}

fn short_month_name(m: u32) -> (r: &'static str)
    ensures
        r@ == short_month(m as int),
{
    match m {
        1 => "Jan", 2 => "Feb", 3 => "Mar", 4 => "Apr", 5 => "May", 6 => "Jun",
        7 => "Jul", 8 => "Aug", 9 => "Sep", 10 => "Oct", 11 => "Nov", 12 => "Dec",
        _ => "",
    }
}

pub fn format_month_year(date: &str) -> (r: String)
    ensures
        r@ == month_year(date@),
{
    let parts = split_char(date, '-');
    proof { lemma_split_on_len(date@, '-'); }
    let month: u32 = if parts.len() >= 2 {
        match parse_u32(parts[1].as_str()) {
            Some(m) => m,
            None => 0,
        }
    } else {
        0
    };
    let year = parts[0].as_str();
    if month < 1 || month > 12 || year.is_empty() {
        return String::new();
    }
    let mut r = concat(short_month_name(month), " ");
    r.append(year);
    r
}

/// The text fields of a computed gross-profit row that grouping reads.
#[derive(Debug, PartialEq, Eq)]
pub struct GrossProfitRowTexts {
    pub invoice_or_item: String,
    pub customer: String,
    pub customer_group: String,
    pub customer_name: String,
    pub posting_date: String,
    pub monthly: String,
    pub item_code: String,
    pub item_name: String,
    pub item_group: String,
    pub brand: String,
    pub description: String,
    pub warehouse: String,
    pub project: String,
    pub cost_center: String,
    pub territory: String,
    pub sales_person: String,
    pub payment_term: String,
}

/// The row's text under a column name, if the name is one of its text columns.
pub open spec fn spec_row_text(row: GrossProfitRowTexts, col: Seq<char>) -> Option<Seq<char>> {
    if col == "invoice_or_item"@ { Some(row.invoice_or_item@) } else if col == "customer"@ { Some(row.customer@) }
    else if col == "customer_group"@ { Some(row.customer_group@) } else if col == "customer_name"@ { Some(row.customer_name@) }
    else if col == "posting_date"@ { Some(row.posting_date@) } else if col == "monthly"@ { Some(row.monthly@) }
    else if col == "item_code"@ { Some(row.item_code@) } else if col == "item_name"@ { Some(row.item_name@) }
    else if col == "item_group"@ { Some(row.item_group@) } else if col == "brand"@ { Some(row.brand@) }
    else if col == "description"@ { Some(row.description@) } else if col == "warehouse"@ { Some(row.warehouse@) }
    else if col == "project"@ { Some(row.project@) } else if col == "cost_center"@ { Some(row.cost_center@) }
    else if col == "territory"@ { Some(row.territory@) } else if col == "sales_person"@ { Some(row.sales_person@) }
    else if col == "payment_term"@ { Some(row.payment_term@) } else { None }
}

pub fn row_text_value<'a>(row: &'a GrossProfitRowTexts, col: &str) -> (r: Option<&'a String>)
    ensures
        match r {
            Some(t) => spec_row_text(*row, col@) == Some(t@),
            None => spec_row_text(*row, col@) is None,
        },
{
    if str_eq(col, "invoice_or_item") { Some(&row.invoice_or_item) } else if str_eq(col, "customer") { Some(&row.customer) }
    else if str_eq(col, "customer_group") { Some(&row.customer_group) } else if str_eq(col, "customer_name") { Some(&row.customer_name) }
    else if str_eq(col, "posting_date") { Some(&row.posting_date) } else if str_eq(col, "monthly") { Some(&row.monthly) }
    else if str_eq(col, "item_code") { Some(&row.item_code) } else if str_eq(col, "item_name") { Some(&row.item_name) }
    else if str_eq(col, "item_group") { Some(&row.item_group) } else if str_eq(col, "brand") { Some(&row.brand) }
    else if str_eq(col, "description") { Some(&row.description) } else if str_eq(col, "warehouse") { Some(&row.warehouse) }
    else if str_eq(col, "project") { Some(&row.project) } else if str_eq(col, "cost_center") { Some(&row.cost_center) }
    else if str_eq(col, "territory") { Some(&row.territory) } else if str_eq(col, "sales_person") { Some(&row.sales_person) }
    else if str_eq(col, "payment_term") { Some(&row.payment_term) } else { None }
}

/// A row is skipped when grouped by anything but invoice and its text under
/// the grouping's key is empty.
pub fn should_skip_row(row: &GrossProfitRowTexts, group_by: &str) -> (r: bool)
    ensures
        r == (group_by@ != "Invoice"@ && spec_row_text(*row, group_key(group_by@)) == Some(Seq::<char>::empty())),
{
    if str_eq(group_by, "Invoice") {
        return false;
    }
    let key = scrub(group_by);
    match row_text_value(row, key.as_str()) {
        Some(t) => {
            let e = t.as_str().unicode_len() == 0;
            proof {
                if t@.len() == 0 {
                    assert(t@ =~= Seq::<char>::empty());
                }
            }
            e
        },
        None => false,
    }
}

/// The invoices whose rows are left out: the parents of the rows that have one.
pub fn prepare_vouchers_to_ignore(parents: &[Option<String>]) -> (r: Vec<String>)
    ensures
        r.deep_view() == present_parents(parents.deep_view()),
{
    let ghost all = parents.deep_view();
    let mut r: Vec<String> = Vec::new();
    let mut i: usize = 0;
    while i < parents.len()
        invariant
            i <= all.len(),
            all == parents.deep_view(),
            r.deep_view() == present_parents(all.subrange(0, i as int)),
        decreases all.len() - i,
    {
        assert(all.subrange(0, i + 1).drop_last() =~= all.subrange(0, i as int));
        assert(all[i as int] == parents@[i as int].deep_view());
        if let Some(p) = &parents[i] {
            let ghost before = r.deep_view();
            r.push(owned(p.as_str()));
            assert(r.deep_view() =~= before.push(p@));
        }
        i = i + 1;
    }
    assert(all.subrange(0, i as int) =~= all);
    r
}

pub open spec fn present_parents(parents: Seq<Option<Seq<char>>>) -> Seq<Seq<char>>
    decreases parents.len(),
{
    if parents.len() == 0 {
        Seq::empty()
    } else {
        let before = present_parents(parents.drop_last());
        match parents.last() {
            Some(p) => before.push(p),
            None => before,
        }
    }
}

/// The slot a lookup in the cache with these keys gives (see
/// `StockLedgerCache::get_entries`).
pub open spec fn cache_slot(keys: Seq<(Seq<char>, Seq<char>)>, item: Seq<char>, warehouse: Seq<char>) -> StockLedgerLookup {
    if item.len() == 0 || warehouse.len() == 0 {
        StockLedgerLookup::Skip
    } else if exists|j: int| 0 <= j < keys.len() && keys[j] == (item, warehouse) {
        StockLedgerLookup::Cached((choose|j: int| 0 <= j < keys.len() && keys[j] == (item, warehouse) && forall|q: int|
            0 <= q < j ==> keys[q] != (item, warehouse)) as usize)
    } else {
        StockLedgerLookup::Loaded(keys.len() as usize)
    }
}

/// The cache's keys after a lookup: the pair added where it was loaded.
pub open spec fn keys_after(keys: Seq<(Seq<char>, Seq<char>)>, item: Seq<char>, warehouse: Seq<char>) -> Seq<(Seq<char>, Seq<char>)> {
    if cache_slot(keys, item, warehouse) is Loaded { keys.push((item, warehouse)) } else { keys }
}

/// Asking twice for one item and warehouse loads at most once: the second
/// lookup finds the slot of the first, and leaves the keys as they were.
pub proof fn lemma_cache_second_call(keys: Seq<(Seq<char>, Seq<char>)>, item: Seq<char>, warehouse: Seq<char>)
    requires
        item.len() > 0,
        warehouse.len() > 0,
        keys.len() < usize::MAX,
    ensures
        ({
            let after = keys_after(keys, item, warehouse);
            let k = match cache_slot(keys, item, warehouse) {
                StockLedgerLookup::Cached(k) => k,
                StockLedgerLookup::Loaded(k) => k,
                StockLedgerLookup::Skip => 0,
            };
            &&& cache_slot(after, item, warehouse) == StockLedgerLookup::Cached(k)
            &&& keys_after(after, item, warehouse) == after
        }),
{
    let after = keys_after(keys, item, warehouse);
    if exists|j: int| 0 <= j < keys.len() && keys[j] == (item, warehouse) {
        let c = choose|j: int| 0 <= j < keys.len() && keys[j] == (item, warehouse) && forall|q: int| 0 <= q < j ==> keys[q] != (item, warehouse);
        assert(exists|j: int| 0 <= j < keys.len() && keys[j] == (item, warehouse) && forall|q: int| 0 <= q < j ==> keys[q] != (item, warehouse)) by {
            lemma_first_pair(keys, (item, warehouse));
        }
        assert(after == keys);
    } else {
        assert(after == keys.push((item, warehouse)));
        assert(after[keys.len() as int] == (item, warehouse));
        assert(exists|j: int| 0 <= j < after.len() && after[j] == (item, warehouse) && forall|q: int| 0 <= q < j ==> after[q] != (item, warehouse)) by {
            assert(forall|q: int| 0 <= q < keys.len() ==> after[q] == keys[q]);
        }
        let c = choose|j: int| 0 <= j < after.len() && after[j] == (item, warehouse) && forall|q: int| 0 <= q < j ==> after[q] != (item, warehouse);
        if c < keys.len() {
            assert(keys[c] == (item, warehouse));
        }
        assert(c == keys.len());
    }
}

proof fn lemma_first_pair(keys: Seq<(Seq<char>, Seq<char>)>, x: (Seq<char>, Seq<char>))
    requires
        exists|j: int| 0 <= j < keys.len() && keys[j] == x,
    ensures
        exists|j: int| 0 <= j < keys.len() && keys[j] == x && forall|q: int| 0 <= q < j ==> keys[q] != x,
    decreases keys.len(),
{
    if keys[0] == x {
        assert(0 < keys.len() && keys[0] == x && forall|q: int| 0 <= q < 0 ==> keys[q] != x);
    } else {
        let t = keys.skip(1);
        let j0 = choose|j: int| 0 <= j < keys.len() && keys[j] == x;
        assert(t[j0 - 1] == x);
        lemma_first_pair(t, x);
        let j = choose|j: int| 0 <= j < t.len() && t[j] == x && forall|q: int| 0 <= q < j ==> t[q] != x;
        assert(keys[j + 1] == x);
        assert forall|q: int| 0 <= q < j + 1 implies keys[q] != x by {
            if q > 0 {
                assert(keys[q] == t[q - 1]);
            }
        }
    }
}

/// Where the stock ledger entries of an item in a warehouse come from.
#[derive(Debug, PartialEq, Eq, Clone, Copy)]
pub enum StockLedgerLookup {
    /// No item or no warehouse: no entries.
    Skip,
    /// The entries loaded before under this slot.
    Cached(usize),
    /// The entries just loaded, now under this new slot.
    Loaded(usize),
}

/// The stock ledger entries loaded so far, by (item, warehouse) slot, and
/// the queries made for them.
#[derive(Debug, PartialEq, Eq)]
pub struct StockLedgerCache {
    pub keys: Vec<(String, String)>,
    pub requests: Vec<QueryPlan>,
}

impl StockLedgerCache {
    /// The slot of an item and warehouse: none without both; the cached one
    /// where the pair was loaded before; else a new slot, with the query for
    /// its entries recorded.
    pub fn get_entries(&mut self, item_code: &str, warehouse: &str, company: &str) -> (r: StockLedgerLookup)
        ensures
            item_code@.len() == 0 || warehouse@.len() == 0 ==> r == StockLedgerLookup::Skip && *final(self) == *old(self),
            item_code@.len() > 0 && warehouse@.len() > 0 ==> match r {
                StockLedgerLookup::Cached(k) => k < old(self).keys@.len() && old(self).keys.deep_view()[k as int]
                    == (item_code@, warehouse@) && *final(self) == *old(self) && forall|j: int| 0 <= j < k ==>
                    old(self).keys.deep_view()[j] != (item_code@, warehouse@),
                StockLedgerLookup::Loaded(k) => k == old(self).keys@.len() && (forall|j: int| 0 <= j < k ==>
                    old(self).keys.deep_view()[j] != (item_code@, warehouse@))
                    && final(self).keys.deep_view() == old(self).keys.deep_view().push((item_code@, warehouse@))
                    && final(self).requests.deep_view() == old(self).requests.deep_view().push(
                    stock_ledger_plan(item_code@, warehouse@, company@)),
                StockLedgerLookup::Skip => false,
            },
            r == cache_slot(old(self).keys.deep_view(), item_code@, warehouse@),
            final(self).keys.deep_view() == keys_after(old(self).keys.deep_view(), item_code@, warehouse@),
    {
        if item_code.unicode_len() == 0 || warehouse.unicode_len() == 0 {
            return StockLedgerLookup::Skip;
        }
        let ghost kv = self.keys.deep_view();
        let mut k: usize = 0;
        while k < self.keys.len()
            invariant
                k <= self.keys@.len(),
                kv == self.keys.deep_view(),
                item_code@.len() > 0 && warehouse@.len() > 0,
                *self == *old(self),
                forall|j: int| 0 <= j < k ==> kv[j] != (item_code@, warehouse@),
            decreases self.keys@.len() - k,
        {
            assert(kv[k as int] == (self.keys@[k as int].0@, self.keys@[k as int].1@));
            if str_eq(self.keys[k].0.as_str(), item_code) && str_eq(self.keys[k].1.as_str(), warehouse) {
                return StockLedgerLookup::Cached(k);
            }
            k = k + 1;
        }
        let ghost before_keys = self.keys.deep_view();
        let ghost before_requests = self.requests.deep_view();
        let plan = get_stock_ledger_query_plan(item_code, warehouse, company);
        self.requests.push(plan);
        self.keys.push((owned(item_code), owned(warehouse)));
        assert(self.keys.deep_view() =~= before_keys.push((item_code@, warehouse@)));
        assert(self.requests.deep_view() =~= before_requests.push(stock_ledger_plan(item_code@, warehouse@, company@)));
        StockLedgerLookup::Loaded(k)
    }
}


/// A row of the report grouped by invoice, named by the rows it comes from.
#[derive(Debug, Clone, Copy, PartialEq, Eq)]
pub enum InvoiceStep {
    /// The heading row of an invoice, made from this item row.
    Invoice(usize),
    /// This item row, under its invoice.
    Item(usize),
    /// A packed item: the item row, the product bundle and the packed item's
    /// place in that bundle.
    Bundle(usize, usize, usize),
}

/// The invoice a row belongs to; a row without one belongs to the invoice
/// with the empty name.
pub open spec fn invoice_of(parent: Option<Seq<char>>) -> Seq<char> {
    match parent {
        Some(p) => p,
        None => Seq::empty(),
    }
}

/// The packed items shown under item row `row` (of invoice `invoice`, item
/// `item`), over the first `upto` bundles.
pub open spec fn bundle_steps(bundles: Seq<(Seq<char>, Seq<char>, usize)>, invoice: Seq<char>, item: Option<Seq<char>>,
    row: int, upto: int) -> Seq<InvoiceStep>
    decreases upto,
{
    if upto <= 0 {
        Seq::empty()
    } else {
        let b = bundles[upto - 1];
        bundle_steps(bundles, invoice, item, row, upto - 1) + if b.0 == invoice && item == Some(b.1) {
            Seq::new(b.2 as nat, |k: int| InvoiceStep::Bundle(row as usize, (upto - 1) as usize, k as usize))
        } else {
            Seq::empty()
        }
    }
}

/// The item rows of `invoice` among the first `upto` rows, each followed by
/// its packed items.
pub open spec fn item_steps(rows: Seq<(Option<Seq<char>>, Option<Seq<char>>)>,
    bundles: Seq<(Seq<char>, Seq<char>, usize)>, invoice: Seq<char>, upto: int) -> Seq<InvoiceStep>
    decreases upto,
{
    if upto <= 0 {
        Seq::empty()
    } else {
        let r = rows[upto - 1];
        item_steps(rows, bundles, invoice, upto - 1) + if invoice_of(r.0) == invoice {
            seq![InvoiceStep::Item((upto - 1) as usize)] + bundle_steps(bundles, invoice, r.1, upto - 1, bundles.len() as int)
        } else {
            Seq::empty()
        }
    }
}

/// Row `i` is the first row of its invoice.
pub open spec fn opens_invoice(rows: Seq<(Option<Seq<char>>, Option<Seq<char>>)>, i: int) -> bool {
    forall|j: int| 0 <= j < i ==> invoice_of(#[trigger] rows[j].0) != invoice_of(rows[i].0)
}

/// The report grouped by invoice, over the invoices that the first `upto`
/// rows open: each invoice's heading, then its item rows in their order.
pub open spec fn invoice_steps(rows: Seq<(Option<Seq<char>>, Option<Seq<char>>)>,
    bundles: Seq<(Seq<char>, Seq<char>, usize)>, upto: int) -> Seq<InvoiceStep>
    decreases upto,
{
    if upto <= 0 {
        Seq::empty()
    } else {
        invoice_steps(rows, bundles, upto - 1) + if opens_invoice(rows, upto - 1) {
            seq![InvoiceStep::Invoice((upto - 1) as usize)]
                + item_steps(rows, bundles, invoice_of(rows[upto - 1].0), rows.len() as int)
        } else {
            Seq::empty()
        }
    }
}

fn invoice_name(parent: &Option<String>) -> (r: &str)
    ensures
        r@ == invoice_of(parent.deep_view()),
{
    match parent {
        Some(p) => {
            assert(parent.deep_view() == Some(p@));
            p.as_str()
        },
        None => {
            proof { reveal_strlit(""); }
            ""
        },
    }
}

fn push_bundle_steps(out: &mut Vec<InvoiceStep>, bundles: &[(String, String, usize)], invoice: &str,
    item: &Option<String>, row: usize)
    ensures
        final(out)@ == old(out)@ + bundle_steps(bundles.deep_view(), invoice@, item.deep_view(), row as int,
            bundles.len() as int),
{
    let ghost bs = bundles.deep_view();
    let ghost start = out@;
    let mut b: usize = 0;
    while b < bundles.len()
        invariant
            b <= bundles.len(),
            bs == bundles.deep_view(),
            out@ == start + bundle_steps(bs, invoice@, item.deep_view(), row as int, b as int),
        decreases bundles.len() - b,
    {
        assert(bs[b as int] == (bundles@[b as int].0@, bundles@[b as int].1@, bundles@[b as int].2));
        let matches = str_eq(bundles[b].0.as_str(), invoice) && match item {
            Some(i) => str_eq(bundles[b].1.as_str(), i.as_str()),
            None => false,
        };
        let ghost before = out@;
        if matches {
            let n = bundles[b].2;
            let mut k: usize = 0;
            while k < n
                invariant
                    k <= n,
                    out@ == before + Seq::new(k as nat, |x: int| InvoiceStep::Bundle(row, b, x as usize)),
                decreases n - k,
            {
                out.push(InvoiceStep::Bundle(row, b, k));
                k = k + 1;
            }
        }
        proof {
            let added = if matches {
                Seq::new(bundles@[b as int].2 as nat, |k: int| InvoiceStep::Bundle(row as usize, b as usize, k as usize))
            } else {
                Seq::empty()
            };
            assert(bundle_steps(bs, invoice@, item.deep_view(), row as int, b + 1)
                == bundle_steps(bs, invoice@, item.deep_view(), row as int, b as int) + added);
            assert(out@ =~= start + bundle_steps(bs, invoice@, item.deep_view(), row as int, b + 1));
        }
        b = b + 1;
    }
}

/// The rows of the report grouped by invoice: for each invoice, in the order
/// its first row comes, a heading row, then each of its item rows in their
/// order, each followed by the packed items of the product bundles that
/// name that invoice and item. `rows` holds each item row's invoice and item
/// code, `product_bundles` each bundle's invoice, item and number of packed
/// items.
pub fn group_items_by_invoice(rows: &[(Option<String>, Option<String>)], product_bundles: &[(String, String, usize)])
    -> (r: Vec<InvoiceStep>)
    ensures
        r@ == invoice_steps(rows.deep_view(), product_bundles.deep_view(), rows.len() as int),
{
    let ghost rs = rows.deep_view();
    let ghost bs = product_bundles.deep_view();
    let mut out: Vec<InvoiceStep> = Vec::new();
    let mut i: usize = 0;
    while i < rows.len()
        invariant
            i <= rows.len(),
            rs == rows.deep_view(),
            bs == product_bundles.deep_view(),
            out@ == invoice_steps(rs, bs, i as int),
        decreases rows.len() - i,
    {
        let invoice = invoice_name(&rows[i].0);
        assert(rs[i as int].0 == rows@[i as int].0.deep_view());
        let mut first = true;
        let mut j: usize = 0;
        while j < i
            invariant
                j <= i < rows.len(),
                rs == rows.deep_view(),
                invoice@ == invoice_of(rs[i as int].0),
                first <==> forall|x: int| 0 <= x < j ==> invoice_of(#[trigger] rs[x].0) != invoice_of(rs[i as int].0),
            decreases i - j,
        {
            assert(rs[j as int].0 == rows@[j as int].0.deep_view());
            if str_eq(invoice_name(&rows[j].0), invoice) {
                first = false;
            }
            j = j + 1;
        }
        let ghost before = out@;
        if first {
            out.push(InvoiceStep::Invoice(i));
            let ghost head = out@;
            let mut r: usize = 0;
            while r < rows.len()
                invariant
                    r <= rows.len(),
                    rs == rows.deep_view(),
                    bs == product_bundles.deep_view(),
                    invoice@ == invoice_of(rs[i as int].0),
                    out@ == head + item_steps(rs, bs, invoice@, r as int),
                decreases rows.len() - r,
            {
                assert(rs[r as int] == (rows@[r as int].0.deep_view(), rows@[r as int].1.deep_view()));
                let ghost mid = out@;
                if str_eq(invoice_name(&rows[r].0), invoice) {
                    out.push(InvoiceStep::Item(r));
                    let ghost pushed = out@;
                    push_bundle_steps(&mut out, product_bundles, invoice, &rows[r].1, r);
                    assert(out@ =~= mid + (seq![InvoiceStep::Item(r)]
                        + bundle_steps(bs, invoice@, rs[r as int].1, r as int, bs.len() as int)));
                }
                assert(out@ =~= head + item_steps(rs, bs, invoice@, r + 1));
                r = r + 1;
            }
        }
        assert(out@ =~= invoice_steps(rs, bs, i + 1));
        i = i + 1;
    }
    out
}

} // verus!
