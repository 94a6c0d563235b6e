//! Inactive sales items: the queries for the sales details, territories and
//! items, the columns, and which territory and item pairs become rows.
use vstd::prelude::*;
use crate::text::{owned, str_eq};

verus! {

#[derive(Debug, PartialEq, Eq)]
pub struct InactiveSalesItemsFilters {
    pub based_on: String,
    pub days: i32,
    pub territory: Option<String>,
    pub item_group: Option<String>,
    pub item: Option<String>,
}

#[derive(Debug, PartialEq, Eq)]
pub struct ReportColumn {
    pub label: &'static str,
    pub fieldname: &'static str,
    pub fieldtype: &'static str,
    pub options: &'static str,
    pub width: u16,
}

/// label, field name, field type, options, width
pub type ColumnView = (Seq<char>, Seq<char>, Seq<char>, Seq<char>, u16);

impl DeepView for ReportColumn {
    type V = ColumnView;

    open spec fn deep_view(&self) -> ColumnView {
        (self.label@, self.fieldname@, self.fieldtype@, self.options@, self.width)
    }
}

impl ReportColumn {
    pub fn link(label: &'static str, fieldname: &'static str, options: &'static str, width: u16) -> (r: Self)
        ensures
            r.deep_view() == (label@, fieldname@, "Link"@, options@, width),
    {
        ReportColumn { label, fieldname, fieldtype: "Link", options, width }
    }

    pub fn data(label: &'static str, fieldname: &'static str, width: u16) -> (r: Self)
        ensures
            r.deep_view() == (label@, fieldname@, "Data"@, ""@, width),
    {
        ReportColumn { label, fieldname, fieldtype: "Data", options: "", width }
    }

    pub fn date(label: &'static str, fieldname: &'static str, width: u16) -> (r: Self)
        ensures
            r.deep_view() == (label@, fieldname@, "Date"@, ""@, width),
    {
        ReportColumn { label, fieldname, fieldtype: "Date", options: "", width }
    }

    pub fn float(label: &'static str, fieldname: &'static str, width: u16) -> (r: Self)
        ensures
            r.deep_view() == (label@, fieldname@, "Float"@, ""@, width),
    {
        ReportColumn { label, fieldname, fieldtype: "Float", options: "", width }
    }

    pub fn integer(label: &'static str, fieldname: &'static str, width: u16) -> (r: Self)
        ensures
            r.deep_view() == (label@, fieldname@, "Int"@, ""@, width),
    {
        ReportColumn { label, fieldname, fieldtype: "Int", options: "", width }
    }
}

/// The sales document, its item table and date field, and the fixed join,
/// status filter and ordering of the sales details query.
#[derive(Debug, PartialEq, Eq)]
pub struct SalesDetailsQueryPlan {
    pub doctype: &'static str,
    pub child_doctype: &'static str,
    pub date_field: &'static str,
    pub join_condition: &'static str,
    pub docstatus_filter: &'static str,
    pub order_by: &'static str,
}

#[derive(Debug, PartialEq, Eq)]
pub struct Territory {
    pub name: String,
}

impl Territory {
    pub fn new(name: &str) -> (r: Self)
        ensures
            r.name@ == name@,
    {
        Territory { name: owned(name) }
    }
}

#[derive(Debug, PartialEq, Eq)]
pub struct InactiveSalesItem {
    pub item_code: String,
    pub item_group: String,
    pub item_name: String,
}

impl InactiveSalesItem {
    pub fn new(item_code: &str, item_group: &str, item_name: &str) -> (r: Self)
        ensures
            r.item_code@ == item_code@,
            r.item_group@ == item_group@,
            r.item_name@ == item_name@,
    {
        InactiveSalesItem { item_code: owned(item_code), item_group: owned(item_group), item_name: owned(item_name) }
    }
}

pub open spec fn spec_columns() -> Seq<ColumnView> {
    seq![
        ("Territory"@, "territory"@, "Link"@, "Territory"@, 100u16),
        ("Item Group"@, "item_group"@, "Link"@, "Item Group"@, 150u16),
        ("Item"@, "item"@, "Link"@, "Item"@, 150u16),
        ("Item Name"@, "item_name"@, "Data"@, ""@, 150u16),
        ("Customer"@, "customer"@, "Link"@, "Customer"@, 100u16),
        ("Last Order Date"@, "last_order_date"@, "Date"@, ""@, 100u16),
        ("Quantity"@, "qty"@, "Float"@, ""@, 100u16),
        ("Days Since Last Order"@, "days_since_last_order"@, "Int"@, ""@, 100u16),
    ]
}

pub fn get_columns() -> (r: Vec<ReportColumn>)
    ensures
        r.deep_view() == spec_columns(),
{
    let r = vec![
        ReportColumn::link("Territory", "territory", "Territory", 100),
        ReportColumn::link("Item Group", "item_group", "Item Group", 150),
        ReportColumn::link("Item", "item", "Item", 150),
        ReportColumn::data("Item Name", "item_name", 150),
        ReportColumn::link("Customer", "customer", "Customer", 100),
        ReportColumn::date("Last Order Date", "last_order_date", 100),
        ReportColumn::float("Quantity", "qty", 100),
        ReportColumn::integer("Days Since Last Order", "days_since_last_order", 100),
    ];
    assert(r.deep_view() =~= spec_columns());
    r
}

pub fn get_sales_details_query_plan(filters: &InactiveSalesItemsFilters) -> (r: SalesDetailsQueryPlan)
    ensures
        filters.based_on@ == "Sales Order"@ ==> r.doctype@ == "Sales Order"@ && r.child_doctype@ == "Sales Order Item"@
            && r.date_field@ == "s.transaction_date"@,
        filters.based_on@ != "Sales Order"@ ==> r.doctype@ == "Sales Invoice"@ && r.child_doctype@ == "Sales Invoice Item"@
            && r.date_field@ == "s.posting_date"@,
        r.join_condition@ == "s.name = si.parent"@,
        r.docstatus_filter@ == "s.docstatus = 1"@,
        r.order_by@ == "days_since_last_order"@,
{
    let orders = str_eq(filters.based_on.as_str(), "Sales Order");
    SalesDetailsQueryPlan {
        doctype: if orders { "Sales Order" } else { "Sales Invoice" },
        child_doctype: if orders { "Sales Order Item" } else { "Sales Invoice Item" },
        date_field: if orders { "s.transaction_date" } else { "s.posting_date" },
        join_condition: "s.name = si.parent",
        docstatus_filter: "s.docstatus = 1",
        order_by: "days_since_last_order",
    }
}

/// The territory filter, when one is given.
pub fn get_territories_query_plan(filters: &InactiveSalesItemsFilters) -> (r: Vec<(&'static str, &'static str, String)>)
    ensures
        r.deep_view() == match filters.territory {
            Some(t) => seq![("name"@, "="@, t@)],
            None => Seq::empty(),
        },
{
    match &filters.territory {
        Some(t) => {
            let r = vec![("name", "=", t.clone())];
            assert(r.deep_view() =~= seq![("name"@, "="@, t@)]);
            r
        },
        None => {
            let r: Vec<(&'static str, &'static str, String)> = Vec::new();
            assert(r.deep_view() =~= Seq::<(Seq<char>, Seq<char>, Seq<char>)>::empty());
            r
        },
    }
}

/// Enabled stock items, of the filtered item group and item, by name.
pub open spec fn spec_items_query(f: InactiveSalesItemsFilters) -> Seq<(Seq<char>, Seq<char>, Seq<char>)> {
    seq![("disabled"@, "="@, "0"@), ("is_stock_item"@, "="@, "1"@)]
    + match f.item_group { Some(g) => seq![("item_group"@, "="@, g@)], None => Seq::empty() }
    + match f.item { Some(i) => seq![("name"@, "="@, i@)], None => Seq::empty() }
    + seq![("order_by"@, "="@, "name"@)]
}

pub fn get_items_query_plan(filters: &InactiveSalesItemsFilters) -> (r: Vec<(&'static str, &'static str, String)>)
    ensures
        r.deep_view() == spec_items_query(*filters),
{
    let mut r = vec![("disabled", "=", owned("0")), ("is_stock_item", "=", owned("1"))];
    let ghost s0 = r.deep_view();
    if let Some(g) = &filters.item_group {
        r.push(("item_group", "=", g.clone()));
    }
    let ghost s1 = r.deep_view();
    assert(s1 =~= s0 + match filters.item_group { Some(g) => seq![("item_group"@, "="@, g@)], None => Seq::empty() });
    if let Some(i) = &filters.item {
        r.push(("name", "=", i.clone()));
    }
    let ghost s2 = r.deep_view();
    assert(s2 =~= s1 + match filters.item { Some(i) => seq![("name"@, "="@, i@)], None => Seq::empty() });
    r.push(("order_by", "=", owned("name")));
    assert(r.deep_view() =~= spec_items_query(*filters));
    r
}

/// A sales detail as the row selection reads it: territory, item code and
/// days since the last order.
pub type DetailKey = (Seq<char>, Seq<char>, i32);

/// The index of the first detail of the territory and item.
pub open spec fn first_detail(details: Seq<DetailKey>, territory: Seq<char>, item: Seq<char>) -> Option<int>
    decreases details.len(),
{
    if details.len() == 0 {
        None
    } else if details[0].0 == territory && details[0].1 == item {
        Some(0)
    } else {
        match first_detail(details.skip(1), territory, item) {
            Some(k) => Some(k + 1),
            None => None,
        }
    }
}

/// The row of a territory and item: with its first sales detail when that
/// detail is older than the filter's days, none when it is not, and a row
/// without details when there is no detail.
pub open spec fn row_for(days: i32, details: Seq<DetailKey>, t: usize, territory: Seq<char>, i: usize, item: Seq<char>)
    -> Seq<(usize, usize, Option<usize>)>
{
    match first_detail(details, territory, item) {
        Some(k) => if details[k].2 > days { seq![(t, i, Some(k as usize))] } else { Seq::empty() },
        None => seq![(t, i, None)],
    }
}

pub open spec fn rows_for_items(days: i32, details: Seq<DetailKey>, t: usize, territory: Seq<char>, items: Seq<Seq<char>>)
    -> Seq<(usize, usize, Option<usize>)>
    decreases items.len(),
{
    if items.len() == 0 {
        Seq::empty()
    } else {
        rows_for_items(days, details, t, territory, items.drop_last())
            + row_for(days, details, t, territory, (items.len() - 1) as usize, items.last())
    }
}

/// The rows of the report, territory by territory and item by item, as
/// (territory index, item index, index of the sales detail shown).
pub open spec fn planned_rows(days: i32, details: Seq<DetailKey>, territories: Seq<Seq<char>>, items: Seq<Seq<char>>)
    -> Seq<(usize, usize, Option<usize>)>
    decreases territories.len(),
{
    if territories.len() == 0 {
        Seq::empty()
    } else {
        planned_rows(days, details, territories.drop_last(), items)
            + rows_for_items(days, details, (territories.len() - 1) as usize, territories.last(), items)
    }
}

fn find_detail(details: &[(String, String, i32)], territory: &str, item: &str) -> (r: Option<usize>)
    ensures
        match (r, first_detail(details.deep_view(), territory@, item@)) {
            (Some(k), Some(j)) => k == j && k < details@.len(),
            (None, None) => true,
            _ => false,
        },
{
    let ghost all = details.deep_view();
    let mut k: usize = 0;
    assert(all.skip(0) =~= all);
    while k < details.len() && !(str_eq(details[k].0.as_str(), territory) && str_eq(details[k].1.as_str(), item))
        invariant
            k <= details@.len(),
            all == details.deep_view(),
            match first_detail(all, territory@, item@) {
                Some(j) => match first_detail(all.skip(k as int), territory@, item@) {
                    Some(j2) => j == j2 + k,
                    None => false,
                },
                None => first_detail(all.skip(k as int), territory@, item@) is None,
            },
        decreases details@.len() - k,
    {
        assert(all.skip(k as int)[0] == all[k as int]);
        assert(all.skip(k as int).skip(1) =~= all.skip(k + 1));
        k = k + 1;
    }
    if k == details.len() {
        None
    } else {
        assert(all.skip(k as int)[0] == all[k as int]);
        Some(k)
    }
}

/// The territory names.
pub open spec fn territory_names(territories: Seq<Territory>) -> Seq<Seq<char>> {
    Seq::new(territories.len(), |i: int| territories[i].name@)
}

/// The item codes.
pub open spec fn item_codes(items: Seq<InactiveSalesItem>) -> Seq<Seq<char>> {
    Seq::new(items.len(), |i: int| items[i].item_code@)
}

/// Which territory and item pairs become rows, and with which sales detail;
/// `details` holds each sales detail's territory, item code and days since
/// its last order.
pub fn plan_rows(filters: &InactiveSalesItemsFilters, territories: &[Territory], items: &[InactiveSalesItem],
    details: &[(String, String, i32)]) -> (r: Vec<(usize, usize, Option<usize>)>)
    ensures
        r@ == planned_rows(filters.days, details.deep_view(), territory_names(territories@), item_codes(items@)),
{
    let ghost ds = details.deep_view();
    let ghost ts = territory_names(territories@);
    let ghost is = item_codes(items@);
    let mut r: Vec<(usize, usize, Option<usize>)> = Vec::new();
    let mut t: usize = 0;
    while t < territories.len()
        invariant
            t <= territories@.len(),
            ds == details.deep_view(),
            ts == territory_names(territories@),
            is == item_codes(items@),
            r@ == planned_rows(filters.days, ds, ts.subrange(0, t as int), is),
        decreases territories@.len() - t,
    {
        let ghost head = r@;
        let territory = territories[t].name.as_str();
        let mut i: usize = 0;
        while i < items.len()
            invariant
                t < territories@.len(),
                i <= items@.len(),
                ds == details.deep_view(),
                ts == territory_names(territories@),
                is == item_codes(items@),
                territory@ == ts[t as int],
                r@ == head + rows_for_items(filters.days, ds, t, ts[t as int], is.subrange(0, i as int)),
            decreases items@.len() - i,
        {
            assert(is.subrange(0, i + 1).drop_last() =~= is.subrange(0, i as int));
            let ghost before = r@;
            match find_detail(details, territory, items[i].item_code.as_str()) {
                Some(k) => {
                    if details[k].2 > filters.days {
                        r.push((t, i, Some(k)));
                        assert(r@ =~= before + row_for(filters.days, ds, t, ts[t as int], i, is[i as int]));
                    } else {
                        assert(r@ =~= before + row_for(filters.days, ds, t, ts[t as int], i, is[i as int]));
                    }
                },
                None => {
                    r.push((t, i, None));
                    assert(r@ =~= before + row_for(filters.days, ds, t, ts[t as int], i, is[i as int]));
                },
            }
            i = i + 1;
            assert(r@ =~= head + rows_for_items(filters.days, ds, t, ts[t as int], is.subrange(0, i as int)));
        }
        assert(is.subrange(0, i as int) =~= is);
        assert(ts.subrange(0, t + 1).drop_last() =~= ts.subrange(0, t as int));
        t = t + 1;
    }
    assert(ts.subrange(0, t as int) =~= ts);
    r
}

/// What the sales-details map reads of a sales detail.
#[derive(Debug, PartialEq, Eq)]
pub struct SalesDetailKeys {
    pub territory: String,
    pub item_code: String,
}

pub open spec fn same_pair(a: SalesDetailKeys, b: SalesDetailKeys) -> bool {
    a.territory@ == b.territory@ && a.item_code@ == b.item_code@
}

/// The detail kept for a territory and item: the first one of them.
pub open spec fn first_of_pair(details: Seq<SalesDetailKeys>, i: int) -> bool {
    0 <= i < details.len() && forall|j: int| 0 <= j < i ==> !same_pair(details[j], details[i])
}

/// The details by territory and item, as the index of the first detail of
/// each pair, in order.
pub fn get_sales_details_map(sales_details: &[SalesDetailKeys]) -> (r: Vec<usize>)
    ensures
        forall|k: int| 0 <= k < r@.len() ==> first_of_pair(sales_details@, #[trigger] r@[k] as int),
        forall|i: int| first_of_pair(sales_details@, i) ==> r@.contains(i as usize),
        forall|a: int, b: int| 0 <= a < b < r@.len() ==> r@[a] < r@[b],
{
    let mut r: Vec<usize> = Vec::new();
    let mut i: usize = 0;
    while i < sales_details.len()
        invariant
            i <= sales_details@.len(),
            forall|k: int| 0 <= k < r@.len() ==> #[trigger] r@[k] < i && first_of_pair(sales_details@, r@[k] as int),
            forall|q: int| 0 <= q < i && first_of_pair(sales_details@, q) ==> r@.contains(q as usize),
            forall|a: int, b: int| 0 <= a < b < r@.len() ==> r@[a] < r@[b],
        decreases sales_details@.len() - i,
    {
        let d = &sales_details[i];
        let mut seen = false;
        let mut j: usize = 0;
        while j < i && !seen
            invariant
                j <= i < sales_details@.len(),
                *d == sales_details@[i as int],
                seen ==> !first_of_pair(sales_details@, i as int),
                !seen ==> forall|q: int| 0 <= q < j ==> !same_pair(sales_details@[q], sales_details@[i as int]),
            decreases i - j + (if seen { 0int } else { 1int }),
        {
            let e = &sales_details[j];
            if str_eq(e.territory.as_str(), d.territory.as_str()) && str_eq(e.item_code.as_str(), d.item_code.as_str()) {
                assert(same_pair(sales_details@[j as int], sales_details@[i as int]));
                assert(!first_of_pair(sales_details@, i as int));
                seen = true;
            } else {
                j = j + 1;
            }
        }
        let ghost before = r@;
        if !seen {
            r.push(i);
        }
        assert forall|q: int| 0 <= q < i + 1 && first_of_pair(sales_details@, q) implies r@.contains(q as usize) by {
            if q == i as int {
                assert(r@.last() == i);
            } else {
                let w = choose|w: int| 0 <= w < before.len() && before[w] == q as usize;
                assert(r@[w] == q as usize);
            }
        }
        i = i + 1;
    }
    r
}

} // verus!
