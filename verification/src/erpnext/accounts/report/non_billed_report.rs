//! Documents delivered or received but not yet billed: the query over a
//! document type and its item table.
use std::collections::BTreeMap;
use vstd::prelude::*;
use crate::erpnext::accounts::report::map_get;
use crate::order::{key_view, keys_view, stable_order, stable_sorted};
use crate::text::{ascii_lower, concat, lex_less, owned, str_eq, str_less, to_ascii_lower};

verus! {

/// How a document type is read: its party, date, reference and ordering
/// fields.
#[derive(Debug, PartialEq, Eq)]
pub struct NonBilledArgs {
    pub doctype: String,
    pub party: String,
    pub date: String,
    pub reference_field: String,
    pub order: String,
    pub order_by: String,
}

#[derive(Debug, PartialEq, Eq)]
pub struct NonBilledFilters {
    pub company: String,
    pub posting_date: String,
    pub references: BTreeMap<String, String>,
}

#[derive(Debug, PartialEq, Eq)]
pub struct NonBilledItemMaster {
    pub name: String,
    pub is_stock_item: bool,
}

/// The query: the document and item tables, the fields read, the document
/// named by the reference filter, the project's source, the ordering, the
/// rounding precision, the joins and the filters.
#[derive(Debug, PartialEq, Eq)]
pub struct NonBilledQueryPlan {
    pub doctype: String,
    pub child_tab: String,
    pub party_field: String,
    pub party_name_field: String,
    pub date_field: String,
    pub reference_field: String,
    pub docname_filter: Option<String>,
    pub project_source: &'static str,
    pub order_field: String,
    pub order_by: String,
    pub precision: u32,
    pub joins: Vec<String>,
    pub filters: Vec<String>,
}

/// Purchase documents take the project of each item; sales documents that of
/// the document.
pub open spec fn project_field(party: Seq<char>) -> Seq<char> {
    if party == "supplier"@ { "child_doctype.project"@ } else { "doctype.project"@ }
}

pub fn get_project_field(party: &str) -> (r: &'static str)
    ensures
        r@ == project_field(party@),
{
    if str_eq(party, "supplier") { "child_doctype.project" } else { "doctype.project" }
}

pub open spec fn base_filters() -> Seq<Seq<char>> {
    seq![
        "docstatus = 1"@, "status not in Closed,Completed"@, "company = filters.company"@,
        "posting_date <= filters.posting_date"@, "child.amount > 0"@, "item.is_stock_item = 1"@,
        "base_amount - Round(billed_amt * IfNull(conversion_rate, 1), precision) - base_rate * IfNull(returned_qty, 0) > 0"@,
    ]
}

impl NonBilledQueryPlan {
    pub fn from_args(args: &NonBilledArgs, filters: &NonBilledFilters, precision: Option<u32>) -> (r: Self)
        ensures
            r.doctype@ == args.doctype@,
            r.child_tab@ == args.doctype@ + " Item"@,
            r.party_field@ == args.party@,
            r.party_name_field@ == args.party@ + "_name"@,
            r.date_field@ == args.date@,
            r.reference_field@ == args.reference_field@,
            r.docname_filter.deep_view() == if filters.references.deep_view().contains_key(args.reference_field@) {
                Some(filters.references.deep_view()[args.reference_field@]) } else { None },
            r.project_source@ == project_field(args.party@),
            r.order_field@ == args.order@,
            r.order_by@ == args.order_by@,
            r.precision == match precision { Some(p) => p, None => 2 },
            r.joins.deep_view() == seq![args.doctype@ + ".name = "@ + (args.doctype@ + " Item"@) + ".parent"@,
                "Item.name = "@ + (args.doctype@ + " Item"@) + ".item_code"@],
            r.filters.deep_view() == base_filters()
                + if filters.references.deep_view().contains_key(args.reference_field@) { seq!["name = filters[reference_field]"@] } else { Seq::empty() },
    {
        let child_tab = concat(args.doctype.as_str(), " Item");
        let docname_filter = match map_get(&filters.references, args.reference_field.as_str()) {
            Some(v) => Some(v.clone()),
            None => None,
        };
        let mut query_filters = vec![
            owned("docstatus = 1"), owned("status not in Closed,Completed"), owned("company = filters.company"),
            owned("posting_date <= filters.posting_date"), owned("child.amount > 0"), owned("item.is_stock_item = 1"),
            owned("base_amount - Round(billed_amt * IfNull(conversion_rate, 1), precision) - base_rate * IfNull(returned_qty, 0) > 0"),
        ];
        let ghost head = query_filters.deep_view();
        assert(head =~= base_filters());
        if docname_filter.is_some() {
            query_filters.push(owned("name = filters[reference_field]"));
        }
        assert(query_filters.deep_view() =~= base_filters()
            + if filters.references.deep_view().contains_key(args.reference_field@) { seq!["name = filters[reference_field]"@] } else { Seq::empty() });
        let join_parent = concat(concat(concat(args.doctype.as_str(), ".name = ").as_str(), child_tab.as_str()).as_str(), ".parent");
        let join_item = concat(concat("Item.name = ", child_tab.as_str()).as_str(), ".item_code");
        let joins = vec![join_parent, join_item];
        assert(joins.deep_view() =~= seq![args.doctype@ + ".name = "@ + (args.doctype@ + " Item"@) + ".parent"@,
            "Item.name = "@ + (args.doctype@ + " Item"@) + ".item_code"@]);
        NonBilledQueryPlan {
            doctype: args.doctype.clone(),
            child_tab,
            party_field: args.party.clone(),
            party_name_field: concat(args.party.as_str(), "_name"),
            date_field: args.date.clone(),
            reference_field: args.reference_field.clone(),
            docname_filter,
            project_source: get_project_field(args.party.as_str()),
            order_field: args.order.clone(),
            order_by: args.order_by.clone(),
            precision: match precision { Some(p) => p, None => 2 },
            joins,
            filters: query_filters,
        }
    }
}

/// What the report's filter reads of a document.
#[derive(Debug, PartialEq, Eq)]
pub struct NonBilledDocumentKeys {
    pub name: String,
    pub status: String,
    pub docstatus: i32,
    pub company: String,
    pub posting_date: String,
}

/// A submitted document of the company, neither closed nor completed, posted
/// on or before the report's date, and the one named where a name is given.
pub open spec fn spec_document_matches(doc: NonBilledDocumentKeys, f: NonBilledFilters, docname: Option<Seq<char>>) -> bool {
    &&& doc.docstatus == 1
    &&& doc.status@ != "Closed"@
    &&& doc.status@ != "Completed"@
    &&& doc.company@ == f.company@
    &&& !lex_less(f.posting_date@, doc.posting_date@)
    &&& (docname matches Some(n) ==> doc.name@ == n)
}

pub fn document_matches_filters(doc: &NonBilledDocumentKeys, filters: &NonBilledFilters, docname_filter: Option<&str>) -> (r: bool)
    ensures
        r == spec_document_matches(*doc, *filters, match docname_filter { Some(n) => Some(n@), None => None }),
{
    doc.docstatus == 1
        && !str_eq(doc.status.as_str(), "Closed")
        && !str_eq(doc.status.as_str(), "Completed")
        && str_eq(doc.company.as_str(), filters.company.as_str())
        && !str_less(filters.posting_date.as_str(), doc.posting_date.as_str())
        && match docname_filter { Some(n) => str_eq(doc.name.as_str(), n), None => true }
}

/// What a row is ordered by: its name, company and date.
#[derive(Debug, PartialEq, Eq)]
pub struct NonBilledRowKeys {
    pub name: String,
    pub company: String,
    pub date: String,
}

/// The field a row is ordered by first: its name or company when ordered by
/// those, else its date.
pub open spec fn order_value(row: NonBilledRowKeys, field: Seq<char>) -> Seq<char> {
    if field == "name"@ { row.name@ } else if field == "company"@ { row.company@ } else { row.date@ }
}

/// Two texts that are the same but for the case of ASCII letters.
pub open spec fn same_ignoring_ascii_case(a: Seq<char>, b: Seq<char>) -> bool {
    a.len() == b.len() && forall|i: int| 0 <= i < a.len() ==> ascii_lower(#[trigger] a[i]) == ascii_lower(b[i])
}

/// The rows ordered by the order field and then by name, stably; the whole
/// order turned round when it is descending.
pub open spec fn spec_row_order(rows: Seq<NonBilledRowKeys>, args: NonBilledArgs) -> Seq<int> {
    let keys = Seq::new(rows.len(), |i: int| seq![Some(order_value(rows[i], args.order@)), Some(rows[i].name@)]);
    let up = stable_sorted(keys, false, rows.len());
    if same_ignoring_ascii_case(args.order_by@, "desc"@) { up.reverse() } else { up }
}

fn ignores_case_eq(a: &str, b: &str) -> (r: bool)
    ensures
        r == same_ignoring_ascii_case(a@, b@),
{
    let n = a.unicode_len();
    if n != b.unicode_len() {
        return false;
    }
    let mut i: usize = 0;
    while i < n
        invariant
            n == a@.len(),
            n == b@.len(),
            i <= n,
            forall|j: int| 0 <= j < i ==> ascii_lower(#[trigger] a@[j]) == ascii_lower(b@[j]),
        decreases n - i,
    {
        if to_ascii_lower(a.get_char(i)) != to_ascii_lower(b.get_char(i)) {
            return false;
        }
        i = i + 1;
    }
    true
}

/// The order of the report's rows, as indices into `rows`.
pub fn sort_rows_like_orderby(rows: &[NonBilledRowKeys], args: &NonBilledArgs) -> (r: Vec<usize>)
    ensures
        r@.map_values(|v: usize| v as int) == spec_row_order(rows@, *args),
{
    let ghost want = Seq::new(rows@.len(), |i: int| seq![Some(order_value(rows@[i], args.order@)), Some(rows@[i].name@)]);
    let mut keys: Vec<Vec<Option<String>>> = Vec::new();
    let mut i: usize = 0;
    while i < rows.len()
        invariant
            i <= rows@.len(),
            want == Seq::new(rows@.len(), |q: int| seq![Some(order_value(rows@[q], args.order@)), Some(rows@[q].name@)]),
            keys_view(keys@) == want.subrange(0, i as int),
        decreases rows@.len() - i,
    {
        let row = &rows[i];
        let field = args.order.as_str();
        let first = if str_eq(field, "name") { row.name.clone() } else if str_eq(field, "company") { row.company.clone() } else { row.date.clone() };
        let k = vec![Some(first), Some(row.name.clone())];
        let ghost before = keys@;
        keys.push(k);
        assert(keys@ == before.push(k));
        assert(key_view(k@) =~= want[i as int]);
        assert(keys_view(keys@) =~= keys_view(before).push(key_view(k@)));
        assert(keys_view(keys@) =~= want.subrange(0, i + 1));
        i = i + 1;
    }
    assert(want.subrange(0, i as int) =~= want);
    let order = stable_order(&keys, false);
    if !ignores_case_eq(args.order_by.as_str(), "desc") {
        return order;
    }
    let ghost up = order@.map_values(|v: usize| v as int);
    let n = order.len();
    let mut out: Vec<usize> = Vec::new();
    let mut j: usize = 0;
    while j < n
        invariant
            n == order@.len(),
            up == order@.map_values(|v: usize| v as int),
            j <= n,
            out@.map_values(|v: usize| v as int) == up.reverse().subrange(0, j as int),
        decreases n - j,
    {
        let ghost before = out@.map_values(|v: usize| v as int);
        out.push(order[n - 1 - j]);
        assert(out@.map_values(|v: usize| v as int) =~= before.push(up[n - 1 - j]));
        assert(up.reverse()[j as int] == up[n - 1 - j]);
        assert(out@.map_values(|v: usize| v as int) =~= up.reverse().subrange(0, j + 1));
        j = j + 1;
    }
    assert(up.reverse().subrange(0, j as int) =~= up.reverse());
    out
}

} // verus!
