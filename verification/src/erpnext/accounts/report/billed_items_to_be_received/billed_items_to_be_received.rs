//! Billed items to be received: the purchase invoice query (fields and
//! filters) and the report's columns.
use vstd::prelude::*;
use crate::text::{concat, owned};

verus! {

#[derive(Debug, PartialEq, Eq)]
pub struct BilledItemsToBeReceivedFilters {
    pub company: String,
    pub posting_date: String,
    pub purchase_invoice: Option<String>,
}

#[derive(Debug, PartialEq, Eq)]
pub struct ReportColumn {
    pub label: &'static str,
    pub fieldname: &'static str,
    pub fieldtype: &'static str,
    pub options: &'static str,
    pub width: u16,
}

/// label, field name, field type, options, width
pub type ColumnView = (Seq<char>, Seq<char>, Seq<char>, Seq<char>, u16);

impl DeepView for ReportColumn {
    type V = ColumnView;

    open spec fn deep_view(&self) -> ColumnView {
        (self.label@, self.fieldname@, self.fieldtype@, self.options@, self.width)
    }
}

pub open spec fn column(label: Seq<char>, fieldname: Seq<char>, fieldtype: Seq<char>, options: Seq<char>, width: u16) -> ColumnView {
    (label, fieldname, fieldtype, options, width)
}

impl ReportColumn {
    pub fn link(label: &'static str, fieldname: &'static str, options: &'static str, width: u16) -> (r: Self)
        ensures
            r.deep_view() == column(label@, fieldname@, "Link"@, options@, width),
    {
        ReportColumn { label, fieldname, fieldtype: "Link", options, width }
    }

    pub fn date(label: &'static str, fieldname: &'static str, width: u16) -> (r: Self)
        ensures
            r.deep_view() == column(label@, fieldname@, "Date"@, ""@, width),
    {
        ReportColumn { label, fieldname, fieldtype: "Date", options: "", width }
    }

    pub fn data(label: &'static str, fieldname: &'static str, width: u16) -> (r: Self)
        ensures
            r.deep_view() == column(label@, fieldname@, "Data"@, ""@, width),
    {
        ReportColumn { label, fieldname, fieldtype: "Data", options: "", width }
    }

    pub fn float(label: &'static str, fieldname: &'static str, width: u16) -> (r: Self)
        ensures
            r.deep_view() == column(label@, fieldname@, "Float"@, ""@, width),
    {
        ReportColumn { label, fieldname, fieldtype: "Float", options: "", width }
    }

    pub fn currency(label: &'static str, fieldname: &'static str, width: u16) -> (r: Self)
        ensures
            r.deep_view() == column(label@, fieldname@, "Currency"@, ""@, width),
    {
        ReportColumn { label, fieldname, fieldtype: "Currency", options: "", width }
    }
}

/// A field of the query, `doctype.fieldname`.
#[derive(Debug, PartialEq, Eq)]
pub struct ReportField {
    pub doctype: &'static str,
    pub fieldname: &'static str,
}

impl ReportField {
    pub fn new(doctype: &'static str, fieldname: &'static str) -> (r: Self)
        ensures
            r.doctype == doctype,
            r.fieldname == fieldname,
    {
        ReportField { doctype, fieldname }
    }

    /// The field as the query names it: `` `tab{doctype}`.`{fieldname}` ``.
    pub fn frappe_field(&self) -> (r: String)
        ensures
            r@ == "`tab"@ + self.doctype@ + "`.`"@ + self.fieldname@ + "`"@,
    {
        let mut r = concat("`tab", self.doctype);
        r.append("`.`");
        r.append(self.fieldname);
        r.append("`");
        r
    }
}

#[derive(Debug, PartialEq, Eq)]
pub enum ReportFilterValue {
    Scalar(String),
    List(Vec<String>),
}

#[derive(Debug, PartialEq, Eq)]
pub struct ReportFilter {
    pub doctype: &'static str,
    pub fieldname: &'static str,
    pub operator: &'static str,
    pub value: ReportFilterValue,
}

/// doctype, field name, operator, and the value: a single text or a list.
pub type FilterView = (Seq<char>, Seq<char>, Seq<char>, Result<Seq<char>, Seq<Seq<char>>>);

impl DeepView for ReportFilter {
    type V = FilterView;

    open spec fn deep_view(&self) -> FilterView {
        (self.doctype@, self.fieldname@, self.operator@, match self.value {
            ReportFilterValue::Scalar(s) => Ok(s@),
            ReportFilterValue::List(l) => Err(l.deep_view()),
        })
    }
}

impl ReportFilter {
    pub fn new(doctype: &'static str, fieldname: &'static str, operator: &'static str, value: &str) -> (r: Self)
        ensures
            r.deep_view() == (doctype@, fieldname@, operator@, Ok::<Seq<char>, Seq<Seq<char>>>(value@)),
    {
        ReportFilter { doctype, fieldname, operator, value: ReportFilterValue::Scalar(owned(value)) }
    }

    pub fn list(doctype: &'static str, fieldname: &'static str, operator: &'static str, values: Vec<&str>) -> (r: Self)
        ensures
            r.deep_view() == (doctype@, fieldname@, operator@, Err::<Seq<char>, Seq<Seq<char>>>(values.deep_view())),
    {
        let mut owned_values: Vec<String> = Vec::new();
        let mut i: usize = 0;
        while i < values.len()
            invariant
                i <= values@.len(),
                owned_values.deep_view() == values.deep_view().subrange(0, i as int),
            decreases values@.len() - i,
        {
            assert(values.deep_view()[i as int] == values@[i as int]@);
            let ghost before = owned_values.deep_view();
            let item = owned(values[i]);
            owned_values.push(item);
            assert(owned_values.deep_view() =~= before.push(item@));
            assert(values.deep_view().subrange(0, i + 1) =~= values.deep_view().subrange(0, i as int).push(item@));
            i = i + 1;
            assert(owned_values.deep_view() =~= values.deep_view().subrange(0, i as int));
        }
        assert(values.deep_view().subrange(0, i as int) =~= values.deep_view());
        ReportFilter { doctype, fieldname, operator, value: ReportFilterValue::List(owned_values) }
    }
}

pub open spec fn scalar(doctype: Seq<char>, fieldname: Seq<char>, operator: Seq<char>, value: Seq<char>) -> FilterView {
    (doctype, fieldname, operator, Ok(value))
}

/// The invoice filters: company, posting date up to the report date,
/// submitted, not fully received, no stock update, not opening; and the one
/// invoice the filters may name.
pub open spec fn spec_report_filters(filters: BilledItemsToBeReceivedFilters) -> Seq<FilterView> {
    seq![
        scalar("Purchase Invoice"@, "company"@, "="@, filters.company@),
        scalar("Purchase Invoice"@, "posting_date"@, "<="@, filters.posting_date@),
        scalar("Purchase Invoice"@, "docstatus"@, "="@, "1"@),
        scalar("Purchase Invoice"@, "per_received"@, "<"@, "100"@),
        scalar("Purchase Invoice"@, "update_stock"@, "="@, "0"@),
        scalar("Purchase Invoice"@, "is_opening"@, "!="@, "Yes"@),
    ] + match filters.purchase_invoice {
        Some(p) => seq![("Purchase Invoice"@, "per_received"@, "in"@, Err(seq![p@]))],
        None => Seq::empty(),
    }
}

pub fn get_report_filters(filters: &BilledItemsToBeReceivedFilters) -> (r: Vec<ReportFilter>)
    ensures
        r.deep_view() == spec_report_filters(*filters),
{
    let mut report_filters = vec![
        ReportFilter::new("Purchase Invoice", "company", "=", filters.company.as_str()),
        ReportFilter::new("Purchase Invoice", "posting_date", "<=", filters.posting_date.as_str()),
        ReportFilter::new("Purchase Invoice", "docstatus", "=", "1"),
        ReportFilter::new("Purchase Invoice", "per_received", "<", "100"),
        ReportFilter::new("Purchase Invoice", "update_stock", "=", "0"),
        ReportFilter::new("Purchase Invoice", "is_opening", "!=", "Yes"),
    ];
    if let Some(purchase_invoice) = &filters.purchase_invoice {
        let values: Vec<&str> = vec![purchase_invoice.as_str()];
        assert(values.deep_view() =~= seq![purchase_invoice@]);
        report_filters.push(ReportFilter::list("Purchase Invoice", "per_received", "in", values));
    }
    assert(report_filters.deep_view() =~= spec_report_filters(*filters));
    report_filters
}

pub open spec fn spec_report_fields() -> Seq<(Seq<char>, Seq<char>)> {
    seq![
        ("Purchase Invoice"@, "name"@), ("Purchase Invoice"@, "supplier"@), ("Purchase Invoice"@, "company"@),
        ("Purchase Invoice"@, "posting_date"@), ("Purchase Invoice"@, "currency"@),
        ("Purchase Invoice Item"@, "item_code"@), ("Purchase Invoice Item"@, "item_name"@),
        ("Purchase Invoice Item"@, "uom"@), ("Purchase Invoice Item"@, "qty"@),
        ("Purchase Invoice Item"@, "received_qty"@), ("Purchase Invoice Item"@, "rate"@),
        ("Purchase Invoice Item"@, "amount"@),
    ]
}

pub fn get_report_fields() -> (r: Vec<ReportField>)
    ensures
        r@.len() == spec_report_fields().len(),
        forall|i: int| 0 <= i < r@.len() ==> (#[trigger] r@[i].doctype@, r@[i].fieldname@) == spec_report_fields()[i],
{
    let r = vec![
        ReportField::new("Purchase Invoice", "name"),
        ReportField::new("Purchase Invoice", "supplier"),
        ReportField::new("Purchase Invoice", "company"),
        ReportField::new("Purchase Invoice", "posting_date"),
        ReportField::new("Purchase Invoice", "currency"),
        ReportField::new("Purchase Invoice Item", "item_code"),
        ReportField::new("Purchase Invoice Item", "item_name"),
        ReportField::new("Purchase Invoice Item", "uom"),
        ReportField::new("Purchase Invoice Item", "qty"),
        ReportField::new("Purchase Invoice Item", "received_qty"),
        ReportField::new("Purchase Invoice Item", "rate"),
        ReportField::new("Purchase Invoice Item", "amount"),
    ];
    r
}

pub open spec fn spec_columns() -> Seq<ColumnView> {
    seq![
        column("Purchase Invoice"@, "name"@, "Link"@, "Purchase Invoice"@, 170),
        column("Supplier"@, "supplier"@, "Link"@, "Supplier"@, 120),
        column("Posting Date"@, "posting_date"@, "Date"@, ""@, 100),
        column("Item Code"@, "item_code"@, "Link"@, "Item"@, 100),
        column("Item Name"@, "item_name"@, "Data"@, ""@, 100),
        column("UOM"@, "uom"@, "Link"@, "UOM"@, 100),
        column("Invoiced Qty"@, "qty"@, "Float"@, ""@, 100),
        column("Received Qty"@, "received_qty"@, "Float"@, ""@, 100),
        column("Rate"@, "rate"@, "Currency"@, ""@, 100),
        column("Amount"@, "amount"@, "Currency"@, ""@, 100),
    ]
}

pub fn get_columns() -> (r: Vec<ReportColumn>)
    ensures
        r.deep_view() == spec_columns(),
{
    let r = vec![
        ReportColumn::link("Purchase Invoice", "name", "Purchase Invoice", 170),
        ReportColumn::link("Supplier", "supplier", "Supplier", 120),
        ReportColumn::date("Posting Date", "posting_date", 100),
        ReportColumn::link("Item Code", "item_code", "Item", 100),
        ReportColumn::data("Item Name", "item_name", 100),
        ReportColumn::link("UOM", "uom", "UOM", 100),
        ReportColumn::float("Invoiced Qty", "qty", 100),
        ReportColumn::float("Received Qty", "received_qty", 100),
        ReportColumn::currency("Rate", "rate", 100),
        ReportColumn::currency("Amount", "amount", 100),
    ];
    assert(r.deep_view() =~= spec_columns());
    r
}

} // verus!
