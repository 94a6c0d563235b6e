//! Dimension-wise accounts balance: which dimension values are reported, the
//! query plan for accounts and ledger entries, and the columns.
use vstd::prelude::*;
use crate::text::{concat, owned, scrub_runs, scrubbed_runs, str_eq};

verus! {

#[derive(Debug, PartialEq, Eq)]
pub struct DimensionWiseFilters {
    pub company: String,
    pub from_date: String,
    pub to_date: String,
    pub dimension: String,
    pub finance_book: Option<String>,
    pub include_default_book_entries: bool,
    pub default_finance_book: Option<String>,
}

/// Whether the dimension's records belong to a company.
#[derive(Debug, PartialEq, Eq)]
pub struct DimensionMeta {
    pub has_company: bool,
}

#[derive(Debug, PartialEq, Eq)]
pub struct DimensionRecord {
    pub name: String,
    pub company: Option<String>,
}

impl DimensionRecord {
    pub fn new(name: &str, company: Option<&str>) -> (r: Self)
        ensures
            r.name@ == name@,
            match (r.company, company) {
                (Some(a), Some(b)) => a@ == b@,
                (None, None) => true,
                _ => false,
            },
    {
        DimensionRecord {
            name: owned(name),
            company: match company {
                Some(c) => Some(owned(c)),
                None => None,
            },
        }
    }
}

#[derive(Debug, PartialEq, Eq)]
pub struct ReportColumn {
    pub fieldname: String,
    pub label: String,
    pub fieldtype: &'static str,
    pub options: String,
    pub width: Option<u16>,
    pub hidden: bool,
}

/// field name, label, field type, options, width, hidden
pub type ColumnView = (Seq<char>, Seq<char>, Seq<char>, Seq<char>, Option<u16>, bool);

impl DeepView for ReportColumn {
    type V = ColumnView;

    open spec fn deep_view(&self) -> ColumnView {
        (self.fieldname@, self.label@, self.fieldtype@, self.options@, self.width, self.hidden)
    }
}

impl ReportColumn {
    pub fn link(label: &str, fieldname: &str, options: &str, width: u16) -> (r: Self)
        ensures
            r.deep_view() == (fieldname@, label@, "Link"@, options@, Some(width), false),
    {
        ReportColumn { fieldname: owned(fieldname), label: owned(label), fieldtype: "Link", options: owned(options), width: Some(width), hidden: false }
    }

    pub fn hidden_link(label: &str, fieldname: &str, options: &str) -> (r: Self)
        ensures
            r.deep_view() == (fieldname@, label@, "Link"@, options@, None::<u16>, true),
    {
        ReportColumn { fieldname: owned(fieldname), label: owned(label), fieldtype: "Link", options: owned(options), width: None, hidden: true }
    }

    pub fn currency(label: &str, fieldname: &str, width: u16) -> (r: Self)
        ensures
            r.deep_view() == (fieldname@, label@, "Currency"@, "currency"@, Some(width), false),
    {
        ReportColumn { fieldname: owned(fieldname), label: owned(label), fieldtype: "Currency", options: owned("currency"), width: Some(width), hidden: false }
    }
}

/// The plan of the account and ledger queries: the account fields, order and
/// filter; the ledger fields (with the dimension's field), conditions and
/// order; the finance books; and the dimension values.
#[derive(Debug, PartialEq, Eq)]
pub struct DimensionWiseQueryPlan {
    pub account_doctype: &'static str,
    pub account_fields: Vec<&'static str>,
    pub account_order_by: &'static str,
    pub account_filters: Vec<&'static str>,
    pub gl_doctype: &'static str,
    pub gl_fields: Vec<String>,
    pub gl_conditions: Vec<String>,
    pub gl_order_by: &'static str,
    pub finance_book: String,
    pub company_default_finance_book: Option<String>,
    pub dimensions: Vec<String>,
}

pub open spec fn spec_account_fields() -> Seq<Seq<char>> {
    seq!["name"@, "account_number"@, "parent_account"@, "lft"@, "rgt"@, "root_type"@, "report_type"@,
        "account_name"@, "include_in_gross"@, "account_type"@, "is_group"@]
}

pub open spec fn spec_gl_fields(dimension_field: Seq<char>) -> Seq<Seq<char>> {
    seq!["posting_date"@, "account"@, dimension_field, "debit"@, "credit"@, "is_opening"@, "fiscal_year"@,
        "debit_in_account_currency"@, "credit_in_account_currency"@, "account_currency"@]
}

pub open spec fn spec_gl_conditions(dimension_field: Seq<char>) -> Seq<Seq<char>> {
    seq!["company = filters.company"@, dimension_field + " in %(dimensions)s"@, "account in selected account tree"@,
        "posting_date >= filters.from_date"@, "posting_date <= filters.to_date"@, "is_cancelled = 0"@]
}

impl DimensionWiseQueryPlan {
    pub fn for_filters(filters: &DimensionWiseFilters, dimensions: &[String]) -> (r: Self)
        ensures
            r.account_doctype@ == "Account"@,
            r.account_fields.deep_view() == spec_account_fields(),
            r.account_order_by@ == "lft"@,
            r.account_filters.deep_view() == seq!["company = filters.company"@],
            r.gl_doctype@ == "GL Entry"@,
            r.gl_fields.deep_view() == spec_gl_fields(scrubbed_runs(filters.dimension@)),
            r.gl_conditions.deep_view() == spec_gl_conditions(scrubbed_runs(filters.dimension@)),
            r.gl_order_by@ == "account, posting_date"@,
            r.finance_book@ == match filters.finance_book { Some(b) => b@, None => Seq::empty() },
            r.company_default_finance_book.deep_view() == if filters.include_default_book_entries {
                filters.default_finance_book.deep_view() } else { None },
            r.dimensions.deep_view() == dimensions.deep_view(),
    {
        let field = scrub_runs(filters.dimension.as_str());
        let gl_fields = vec![
            owned("posting_date"), owned("account"), field.clone(), owned("debit"), owned("credit"), owned("is_opening"),
            owned("fiscal_year"), owned("debit_in_account_currency"), owned("credit_in_account_currency"),
            owned("account_currency"),
        ];
        assert(gl_fields.deep_view() =~= spec_gl_fields(scrubbed_runs(filters.dimension@)));
        let gl_conditions = vec![
            owned("company = filters.company"), concat(field.as_str(), " in %(dimensions)s"),
            owned("account in selected account tree"), owned("posting_date >= filters.from_date"),
            owned("posting_date <= filters.to_date"), owned("is_cancelled = 0"),
        ];
        assert(gl_conditions.deep_view() =~= spec_gl_conditions(scrubbed_runs(filters.dimension@)));
        let account_fields = vec![
            "name", "account_number", "parent_account", "lft", "rgt", "root_type", "report_type", "account_name",
            "include_in_gross", "account_type", "is_group",
        ];
        assert(account_fields.deep_view() =~= spec_account_fields());
        let account_filters = vec!["company = filters.company"];
        assert(account_filters.deep_view() =~= seq!["company = filters.company"@]);
        let mut dims: Vec<String> = Vec::new();
        let mut i: usize = 0;
        while i < dimensions.len()
            invariant
                i <= dimensions@.len(),
                dims.deep_view() == dimensions.deep_view().subrange(0, i as int),
            decreases dimensions@.len() - i,
        {
            let ghost before = dims.deep_view();
            dims.push(dimensions[i].clone());
            assert(dims.deep_view() =~= before.push(dimensions.deep_view()[i as int]));
            i = i + 1;
            assert(dims.deep_view() =~= dimensions.deep_view().subrange(0, i as int));
        }
        assert(dimensions.deep_view().subrange(0, i as int) =~= dimensions.deep_view());
        DimensionWiseQueryPlan {
            account_doctype: "Account",
            account_fields,
            account_order_by: "lft",
            account_filters,
            gl_doctype: "GL Entry",
            gl_fields,
            gl_conditions,
            gl_order_by: "account, posting_date",
            finance_book: match &filters.finance_book {
                Some(b) => b.clone(),
                None => String::new(),
            },
            company_default_finance_book: if filters.include_default_book_entries {
                match &filters.default_finance_book {
                    Some(b) => Some(b.clone()),
                    None => None,
                }
            } else {
                None
            },
            dimensions: dims,
        }
    }
}

/// The names of the dimension's records, only those of the filtered company
/// when the dimension belongs to companies.
pub open spec fn spec_dimensions(company: Seq<char>, has_company: bool, records: Seq<DimensionRecord>) -> Seq<Seq<char>>
    decreases records.len(),
{
    if records.len() == 0 {
        Seq::empty()
    } else {
        let before = spec_dimensions(company, has_company, records.drop_last());
        let r = records.last();
        if !has_company || (r.company matches Some(c) && c@ == company) { before.push(r.name@) } else { before }
    }
}

pub fn get_dimensions(filters: &DimensionWiseFilters, meta: &DimensionMeta, records: &[DimensionRecord]) -> (r: Vec<String>)
    ensures
        r.deep_view() == spec_dimensions(filters.company@, meta.has_company, records@),
{
    let mut r: Vec<String> = Vec::new();
    let mut i: usize = 0;
    while i < records.len()
        invariant
            i <= records@.len(),
            r.deep_view() == spec_dimensions(filters.company@, meta.has_company, records@.subrange(0, i as int)),
        decreases records@.len() - i,
    {
        assert(records@.subrange(0, i + 1).drop_last() =~= records@.subrange(0, i as int));
        let record = &records[i];
        let keep = !meta.has_company || match &record.company {
            Some(c) => str_eq(c.as_str(), filters.company.as_str()),
            None => false,
        };
        if keep {
            let ghost before = r.deep_view();
            r.push(record.name.clone());
            assert(r.deep_view() =~= before.push(record.name@));
        }
        i = i + 1;
    }
    assert(records@.subrange(0, i as int) =~= records@);
    r
}

/// The account, the hidden currency, one amount per dimension value, and the
/// total.
pub open spec fn spec_columns(dimensions: Seq<Seq<char>>) -> Seq<ColumnView> {
    seq![("account"@, "Account"@, "Link"@, "Account"@, Some(300u16), false), ("currency"@, "Currency"@, "Link"@, "Currency"@, None, true)]
    + Seq::new(dimensions.len(), |i: int| (scrubbed_runs(dimensions[i]), dimensions[i], "Currency"@, "currency"@, Some(150u16), false))
    + seq![("total"@, "Total"@, "Currency"@, "currency"@, Some(150u16), false)]
}

pub fn get_columns(dimension_list: &[String]) -> (r: Vec<ReportColumn>)
    ensures
        r.deep_view() == spec_columns(dimension_list.deep_view()),
{
    let mut columns = vec![
        ReportColumn::link("Account", "account", "Account", 300),
        ReportColumn::hidden_link("Currency", "currency", "Currency"),
    ];
    let ghost head = columns.deep_view();
    let ghost dims = dimension_list.deep_view();
    let mut i: usize = 0;
    while i < dimension_list.len()
        invariant
            i <= dimension_list@.len(),
            dims == dimension_list.deep_view(),
            columns.deep_view() == head + Seq::new(i as nat, |j: int| (scrubbed_runs(dims[j]), dims[j], "Currency"@, "currency"@, Some(150u16), false)),
        decreases dimension_list@.len() - i,
    {
        let d = dimension_list[i].as_str();
        let c = ReportColumn::currency(d, scrub_runs(d).as_str(), 150);
        let ghost before = columns.deep_view();
        columns.push(c);
        assert(columns.deep_view() =~= before.push(c.deep_view()));
        i = i + 1;
        assert(columns.deep_view() =~= head + Seq::new(i as nat, |j: int| (scrubbed_runs(dims[j]), dims[j], "Currency"@, "currency"@, Some(150u16), false)));
    }
    let c = ReportColumn::currency("Total", "total", 150);
    let ghost before = columns.deep_view();
    columns.push(c);
    assert(columns.deep_view() =~= before.push(c.deep_view()));
    assert(columns.deep_view() =~= spec_columns(dims));
    columns
}

pub fn get_condition(dimension: &str) -> (r: String)
    ensures
        r@ == " and "@ + scrubbed_runs(dimension@) + " in %(dimensions)s"@,
{
    concat(concat(" and ", scrub_runs(dimension).as_str()).as_str(), " in %(dimensions)s")
}

} // verus!
