//! Account balance report: its column layout and the filter conditions it
//! hands to the account query.
use vstd::prelude::*;

verus! {

#[derive(Debug, PartialEq, Eq)]
pub struct AccountBalanceFilters {
    pub company: Option<String>,
    pub account_type: Option<String>,
    pub root_type: Option<String>,
    pub report_date: Option<String>,
}

#[derive(Debug, PartialEq, Eq)]
pub struct ReportColumn {
    pub label: &'static str,
    pub fieldtype: &'static str,
    pub fieldname: &'static str,
    pub options: &'static str,
    pub hidden: bool,
    pub width: u16,
}

/// What a column shows: label, field type, field name, options, hidden, width.
pub type ColumnView = (Seq<char>, Seq<char>, Seq<char>, Seq<char>, bool, u16);

impl DeepView for ReportColumn {
    type V = ColumnView;

    open spec fn deep_view(&self) -> ColumnView {
        (self.label@, self.fieldtype@, self.fieldname@, self.options@, self.hidden, self.width)
    }
}

pub open spec fn column(label: Seq<char>, fieldtype: Seq<char>, fieldname: Seq<char>, options: Seq<char>, hidden: bool, width: u16) -> ColumnView {
    (label, fieldtype, fieldname, options, hidden, width)
}

#[derive(Debug, PartialEq, Eq)]
pub struct AccountBalanceAccount {
    pub name: String,
    pub account_currency: String,
}

impl ReportColumn {
    pub fn link(label: &'static str, fieldname: &'static str, options: &'static str, width: u16) -> (r: Self)
        ensures
            r.deep_view() == column(label@, "Link"@, fieldname@, options@, false, width),
    {
        ReportColumn { label, fieldtype: "Link", fieldname, options, hidden: false, width }
    }

    pub fn currency(label: &'static str, fieldname: &'static str, options: &'static str, width: u16) -> (r: Self)
        ensures
            r.deep_view() == column(label@, "Currency"@, fieldname@, options@, false, width),
    {
        ReportColumn { label, fieldtype: "Currency", fieldname, options, hidden: false, width }
    }

    pub fn hidden(self) -> (r: Self)
        ensures
            r.deep_view() == (self.deep_view().0, self.deep_view().1, self.deep_view().2, self.deep_view().3, true, self.deep_view().5),
    {
        let mut s = self;
        s.hidden = true;
        s
    }
}

impl AccountBalanceAccount {
    pub fn new(name: &str, account_currency: &str) -> (r: Self)
        ensures
            r.name@ == name@,
            r.account_currency@ == account_currency@,
    {
        AccountBalanceAccount { name: name.to_string(), account_currency: account_currency.to_string() }
    }
}

pub open spec fn spec_columns() -> Seq<ColumnView> {
    seq![
        column("Account"@, "Link"@, "account"@, "Account"@, false, 200),
        column("Currency"@, "Link"@, "currency"@, "Currency"@, true, 100),
        column("Balance"@, "Currency"@, "balance"@, "currency"@, false, 100),
    ]
}

pub fn get_columns() -> (r: Vec<ReportColumn>)
    ensures
        r.deep_view() == spec_columns(),
{
    let r = vec![
        ReportColumn::link("Account", "account", "Account", 200),
        ReportColumn::link("Currency", "currency", "Currency", 100).hidden(),
        ReportColumn::currency("Balance", "balance", "currency", 100),
    ];
    assert(r.deep_view() =~= spec_columns());
    r
}

pub open spec fn opt_condition(name: Seq<char>, value: Option<String>) -> Seq<(Seq<char>, Seq<char>)> {
    match value {
        Some(v) => seq![(name, v@)],
        None => seq![],
    }
}

/// The (field, value) pairs of the filters that are set, in the order
/// account type, company, root type.
pub open spec fn spec_conditions(filters: AccountBalanceFilters) -> Seq<(Seq<char>, Seq<char>)> {
    opt_condition("account_type"@, filters.account_type) + opt_condition("company"@, filters.company)
        + opt_condition("root_type"@, filters.root_type)
}

pub fn get_conditions(filters: &AccountBalanceFilters) -> (r: Vec<(&'static str, &str)>)
    ensures
        r.deep_view() == spec_conditions(*filters),
{
    let mut conditions: Vec<(&'static str, &str)> = Vec::new();
    if let Some(account_type) = &filters.account_type {
        conditions.push(("account_type", account_type.as_str()));
    }
    if let Some(company) = &filters.company {
        conditions.push(("company", company.as_str()));
    }
    if let Some(root_type) = &filters.root_type {
        conditions.push(("root_type", root_type.as_str()));
    }
    assert(conditions.deep_view() =~= spec_conditions(*filters));
    conditions
}

} // verus!
