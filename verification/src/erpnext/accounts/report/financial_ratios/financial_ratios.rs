//! Financial ratios: completing the filters from the fiscal years, and the
//! columns with the period keys they show.
use vstd::prelude::*;
use crate::text::{owned, str_eq};

verus! {

#[derive(Debug, PartialEq, Eq)]
pub enum FinancialRatioError {
    FiscalYearNotFound,
}

#[derive(Debug, PartialEq, Eq)]
pub struct FinancialRatioFilters {
    pub from_fiscal_year: String,
    pub to_fiscal_year: String,
    pub company: String,
    pub period_start_date: Option<String>,
    pub period_end_date: Option<String>,
    pub filter_based_on: Option<String>,
    pub periodicity: Option<String>,
}

impl FinancialRatioFilters {
    pub fn new(from_fiscal_year: &str, to_fiscal_year: &str, company: &str) -> (r: Self)
        ensures
            r.from_fiscal_year@ == from_fiscal_year@,
            r.to_fiscal_year@ == to_fiscal_year@,
            r.company@ == company@,
            r.period_start_date is None,
            r.period_end_date is None,
            r.filter_based_on is None,
            r.periodicity is None,
    {
        FinancialRatioFilters {
            from_fiscal_year: owned(from_fiscal_year),
            to_fiscal_year: owned(to_fiscal_year),
            company: owned(company),
            period_start_date: None,
            period_end_date: None,
            filter_based_on: None,
            periodicity: None,
        }
    }
}

#[derive(Debug, PartialEq, Eq)]
pub struct FiscalYearSpan {
    pub name: String,
    pub start_date: String,
    pub end_date: String,
}

impl FiscalYearSpan {
    pub fn new(name: &str, start_date: &str, end_date: &str) -> (r: Self)
        ensures
            r.name@ == name@,
            r.start_date@ == start_date@,
            r.end_date@ == end_date@,
    {
        FiscalYearSpan { name: owned(name), start_date: owned(start_date), end_date: owned(end_date) }
    }
}

#[derive(Debug, PartialEq, Eq)]
pub struct Period {
    pub key: String,
    pub label: String,
    pub from_date: String,
    pub to_date: String,
}

impl Period {
    pub fn new(key: &str, label: &str, from_date: &str, to_date: &str) -> (r: Self)
        ensures
            r.key@ == key@,
            r.label@ == label@,
            r.from_date@ == from_date@,
            r.to_date@ == to_date@,
    {
        Period { key: owned(key), label: owned(label), from_date: owned(from_date), to_date: owned(to_date) }
    }
}

#[derive(Debug, PartialEq, Eq)]
pub struct RatioColumn {
    pub label: String,
    pub fieldname: String,
    pub fieldtype: &'static str,
    pub width: u16,
}

/// label, field name, field type, width
pub type ColumnView = (Seq<char>, Seq<char>, Seq<char>, u16);

impl DeepView for RatioColumn {
    type V = ColumnView;

    open spec fn deep_view(&self) -> ColumnView {
        (self.label@, self.fieldname@, self.fieldtype@, self.width)
    }
}

impl RatioColumn {
    pub fn data(label: &str, fieldname: &str, width: u16) -> (r: Self)
        ensures
            r.deep_view() == (label@, fieldname@, "Data"@, width),
    {
        RatioColumn { label: owned(label), fieldname: owned(fieldname), fieldtype: "Data", width }
    }

    pub fn float(label: &str, fieldname: &str, width: u16) -> (r: Self)
        ensures
            r.deep_view() == (label@, fieldname@, "Float"@, width),
    {
        RatioColumn { label: owned(label), fieldname: owned(fieldname), fieldtype: "Float", width }
    }
}

/// The first fiscal year with the name.
pub open spec fn find_year(years: Seq<FiscalYearSpan>, name: Seq<char>) -> Option<FiscalYearSpan>
    decreases years.len(),
{
    if years.len() == 0 {
        None
    } else if years[0].name@ == name {
        Some(years[0])
    } else {
        find_year(years.skip(1), name)
    }
}

fn find_fiscal_year<'a>(years: &'a [FiscalYearSpan], name: &str) -> (r: Option<&'a FiscalYearSpan>)
    ensures
        match (r, find_year(years@, name@)) {
            (Some(a), Some(b)) => *a == b,
            (None, None) => true,
            _ => false,
        },
{
    let mut i: usize = 0;
    assert(years@.skip(0) =~= years@);
    while i < years.len() && !str_eq(years[i].name.as_str(), name)
        invariant
            i <= years@.len(),
            find_year(years@, name@) == find_year(years@.skip(i as int), name@),
        decreases years@.len() - i,
    {
        assert(years@.skip(i as int).skip(1) =~= years@.skip(i + 1));
        i = i + 1;
    }
    if i == years.len() {
        None
    } else {
        assert(years@.skip(i as int)[0] == years@[i as int]);
        Some(&years[i])
    }
}

/// Bases the filters on fiscal years and fills in the missing period start
/// (from the first fiscal year) and end (from the last); an error when a
/// fiscal year needed is not known, with the start already filled when only
/// the end failed.
pub fn setup_filters(filters: &mut FinancialRatioFilters, fiscal_years: &[FiscalYearSpan]) -> (r: Result<(), FinancialRatioError>)
    ensures
        final(filters).from_fiscal_year == old(filters).from_fiscal_year,
        final(filters).to_fiscal_year == old(filters).to_fiscal_year,
        final(filters).company == old(filters).company,
        final(filters).periodicity == old(filters).periodicity,
        final(filters).filter_based_on matches Some(b) && b@ == "Fiscal Year"@,
        ({
            let start_missing = old(filters).period_start_date is None && find_year(fiscal_years@, old(filters).from_fiscal_year@) is None;
            let end_missing = old(filters).period_end_date is None && find_year(fiscal_years@, old(filters).to_fiscal_year@) is None;
            &&& r is Err <==> start_missing || end_missing
            &&& !start_missing ==> match old(filters).period_start_date {
                Some(d) => final(filters).period_start_date == Some(d),
                None => final(filters).period_start_date matches Some(d)
                    && d@ == find_year(fiscal_years@, old(filters).from_fiscal_year@)->0.start_date@,
            }
            &&& start_missing ==> final(filters).period_start_date is None
            &&& r is Ok ==> match old(filters).period_end_date {
                Some(d) => final(filters).period_end_date == Some(d),
                None => final(filters).period_end_date matches Some(d)
                    && d@ == find_year(fiscal_years@, old(filters).to_fiscal_year@)->0.end_date@,
            }
        }),
{
    filters.filter_based_on = Some(owned("Fiscal Year"));
    if filters.period_start_date.is_none() {
        match find_fiscal_year(fiscal_years, filters.from_fiscal_year.as_str()) {
            Some(y) => filters.period_start_date = Some(y.start_date.clone()),
            None => return Err(FinancialRatioError::FiscalYearNotFound),
        }
    }
    if filters.period_end_date.is_none() {
        match find_fiscal_year(fiscal_years, filters.to_fiscal_year.as_str()) {
            Some(y) => filters.period_end_date = Some(y.end_date.clone()),
            None => return Err(FinancialRatioError::FiscalYearNotFound),
        }
    }
    Ok(())
}

/// The ratio column, then one column per period, with the periods' keys.
pub fn get_columns(period_list: &[Period]) -> (r: (Vec<RatioColumn>, Vec<String>))
    ensures
        r.0.deep_view() == seq![("Ratios"@, "ratio"@, "Data"@, 200u16)]
            + Seq::new(period_list@.len(), |i: int| (period_list@[i].label@, period_list@[i].key@, "Float"@, 150u16)),
        r.1.deep_view() == Seq::new(period_list@.len(), |i: int| period_list@[i].key@),
{
    let mut columns = vec![RatioColumn::data("Ratios", "ratio", 200)];
    let mut years: Vec<String> = Vec::new();
    let ghost head = columns.deep_view();
    let mut i: usize = 0;
    while i < period_list.len()
        invariant
            i <= period_list@.len(),
            head == seq![("Ratios"@, "ratio"@, "Data"@, 200u16)],
            columns.deep_view() == head + Seq::new(i as nat, |j: int| (period_list@[j].label@, period_list@[j].key@, "Float"@, 150u16)),
            years.deep_view() == Seq::new(i as nat, |j: int| period_list@[j].key@),
        decreases period_list@.len() - i,
    {
        let p = &period_list[i];
        let c = RatioColumn::float(p.label.as_str(), p.key.as_str(), 150);
        let ghost before = columns.deep_view();
        let ghost ybefore = years.deep_view();
        columns.push(c);
        years.push(p.key.clone());
        assert(columns.deep_view() =~= before.push(c.deep_view()));
        assert(years.deep_view() =~= ybefore.push(p.key@));
        i = i + 1;
        assert(columns.deep_view() =~= head + Seq::new(i as nat, |j: int| (period_list@[j].label@, period_list@[j].key@, "Float"@, 150u16)));
        assert(years.deep_view() =~= Seq::new(i as nat, |j: int| period_list@[j].key@));
    }
    (columns, years)
}

/// What an account entry does for a ratio's balances.
#[derive(Debug, PartialEq, Eq, Clone, Copy)]
pub enum RatioAction {
    /// Nothing.
    Ignore,
    /// The ratio's value becomes the entry's value.
    SetRatio,
    /// The entry's value adds to the running net, which becomes the ratio's value.
    AddToRatio,
    /// The entry's value adds to the running net, which becomes the net value.
    AddToNet,
}

/// The part an entry plays for a ratio: whether its value is the total of
/// its root type (a group without parent), negated for direct expenses, and
/// what it does besides.
#[derive(Debug, PartialEq, Eq, Clone, Copy)]
pub struct BalanceRole {
    pub sets_total: bool,
    pub negate_total: bool,
    pub action: RatioAction,
}

pub open spec fn is_type(t: Option<Seq<char>>, s: Seq<char>) -> bool {
    t == Some(s)
}

pub open spec fn spec_balance_role(has_parent: bool, is_group: bool, entry_type: Option<Seq<char>>, account_type: Seq<char>,
    root_type: Seq<char>) -> BalanceRole {
    BalanceRole {
        sets_total: !has_parent && is_group,
        negate_total: account_type == "Direct Expense"@,
        action: if root_type == "Asset"@ || root_type == "Liability"@ {
            if is_type(entry_type, account_type) && is_group { RatioAction::SetRatio }
            else if (is_type(entry_type, "Bank"@) || is_type(entry_type, "Cash"@) || is_type(entry_type, "Receivable"@)) && !is_group {
                RatioAction::AddToNet
            } else { RatioAction::Ignore }
        } else if root_type == "Income"@ {
            if is_type(entry_type, account_type) && is_group { RatioAction::AddToRatio } else { RatioAction::Ignore }
        } else if root_type == "Expense"@ && account_type == "Cost of Goods Sold"@ {
            if is_type(entry_type, account_type) { RatioAction::AddToRatio } else { RatioAction::Ignore }
        } else if is_type(entry_type, account_type) && is_group {
            RatioAction::SetRatio
        } else {
            RatioAction::Ignore
        },
    }
}

fn type_is(t: &Option<String>, s: &str) -> (r: bool)
    ensures
        r == is_type(t.deep_view(), s@),
{
    match t {
        Some(x) => str_eq(x.as_str(), s),
        None => false,
    }
}

/// The part an account entry plays in the balances of a ratio.
pub fn balance_role(has_parent: bool, is_group: bool, entry_type: &Option<String>, account_type: &str, root_type: &str)
    -> (r: BalanceRole)
    ensures
        r == spec_balance_role(has_parent, is_group, entry_type.deep_view(), account_type@, root_type@),
{
    let action = if str_eq(root_type, "Asset") || str_eq(root_type, "Liability") {
        if type_is(entry_type, account_type) && is_group { RatioAction::SetRatio }
        else if (type_is(entry_type, "Bank") || type_is(entry_type, "Cash") || type_is(entry_type, "Receivable")) && !is_group {
            RatioAction::AddToNet
        } else { RatioAction::Ignore }
    } else if str_eq(root_type, "Income") {
        if type_is(entry_type, account_type) && is_group { RatioAction::AddToRatio } else { RatioAction::Ignore }
    } else if str_eq(root_type, "Expense") && str_eq(account_type, "Cost of Goods Sold") {
        if type_is(entry_type, account_type) { RatioAction::AddToRatio } else { RatioAction::Ignore }
    } else if type_is(entry_type, account_type) && is_group {
        RatioAction::SetRatio
    } else {
        RatioAction::Ignore
    };
    BalanceRole { sets_total: !has_parent && is_group, negate_total: str_eq(account_type, "Direct Expense"), action }
}

} // verus!
