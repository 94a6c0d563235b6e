//! Cash flow: the sections of the statement with the account types each
//! gathers, and the date a period's amounts are counted from.
use vstd::prelude::*;
use crate::text::{owned, str_eq};

verus! {

#[derive(Debug, PartialEq, Eq)]
pub struct CashFlowFilters {
    pub company: String,
    pub company_currency: String,
    pub accumulated_values: bool,
    pub accumulated_in_group_company: bool,
    pub show_opening_and_closing_balance: bool,
    pub report_template: bool,
}

#[derive(Debug, PartialEq, Eq)]
pub struct CashFlowPeriod {
    pub key: String,
    pub label: String,
    pub from_date: String,
    pub to_date: String,
    pub year_start_date: String,
}

impl CashFlowPeriod {
    pub fn new(key: &str, label: &str, from_date: &str, to_date: &str, year_start_date: &str) -> (r: Self)
        ensures
            r.key@ == key@,
            r.label@ == label@,
            r.from_date@ == from_date@,
            r.to_date@ == to_date@,
            r.year_start_date@ == year_start_date@,
    {
        CashFlowPeriod {
            key: owned(key),
            label: owned(label),
            from_date: owned(from_date),
            to_date: owned(to_date),
            year_start_date: owned(year_start_date),
        }
    }
}

/// A section of the statement: its name, footer and header, and the account
/// types whose changes it shows.
#[derive(Debug, PartialEq, Eq)]
pub struct CashFlowSection {
    pub section_name: &'static str,
    pub section_footer: &'static str,
    pub section_header: &'static str,
    pub account_types: Vec<CashFlowAccountType>,
}

/// An account type and the label of its line.
#[derive(Debug, PartialEq, Eq)]
pub struct CashFlowAccountType {
    pub account_type: &'static str,
    pub label: &'static str,
}

impl DeepView for CashFlowAccountType {
    type V = (Seq<char>, Seq<char>);

    open spec fn deep_view(&self) -> (Seq<char>, Seq<char>) {
        (self.account_type@, self.label@)
    }
}

impl DeepView for CashFlowSection {
    type V = (Seq<char>, Seq<char>, Seq<char>, Seq<(Seq<char>, Seq<char>)>);

    open spec fn deep_view(&self) -> (Seq<char>, Seq<char>, Seq<char>, Seq<(Seq<char>, Seq<char>)>) {
        (self.section_name@, self.section_footer@, self.section_header@, self.account_types.deep_view())
    }
}

pub open spec fn spec_sections() -> Seq<(Seq<char>, Seq<char>, Seq<char>, Seq<(Seq<char>, Seq<char>)>)> {
    seq![
        ("Operations"@, "Net Cash from Operations"@, "Cash Flow from Operations"@, seq![
            ("Depreciation"@, "Depreciation"@),
            ("Receivable"@, "Net Change in Accounts Receivable"@),
            ("Payable"@, "Net Change in Accounts Payable"@),
            ("Stock"@, "Net Change in Inventory"@),
        ]),
        ("Investing"@, "Net Cash from Investing"@, "Cash Flow from Investing"@, seq![("Fixed Asset"@, "Net Change in Fixed Asset"@)]),
        ("Financing"@, "Net Cash from Financing"@, "Cash Flow from Financing"@, seq![("Equity"@, "Net Change in Equity"@)]),
    ]
}

pub fn get_cash_flow_accounts() -> (r: Vec<CashFlowSection>)
    ensures
        r.deep_view() == spec_sections(),
{
    let r = vec![
        CashFlowSection {
            section_name: "Operations",
            section_footer: "Net Cash from Operations",
            section_header: "Cash Flow from Operations",
            account_types: vec![
                CashFlowAccountType { account_type: "Depreciation", label: "Depreciation" },
                CashFlowAccountType { account_type: "Receivable", label: "Net Change in Accounts Receivable" },
                CashFlowAccountType { account_type: "Payable", label: "Net Change in Accounts Payable" },
                CashFlowAccountType { account_type: "Stock", label: "Net Change in Inventory" },
            ],
        },
        CashFlowSection {
            section_name: "Investing",
            section_footer: "Net Cash from Investing",
            section_header: "Cash Flow from Investing",
            account_types: vec![CashFlowAccountType { account_type: "Fixed Asset", label: "Net Change in Fixed Asset" }],
        },
        CashFlowSection {
            section_name: "Financing",
            section_footer: "Net Cash from Financing",
            section_header: "Cash Flow from Financing",
            account_types: vec![CashFlowAccountType { account_type: "Equity", label: "Net Change in Equity" }],
        },
    ];
    assert(r.deep_view() =~~= spec_sections());
    r
}

/// The date a period's amounts are counted from: its own start when values
/// are not accumulated and it has one, the fiscal year's start when values are
/// accumulated, else the start of the period's year.
pub fn get_start_date(period: &CashFlowPeriod, accumulated_values: bool, fiscal_year_start: &str) -> (r: String)
    ensures
        r@ == if !accumulated_values && period.from_date@.len() > 0 {
            period.from_date@
        } else if accumulated_values {
            fiscal_year_start@
        } else {
            period.year_start_date@
        },
{
    if !accumulated_values && !period.from_date.as_str().is_empty() {
        return period.from_date.clone();
    }
    if accumulated_values {
        return owned(fiscal_year_start);
    }
    period.year_start_date.clone()
}

/// A label within single quotes, as total rows name themselves.
pub fn quoted(value: &str) -> (r: String)
    ensures
        r@ == seq!['\''] + value@ + seq!['\''],
{
    let mut r = owned("'");
    r.append(value);
    r.append("'");
    proof { reveal_strlit("'"); }
    assert(r@ =~= seq!['\''] + value@ + seq!['\'']);
    r
}

/// A period counts toward a total row unless totals are accumulated in the
/// group company and neither its key nor its label is that company.
pub open spec fn counts_toward_total(p: (Seq<char>, Seq<char>), company: Seq<char>, in_group_company: bool) -> bool {
    !in_group_company || p.0 == company || p.1 == company
}

/// The keys under which a total row adds up the periods that count toward
/// it, in their order: each period's label when consolidated, else its key.
pub open spec fn total_keys(periods: Seq<(Seq<char>, Seq<char>)>, company: Seq<char>, in_group_company: bool, consolidated: bool)
    -> Seq<Seq<char>>
    decreases periods.len(),
{
    if periods.len() == 0 {
        Seq::empty()
    } else {
        let before = total_keys(periods.drop_last(), company, in_group_company, consolidated);
        let p = periods.last();
        if counts_toward_total(p, company, in_group_company) {
            before.push(if consolidated { p.1 } else { p.0 })
        } else {
            before
        }
    }
}

pub open spec fn period_names(periods: Seq<CashFlowPeriod>) -> Seq<(Seq<char>, Seq<char>)> {
    Seq::new(periods.len(), |i: int| (periods[i].key@, periods[i].label@))
}

pub fn total_period_keys(period_list: &[CashFlowPeriod], filters: &CashFlowFilters, consolidated: bool) -> (r: Vec<String>)
    ensures
        r.deep_view() == total_keys(period_names(period_list@), filters.company@, filters.accumulated_in_group_company, consolidated),
{
    let ghost all = period_names(period_list@);
    let mut out: Vec<String> = Vec::new();
    let mut i: usize = 0;
    while i < period_list.len()
        invariant
            i <= period_list@.len(),
            all == period_names(period_list@),
            out.deep_view() == total_keys(all.subrange(0, i as int), filters.company@, filters.accumulated_in_group_company, consolidated),
        decreases period_list@.len() - i,
    {
        assert(all.subrange(0, i + 1).drop_last() =~= all.subrange(0, i as int));
        assert(all.subrange(0, i + 1).last() == all[i as int]);
        let p = &period_list[i];
        if !filters.accumulated_in_group_company || str_eq(p.key.as_str(), filters.company.as_str())
            || str_eq(p.label.as_str(), filters.company.as_str())
        {
            let ghost before = out.deep_view();
            out.push(if consolidated { p.label.clone() } else { p.key.clone() });
            assert(out.deep_view() =~= before.push(if consolidated { all[i as int].1 } else { all[i as int].0 }));
        }
        i = i + 1;
    }
    assert(all.subrange(0, i as int) =~= all);
    out
}

} // verus!
