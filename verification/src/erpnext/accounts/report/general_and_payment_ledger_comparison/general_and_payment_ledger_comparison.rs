//! General and payment ledger comparison: the queries on accounts and on both
//! ledgers, the receivable and payable accounts compared, and the columns.
use vstd::prelude::*;
use crate::text::{lex_less, owned, str_eq, str_less};

verus! {

#[derive(Debug, PartialEq, Eq)]
pub struct ComparisonFilters {
    pub company: String,
    pub account: Vec<String>,
    pub voucher_no: Option<String>,
    pub period_start_date: Option<String>,
    pub period_end_date: Option<String>,
    pub party_type: Option<String>,
    pub party: Option<String>,
}

#[derive(Debug, PartialEq, Eq)]
pub struct AccountRecord {
    pub name: String,
    pub company: String,
    pub account_type: String,
}

impl AccountRecord {
    pub fn new(name: &str, company: &str, account_type: &str) -> (r: Self)
        ensures
            r.name@ == name@,
            r.company@ == company@,
            r.account_type@ == account_type@,
    {
        AccountRecord { name: owned(name), company: owned(company), account_type: owned(account_type) }
    }
}

#[derive(Debug, PartialEq, Eq)]
pub struct ReportColumn {
    pub label: &'static str,
    pub fieldname: &'static str,
    pub fieldtype: &'static str,
    pub options: Option<&'static str>,
    pub width: &'static str,
}

/// label, field name, field type, options, width
pub type ColumnView = (Seq<char>, Seq<char>, Seq<char>, Option<Seq<char>>, Seq<char>);

impl DeepView for ReportColumn {
    type V = ColumnView;

    open spec fn deep_view(&self) -> ColumnView {
        (self.label@, self.fieldname@, self.fieldtype@, self.options.deep_view(), self.width@)
    }
}

impl ReportColumn {
    pub fn new(label: &'static str, fieldname: &'static str, fieldtype: &'static str, options: Option<&'static str>, width: &'static str)
        -> (r: Self)
        ensures
            r.deep_view() == (label@, fieldname@, fieldtype@, options.deep_view(), width@),
    {
        ReportColumn { label, fieldname, fieldtype, options, width }
    }
}

pub open spec fn spec_columns() -> Seq<ColumnView> {
    seq![
        ("Company"@, "company"@, "Link"@, Some("Company"@), "100"@),
        ("Account"@, "account"@, "Link"@, Some("Account"@), "100"@),
        ("Voucher Type"@, "voucher_type"@, "Data"@, None, "100"@),
        ("Voucher No"@, "voucher_no"@, "Dynamic Link"@, Some("voucher_type"@), "100"@),
        ("Party Type"@, "party_type"@, "Data"@, None, "100"@),
        ("Party"@, "party"@, "Dynamic Link"@, Some("party_type"@), "100"@),
        ("GL Balance"@, "gl_balance"@, "Currency"@, Some("Company:company:default_currency"@), "100"@),
        ("Payment Ledger Balance"@, "pl_balance"@, "Currency"@, Some("Company:company:default_currency"@), "100"@),
    ]
}

pub fn get_columns() -> (r: Vec<ReportColumn>)
    ensures
        r.deep_view() == spec_columns(),
{
    let r = vec![
        ReportColumn::new("Company", "company", "Link", Some("Company"), "100"),
        ReportColumn::new("Account", "account", "Link", Some("Account"), "100"),
        ReportColumn::new("Voucher Type", "voucher_type", "Data", None, "100"),
        ReportColumn::new("Voucher No", "voucher_no", "Dynamic Link", Some("voucher_type"), "100"),
        ReportColumn::new("Party Type", "party_type", "Data", None, "100"),
        ReportColumn::new("Party", "party", "Dynamic Link", Some("party_type"), "100"),
        ReportColumn::new("GL Balance", "gl_balance", "Currency", Some("Company:company:default_currency"), "100"),
        ReportColumn::new("Payment Ledger Balance", "pl_balance", "Currency", Some("Company:company:default_currency"), "100"),
    ];
    assert(r.deep_view() =~= spec_columns());
    r
}

/// The account query, the filters of both ledgers, the optional filters they
/// share, and the fields both are grouped by.
#[derive(Debug, PartialEq, Eq)]
pub struct ComparisonQueryPlan {
    pub account_doctype: &'static str,
    pub account_filters: Vec<String>,
    pub gl_doctype: &'static str,
    pub gl_base_filters: Vec<String>,
    pub ple_doctype: &'static str,
    pub ple_base_filters: Vec<String>,
    pub optional_filters: Vec<String>,
    pub group_by: Vec<&'static str>,
}

pub open spec fn when(cond: bool, items: Seq<Seq<char>>) -> Seq<Seq<char>> {
    if cond { items } else { Seq::empty() }
}

pub open spec fn spec_optional_filters(f: ComparisonFilters) -> Seq<Seq<char>> {
    when(f.voucher_no is Some, seq!["voucher_no = filters.voucher_no"@])
    + when(f.period_start_date is Some, seq!["posting_date >= filters.period_start_date"@])
    + when(f.period_end_date is Some, seq!["posting_date <= filters.period_end_date"@])
    + when(f.party_type is Some, seq!["party_type = filters.party_type"@])
    + when(f.party is Some, seq!["party = filters.party"@])
}

fn push_when(c: &mut Vec<String>, cond: bool, s: &str)
    ensures
        final(c).deep_view() == old(c).deep_view() + when(cond, seq![s@]),
{
    let ghost before = c.deep_view();
    if cond {
        c.push(owned(s));
    }
    assert(c.deep_view() =~= before + when(cond, seq![s@]));
}

impl ComparisonQueryPlan {
    pub fn for_filters(filters: &ComparisonFilters) -> (r: Self)
        ensures
            r.account_doctype@ == "Account"@,
            r.account_filters.deep_view() == seq!["company = filters.company"@, "account_type in ['Receivable', 'Payable']"@]
                + when(filters.account@.len() > 0, seq!["name in filters.account"@]),
            r.gl_doctype@ == "GL Entry"@,
            r.gl_base_filters.deep_view() == seq!["company = filters.company"@, "is_cancelled = 0"@, "account in account_type.accounts"@],
            r.ple_doctype@ == "Payment Ledger Entry"@,
            r.ple_base_filters.deep_view() == seq!["company = filters.company"@, "delinked = 0"@, "account in account_type.accounts"@],
            r.optional_filters.deep_view() == spec_optional_filters(*filters),
            r.group_by.deep_view() == seq!["company"@, "account"@, "voucher_type"@, "voucher_no"@, "party_type"@, "party"@],
    {
        let mut account_filters = vec![owned("company = filters.company"), owned("account_type in ['Receivable', 'Payable']")];
        let ghost head = account_filters.deep_view();
        push_when(&mut account_filters, filters.account.len() > 0, "name in filters.account");
        let mut optional: Vec<String> = Vec::new();
        let ghost e = optional.deep_view();
        assert(e =~= Seq::<Seq<char>>::empty());
        push_when(&mut optional, filters.voucher_no.is_some(), "voucher_no = filters.voucher_no");
        push_when(&mut optional, filters.period_start_date.is_some(), "posting_date >= filters.period_start_date");
        push_when(&mut optional, filters.period_end_date.is_some(), "posting_date <= filters.period_end_date");
        push_when(&mut optional, filters.party_type.is_some(), "party_type = filters.party_type");
        push_when(&mut optional, filters.party.is_some(), "party = filters.party");
        assert(optional.deep_view() =~= spec_optional_filters(*filters));
        let gl = vec![owned("company = filters.company"), owned("is_cancelled = 0"), owned("account in account_type.accounts")];
        assert(gl.deep_view() =~= seq!["company = filters.company"@, "is_cancelled = 0"@, "account in account_type.accounts"@]);
        let ple = vec![owned("company = filters.company"), owned("delinked = 0"), owned("account in account_type.accounts")];
        assert(ple.deep_view() =~= seq!["company = filters.company"@, "delinked = 0"@, "account in account_type.accounts"@]);
        let group_by = vec!["company", "account", "voucher_type", "voucher_no", "party_type", "party"];
        assert(group_by.deep_view() =~= seq!["company"@, "account"@, "voucher_type"@, "voucher_no"@, "party_type"@, "party"@]);
        ComparisonQueryPlan {
            account_doctype: "Account",
            account_filters,
            gl_doctype: "GL Entry",
            gl_base_filters: gl,
            ple_doctype: "Payment Ledger Entry",
            ple_base_filters: ple,
            optional_filters: optional,
            group_by,
        }
    }
}

/// The names of the company's accounts (of the filtered accounts, when some
/// are given) whose type is `account_type`, in order.
pub open spec fn accounts_of_type(f: ComparisonFilters, accounts: Seq<AccountRecord>, account_type: Seq<char>) -> Seq<Seq<char>>
    decreases accounts.len(),
{
    if accounts.len() == 0 {
        Seq::empty()
    } else {
        let before = accounts_of_type(f, accounts.drop_last(), account_type);
        let a = accounts.last();
        if a.company@ == f.company@ && (f.account@.len() == 0 || f.account.deep_view().contains(a.name@)) && a.account_type@ == account_type {
            before.push(a.name@)
        } else {
            before
        }
    }
}

fn holds(names: &Vec<String>, name: &str) -> (r: bool)
    ensures
        r == names.deep_view().contains(name@),
{
    let mut i: usize = 0;
    while i < names.len()
        invariant
            i <= names@.len(),
            forall|j: int| 0 <= j < i ==> names.deep_view()[j] != name@,
        decreases names@.len() - i,
    {
        if str_eq(names[i].as_str(), name) {
            assert(names.deep_view()[i as int] == name@);
            return true;
        }
        i = i + 1;
    }
    false
}

/// The receivable and the payable accounts to compare.
pub fn get_accounts(filters: &ComparisonFilters, accounts: &[AccountRecord]) -> (r: (Vec<String>, Vec<String>))
    ensures
        r.0.deep_view() == accounts_of_type(*filters, accounts@, "Receivable"@),
        r.1.deep_view() == accounts_of_type(*filters, accounts@, "Payable"@),
{
    let mut receivable: Vec<String> = Vec::new();
    let mut payable: Vec<String> = Vec::new();
    let mut i: usize = 0;
    while i < accounts.len()
        invariant
            i <= accounts@.len(),
            receivable.deep_view() == accounts_of_type(*filters, accounts@.subrange(0, i as int), "Receivable"@),
            payable.deep_view() == accounts_of_type(*filters, accounts@.subrange(0, i as int), "Payable"@),
        decreases accounts@.len() - i,
    {
        assert(accounts@.subrange(0, i + 1).drop_last() =~= accounts@.subrange(0, i as int));
        let a = &accounts[i];
        let kept = str_eq(a.company.as_str(), filters.company.as_str())
            && (filters.account.len() == 0 || holds(&filters.account, a.name.as_str()));
        if kept && str_eq(a.account_type.as_str(), "Receivable") {
            let ghost before = receivable.deep_view();
            receivable.push(a.name.clone());
            assert(receivable.deep_view() =~= before.push(a.name@));
        } else if kept && str_eq(a.account_type.as_str(), "Payable") {
            let ghost before = payable.deep_view();
            payable.push(a.name.clone());
            assert(payable.deep_view() =~= before.push(a.name@));
        }
        proof {
            if a.account_type@ == "Payable"@ {
                reveal_strlit("Payable");
                reveal_strlit("Receivable");
                assert("Payable"@[0] != "Receivable"@[0]);
            }
        }
        i = i + 1;
    }
    assert(accounts@.subrange(0, i as int) =~= accounts@);
    (receivable, payable)
}

fn listed(items: &[String], key: &str) -> (r: bool)
    ensures
        r == items.deep_view().contains(key@),
{
    let mut i: usize = 0;
    while i < items.len()
        invariant
            i <= items@.len(),
            forall|j: int| 0 <= j < i ==> #[trigger] items.deep_view()[j] != key@,
        decreases items@.len() - i,
    {
        if str_eq(items[i].as_str(), key) {
            assert(items.deep_view()[i as int] == key@);
            return true;
        }
        i = i + 1;
    }
    false
}

/// A set filter holds of a value when it names it; an unset one always holds.
pub open spec fn unset_or_is(filter: Option<String>, value: Seq<char>) -> bool {
    match filter {
        Some(v) => value == v@,
        None => true,
    }
}

/// A ledger entry the comparison takes: of the company, on one of the
/// accounts, and of the voucher, dates, party type and party filtered on.
pub open spec fn spec_matches_common(f: ComparisonFilters, company: Seq<char>, account: Seq<char>, voucher_no: Seq<char>,
    posting_date: Seq<char>, party_type: Seq<char>, party: Seq<char>, accounts: Seq<Seq<char>>) -> bool
{
    &&& company == f.company@
    &&& accounts.contains(account)
    &&& unset_or_is(f.voucher_no, voucher_no)
    &&& (f.period_start_date matches Some(d) ==> !lex_less(posting_date, d@))
    &&& (f.period_end_date matches Some(d) ==> !lex_less(d@, posting_date))
    &&& unset_or_is(f.party_type, party_type)
    &&& unset_or_is(f.party, party)
}

pub fn matches_common_filters(filters: &ComparisonFilters, company: &str, account: &str, voucher_no: &str, posting_date: &str,
    party_type: &str, party: &str, accounts: &[String]) -> (r: bool)
    ensures
        r == spec_matches_common(*filters, company@, account@, voucher_no@, posting_date@, party_type@, party@,
            accounts.deep_view()),
{
    if !str_eq(company, filters.company.as_str()) || !listed(accounts, account) {
        return false;
    }
    if let Some(v) = &filters.voucher_no {
        if !str_eq(voucher_no, v.as_str()) { return false; }
    }
    if let Some(d) = &filters.period_start_date {
        if str_less(posting_date, d.as_str()) { return false; }
    }
    if let Some(d) = &filters.period_end_date {
        if str_less(d.as_str(), posting_date) { return false; }
    }
    if let Some(v) = &filters.party_type {
        if !str_eq(party_type, v.as_str()) { return false; }
    }
    if let Some(v) = &filters.party {
        if !str_eq(party, v.as_str()) { return false; }
    }
    true
}

} // verus!
