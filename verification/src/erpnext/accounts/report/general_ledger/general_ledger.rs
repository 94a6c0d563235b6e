//! General ledger: the checks on the filters and parties, the currency the
//! ledger is shown in, the ledger query conditions, the grouping field, and
//! the columns.
use std::collections::BTreeMap;
use vstd::prelude::*;
use crate::erpnext::accounts::report::{map_get, map_keys};
use crate::erpnext::accounts::report::customer_ledger_summary::customer_ledger_summary::first_appearances;
use crate::order::{key_view, keys_view, opt_text, stable_order, stable_sorted, OrderKey};
use crate::text::{concat, lemma_ordered_texts, texts_hold, lex_less, ordered_texts, owned, replace_str, replaced_all, str_eq, str_less};

verus! {

#[derive(Debug, PartialEq, Eq)]
pub struct GeneralLedgerFilters {
    pub company: String,
    pub from_date: String,
    pub to_date: String,
    pub account: Vec<String>,
    pub party_type: Option<String>,
    pub party: Vec<String>,
    pub voucher_no: Option<String>,
    pub against_voucher_no: Option<String>,
    pub project: Vec<String>,
    pub cost_center: Vec<String>,
    pub finance_book: Option<String>,
    pub company_fb: Option<String>,
    pub include_default_book_entries: bool,
    pub categorize_by: Option<String>,
    pub group_by: Option<String>,
    pub show_cancelled_entries: bool,
    pub disable_opening_balance_calculation: bool,
    pub show_opening_entries: bool,
    pub include_dimensions: bool,
    pub show_remarks: bool,
    pub add_values_in_transaction_currency: bool,
    pub print_in_account_currency: bool,
    pub presentation_currency: Option<String>,
    pub account_currency: Option<String>,
    pub company_currency: Option<String>,
    pub show_amount_in_company_currency: bool,
    pub show_net_values_in_party_account: bool,
}

#[derive(Debug, PartialEq, Eq)]
pub struct AccountDetail {
    pub is_group: bool,
    pub account_currency: String,
    pub account_type: Option<String>,
    pub parent_account: Option<String>,
    pub lft: i32,
    pub rgt: i32,
}

/// Whether the account is a group, its currency, its nested-set bounds, its
/// type and its parent.
pub type AccountView = (bool, Seq<char>, i32, i32, Option<Seq<char>>, Option<Seq<char>>);

impl DeepView for AccountDetail {
    type V = AccountView;

    open spec fn deep_view(&self) -> AccountView {
        (self.is_group, self.account_currency@, self.lft, self.rgt, self.account_type.deep_view(),
            self.parent_account.deep_view())
    }
}

#[derive(Debug, PartialEq, Eq)]
pub struct CostCenterDetail {
    pub lft: i32,
    pub rgt: i32,
}

impl DeepView for CostCenterDetail {
    type V = (i32, i32);

    open spec fn deep_view(&self) -> (i32, i32) {
        (self.lft, self.rgt)
    }
}

#[derive(Debug, PartialEq, Eq)]
pub struct ReportColumn {
    pub label: String,
    pub fieldname: String,
    pub fieldtype: String,
    pub options: Option<String>,
    pub width: u16,
    pub hidden: bool,
}

/// label, field name, field type, options, width, hidden
pub type ColumnView = (Seq<char>, Seq<char>, Seq<char>, Option<Seq<char>>, u16, bool);

impl DeepView for ReportColumn {
    type V = ColumnView;

    open spec fn deep_view(&self) -> ColumnView {
        (self.label@, self.fieldname@, self.fieldtype@, self.options.deep_view(), self.width, self.hidden)
    }
}

pub open spec fn link_view(label: Seq<char>, fieldname: Seq<char>, options: Seq<char>, width: u16, hidden: bool) -> ColumnView {
    (label, fieldname, "Link"@, Some(options), width, hidden)
}

pub open spec fn data_view(label: Seq<char>, fieldname: Seq<char>, width: u16) -> ColumnView {
    (label, fieldname, "Data"@, None, width, false)
}

pub open spec fn currency_view(label: Seq<char>, fieldname: Seq<char>, options: Seq<char>, width: u16) -> ColumnView {
    (label, fieldname, "Currency"@, Some(options), width, false)
}

impl ReportColumn {
    pub fn link(label: &str, fieldname: &str, options: &str, width: u16, hidden: bool) -> (r: Self)
        ensures
            r.deep_view() == link_view(label@, fieldname@, options@, width, hidden),
    {
        ReportColumn { label: owned(label), fieldname: owned(fieldname), fieldtype: owned("Link"), options: Some(owned(options)), width, hidden }
    }

    pub fn data(label: &str, fieldname: &str, width: u16) -> (r: Self)
        ensures
            r.deep_view() == data_view(label@, fieldname@, width),
    {
        ReportColumn { label: owned(label), fieldname: owned(fieldname), fieldtype: owned("Data"), options: None, width, hidden: false }
    }

    pub fn currency(label: &str, fieldname: &str, options: &str, width: u16) -> (r: Self)
        ensures
            r.deep_view() == currency_view(label@, fieldname@, options@, width),
    {
        ReportColumn { label: owned(label), fieldname: owned(fieldname), fieldtype: owned("Currency"), options: Some(owned(options)), width, hidden: false }
    }
}

pub open spec fn opt_view(s: Option<String>) -> Option<Seq<char>> {
    match s {
        Some(v) => Some(v@),
        None => None,
    }
}

/// The entry field a categorisation groups by.
pub open spec fn group_field(categorize_by: Option<Seq<char>>) -> Seq<char> {
    match categorize_by {
        Some(c) => {
            if c == "Categorize by Party"@ { "party"@ }
            else if c == "Categorize by Voucher (Consolidated)"@ || c == "Categorize by Account"@ { "account"@ }
            else { "voucher_no"@ }
        },
        None => "voucher_no"@,
    }
}

pub fn get_group_by_field(group_by: Option<&str>) -> (r: &'static str)
    ensures
        r@ == group_field(match group_by { Some(g) => Some(g@), None => None }),
{
    match group_by {
        Some(g) => {
            if str_eq(g, "Categorize by Party") { "party" }
            else if str_eq(g, "Categorize by Voucher (Consolidated)") || str_eq(g, "Categorize by Account") { "account" }
            else { "voucher_no" }
        },
        None => "voucher_no",
    }
}

pub open spec fn when(cond: bool, items: Seq<Seq<char>>) -> Seq<Seq<char>> {
    if cond { items } else { Seq::empty() }
}

/// Opening entries are counted from the from-date on, unless opening balances
/// are computed (an account or party is filtered or the ledger is categorised
/// by account or party).
pub open spec fn from_date_applies(f: GeneralLedgerFilters) -> bool {
    f.disable_opening_balance_calculation
        || (f.account@.len() == 0 && f.party@.len() == 0
            && opt_view(f.categorize_by) != Some("Categorize by Account"@) && opt_view(f.categorize_by) != Some("Categorize by Party"@))
}

/// The finance-book condition.
pub open spec fn finance_book_condition(f: GeneralLedgerFilters) -> Seq<char> {
    if f.include_default_book_entries {
        if f.finance_book is Some { "(finance_book in (%(finance_book)s, '') OR finance_book IS NULL)"@ }
        else { "(finance_book in (%(company_fb)s, '') OR finance_book IS NULL)"@ }
    } else if f.finance_book is Some {
        "(finance_book in (%(finance_book)s, '') OR finance_book IS NULL)"@
    } else {
        "(finance_book in ('') OR finance_book IS NULL)"@
    }
}

/// The conditions on accounts, cost centers, vouchers and parties.
pub open spec fn filter_conditions(f: GeneralLedgerFilters) -> Seq<Seq<char>> {
    when(f.account@.len() > 0, seq!["account in %(account)s"@])
    + when(f.cost_center@.len() > 0, seq!["cost_center in %(cost_center)s"@])
    + when(f.voucher_no is Some, seq!["voucher_no=%(voucher_no)s"@])
    + when(f.against_voucher_no is Some, seq!["against_voucher=%(against_voucher_no)s"@])
    + when(opt_view(f.categorize_by) == Some("Categorize by Party"@) && f.party_type is None, seq!["party_type in ('Customer', 'Supplier')"@])
    + when(f.party_type is Some, seq!["party_type=%(party_type)s"@])
    + when(f.party@.len() > 0, seq!["party in %(party)s"@])
}

/// The conditions on dates, projects, finance books and cancellation.
pub open spec fn period_conditions(f: GeneralLedgerFilters) -> Seq<Seq<char>> {
    when(from_date_applies(f), seq!["(posting_date >=%(from_date)s or is_opening = 'Yes')"@])
    + seq!["(posting_date <=%(to_date)s or is_opening = 'Yes')"@]
    + when(f.project@.len() > 0, seq!["project in %(project)s"@])
    + seq![finance_book_condition(f)]
    + when(!f.show_cancelled_entries, seq!["is_cancelled = 0"@])
}

pub open spec fn spec_conditions(f: GeneralLedgerFilters) -> Seq<Seq<char>> {
    filter_conditions(f) + period_conditions(f)
}

fn push_condition(c: &mut Vec<String>, s: &str)
    ensures
        final(c).deep_view() == old(c).deep_view().push(s@),
{
    let ghost before = c.deep_view();
    c.push(owned(s));
    assert(c.deep_view() =~= before.push(s@));
}

fn is_categorized(f: &GeneralLedgerFilters, name: &str) -> (r: bool)
    ensures
        r == (opt_view(f.categorize_by) == Some(name@)),
{
    match &f.categorize_by {
        Some(c) => str_eq(c.as_str(), name),
        None => false,
    }
}

fn push_when(c: &mut Vec<String>, cond: bool, s: &str)
    ensures
        final(c).deep_view() == old(c).deep_view() + when(cond, seq![s@]),
{
    let ghost before = c.deep_view();
    if cond {
        push_condition(c, s);
    }
    assert(c.deep_view() =~= before + when(cond, seq![s@]));
}

#[verifier::spinoff_prover]
#[verifier::rlimit(100)]
fn push_filter_conditions(c: &mut Vec<String>, f: &GeneralLedgerFilters)
    ensures
        final(c).deep_view() == old(c).deep_view() + filter_conditions(*f),
{
    let ghost s0 = c.deep_view();
    let ghost w1 = when(f.account@.len() > 0, seq!["account in %(account)s"@]);
    let ghost w2 = when(f.cost_center@.len() > 0, seq!["cost_center in %(cost_center)s"@]);
    let ghost w3 = when(f.voucher_no is Some, seq!["voucher_no=%(voucher_no)s"@]);
    let ghost w4 = when(f.against_voucher_no is Some, seq!["against_voucher=%(against_voucher_no)s"@]);
    let ghost w5 = when(opt_view(f.categorize_by) == Some("Categorize by Party"@) && f.party_type is None, seq!["party_type in ('Customer', 'Supplier')"@]);
    let ghost w6 = when(f.party_type is Some, seq!["party_type=%(party_type)s"@]);
    let ghost w7 = when(f.party@.len() > 0, seq!["party in %(party)s"@]);
    push_when(c, f.account.len() > 0, "account in %(account)s");
    push_when(c, f.cost_center.len() > 0, "cost_center in %(cost_center)s");
    assert(c.deep_view() =~= s0 + (w1 + w2));
    push_when(c, f.voucher_no.is_some(), "voucher_no=%(voucher_no)s");
    assert(c.deep_view() =~= s0 + (w1 + w2 + w3));
    push_when(c, f.against_voucher_no.is_some(), "against_voucher=%(against_voucher_no)s");
    assert(c.deep_view() =~= s0 + (w1 + w2 + w3 + w4));
    let party_types = is_categorized(f, "Categorize by Party") && f.party_type.is_none();
    push_when(c, party_types, "party_type in ('Customer', 'Supplier')");
    assert(c.deep_view() =~= s0 + (w1 + w2 + w3 + w4 + w5));
    push_when(c, f.party_type.is_some(), "party_type=%(party_type)s");
    assert(c.deep_view() =~= s0 + (w1 + w2 + w3 + w4 + w5 + w6));
    push_when(c, f.party.len() > 0, "party in %(party)s");
    assert(c.deep_view() =~= s0 + (w1 + w2 + w3 + w4 + w5 + w6 + w7));
    assert(filter_conditions(*f) == w1 + w2 + w3 + w4 + w5 + w6 + w7);
}

fn push_period_conditions(c: &mut Vec<String>, f: &GeneralLedgerFilters)
    ensures
        final(c).deep_view() == old(c).deep_view() + period_conditions(*f),
{
    let ghost s0 = c.deep_view();
    if f.disable_opening_balance_calculation || (f.account.len() == 0 && f.party.len() == 0
        && !is_categorized(f, "Categorize by Account") && !is_categorized(f, "Categorize by Party")) {
        push_condition(c, "(posting_date >=%(from_date)s or is_opening = 'Yes')");
    }
    let ghost s1 = c.deep_view();
    push_condition(c, "(posting_date <=%(to_date)s or is_opening = 'Yes')");
    let ghost s2 = c.deep_view();
    if f.project.len() > 0 { push_condition(c, "project in %(project)s"); }
    let ghost s3 = c.deep_view();
    if f.include_default_book_entries {
        if f.finance_book.is_some() {
            push_condition(c, "(finance_book in (%(finance_book)s, '') OR finance_book IS NULL)");
        } else {
            push_condition(c, "(finance_book in (%(company_fb)s, '') OR finance_book IS NULL)");
        }
    } else if f.finance_book.is_some() {
        push_condition(c, "(finance_book in (%(finance_book)s, '') OR finance_book IS NULL)");
    } else {
        push_condition(c, "(finance_book in ('') OR finance_book IS NULL)");
    }
    if !f.show_cancelled_entries { push_condition(c, "is_cancelled = 0"); }
    assert(s1 =~= s0 + when(from_date_applies(*f), seq!["(posting_date >=%(from_date)s or is_opening = 'Yes')"@]));
    assert(s3 =~= s2 + when(f.project@.len() > 0, seq!["project in %(project)s"@]));
    assert(c.deep_view() =~= s0 + period_conditions(*f));
}

pub fn get_conditions(filters: &GeneralLedgerFilters) -> (r: Vec<String>)
    ensures
        r.deep_view() == spec_conditions(*filters),
{
    let mut c: Vec<String> = Vec::new();
    push_filter_conditions(&mut c, filters);
    push_period_conditions(&mut c, filters);
    assert(c.deep_view() =~= spec_conditions(*filters));
    c
}

/// An amount column's label: the amount's name and its currency.
pub open spec fn amount_title(name: Seq<char>, currency: Seq<char>) -> Seq<char> {
    name + " ("@ + currency + ")"@
}

/// The currency amounts are shown in: the presentation currency, else the
/// company's.
pub open spec fn shown_currency(f: GeneralLedgerFilters, company_currency: Seq<char>) -> Seq<char> {
    match f.presentation_currency {
        Some(p) => p@,
        None => company_currency,
    }
}

/// The ledger's columns, amounts in the presentation currency (the company's
/// when none is given); an error when amounts are to be shown in the company
/// currency but another presentation currency is chosen.
pub open spec fn spec_columns(f: GeneralLedgerFilters, company_currency: Seq<char>) -> Result<Seq<ColumnView>, Seq<char>> {
    let currency = shown_currency(f, company_currency);
    if f.show_amount_in_company_currency && currency != company_currency {
        Err("Presentation Currency cannot be used when Show Credit / Debit in Company Currency is enabled."@)
    } else {
        Ok(seq![
            link_view("GL Entry"@, "gl_entry"@, "GL Entry"@, 0, true),
            data_view("Posting Date"@, "posting_date"@, 120),
            link_view("Account"@, "account"@, "Account"@, 180, false),
            currency_view(amount_title("Debit"@, currency), "debit"@, "presentation_currency"@, 130),
            currency_view(amount_title("Credit"@, currency), "credit"@, "presentation_currency"@, 130),
            currency_view(amount_title("Balance"@, currency), "balance"@, "presentation_currency"@, 130),
        ]
        + (if f.add_values_in_transaction_currency {
            seq![
                currency_view("Debit (Transaction)"@, "debit_in_transaction_currency"@, "transaction_currency"@, 130),
                currency_view("Credit (Transaction)"@, "credit_in_transaction_currency"@, "transaction_currency"@, 130),
                link_view("Transaction Currency"@, "transaction_currency"@, "Currency"@, 70, false),
            ]
        } else {
            Seq::empty()
        })
        + seq![
            data_view("Voucher Type"@, "voucher_type"@, 120),
            data_view("Voucher Subtype"@, "voucher_subtype"@, 180),
            link_view("Voucher No"@, "voucher_no"@, "voucher_type"@, 180, false),
            data_view("Against Account"@, "against"@, 120),
            data_view("Party Type"@, "party_type"@, 100),
            data_view("Party"@, "party"@, 100),
            data_view("Party Name"@, "party_name"@, 150),
            data_view("Against Voucher Type"@, "against_voucher_type"@, 100),
            link_view("Against Voucher"@, "against_voucher"@, "against_voucher_type"@, 100, false),
            data_view("Supplier Invoice No"@, "bill_no"@, 100),
        ]
        + (if f.show_remarks { seq![data_view("Remarks"@, "remarks"@, 400)] } else { Seq::empty() }))
    }
}

fn push_column(columns: &mut Vec<ReportColumn>, c: ReportColumn)
    ensures
        final(columns).deep_view() == old(columns).deep_view().push(c.deep_view()),
{
    let ghost before = columns.deep_view();
    columns.push(c);
    assert(columns.deep_view() =~= before.push(c.deep_view()));
}

fn amount_label(name: &str, currency: &str) -> (r: String)
    ensures
        r@ == amount_title(name@, currency@),
{
    concat(concat(concat(name, " (").as_str(), currency).as_str(), ")")
}

/// The ledger's columns for the filters, with `company_currency` the
/// company's own currency.
pub fn get_columns(filters: &GeneralLedgerFilters, company_currency: &str) -> (r: Result<Vec<ReportColumn>, String>)
    ensures
        match (r, spec_columns(*filters, company_currency@)) {
            (Ok(v), Ok(s)) => v.deep_view() == s,
            (Err(e), Err(s)) => e@ == s,
            _ => false,
        },
{
    let currency: &str = match &filters.presentation_currency {
        Some(p) => p.as_str(),
        None => company_currency,
    };
    if filters.show_amount_in_company_currency && !str_eq(currency, company_currency) {
        return Err(owned("Presentation Currency cannot be used when Show Credit / Debit in Company Currency is enabled."));
    }
    let mut c: Vec<ReportColumn> = Vec::new();
    assert(c.deep_view() =~= Seq::<ColumnView>::empty());
    push_column(&mut c, ReportColumn::link("GL Entry", "gl_entry", "GL Entry", 0, true));
    push_column(&mut c, ReportColumn::data("Posting Date", "posting_date", 120));
    push_column(&mut c, ReportColumn::link("Account", "account", "Account", 180, false));
    push_column(&mut c, ReportColumn::currency(amount_label("Debit", currency).as_str(), "debit", "presentation_currency", 130));
    push_column(&mut c, ReportColumn::currency(amount_label("Credit", currency).as_str(), "credit", "presentation_currency", 130));
    push_column(&mut c, ReportColumn::currency(amount_label("Balance", currency).as_str(), "balance", "presentation_currency", 130));
    let ghost s1 = c.deep_view();
    let ghost cur = shown_currency(*filters, company_currency@);
    assert(currency@ == cur);
    assert(s1 =~= seq![
        link_view("GL Entry"@, "gl_entry"@, "GL Entry"@, 0, true),
        data_view("Posting Date"@, "posting_date"@, 120),
        link_view("Account"@, "account"@, "Account"@, 180, false),
        currency_view(amount_title("Debit"@, cur), "debit"@, "presentation_currency"@, 130),
        currency_view(amount_title("Credit"@, cur), "credit"@, "presentation_currency"@, 130),
        currency_view(amount_title("Balance"@, cur), "balance"@, "presentation_currency"@, 130),
    ]);
    if filters.add_values_in_transaction_currency {
        push_column(&mut c, ReportColumn::currency("Debit (Transaction)", "debit_in_transaction_currency", "transaction_currency", 130));
        push_column(&mut c, ReportColumn::currency("Credit (Transaction)", "credit_in_transaction_currency", "transaction_currency", 130));
        push_column(&mut c, ReportColumn::link("Transaction Currency", "transaction_currency", "Currency", 70, false));
    }
    let ghost s2 = c.deep_view();
    push_column(&mut c, ReportColumn::data("Voucher Type", "voucher_type", 120));
    push_column(&mut c, ReportColumn::data("Voucher Subtype", "voucher_subtype", 180));
    push_column(&mut c, ReportColumn::link("Voucher No", "voucher_no", "voucher_type", 180, false));
    push_column(&mut c, ReportColumn::data("Against Account", "against", 120));
    push_column(&mut c, ReportColumn::data("Party Type", "party_type", 100));
    push_column(&mut c, ReportColumn::data("Party", "party", 100));
    push_column(&mut c, ReportColumn::data("Party Name", "party_name", 150));
    push_column(&mut c, ReportColumn::data("Against Voucher Type", "against_voucher_type", 100));
    push_column(&mut c, ReportColumn::link("Against Voucher", "against_voucher", "against_voucher_type", 100, false));
    push_column(&mut c, ReportColumn::data("Supplier Invoice No", "bill_no", 100));
    let ghost s3 = c.deep_view();
    if filters.show_remarks {
        push_column(&mut c, ReportColumn::data("Remarks", "remarks", 400));
    }
    assert(c.deep_view() =~= spec_columns(*filters, company_currency@)->Ok_0);
    Ok(c)
}

/// The first name the map does not hold.
pub open spec fn first_missing<V>(names: Seq<Seq<char>>, m: Map<Seq<char>, V>) -> Option<Seq<char>>
    decreases names.len(),
{
    if names.len() == 0 {
        None
    } else if !m.contains_key(names[0]) {
        Some(names[0])
    } else {
        first_missing(names.skip(1), m)
    }
}

fn find_missing<V: DeepView>(names: &[String], m: &BTreeMap<String, V>) -> (r: Option<usize>)
    ensures
        match (r, first_missing(names.deep_view(), m.deep_view())) {
            (Some(i), Some(n)) => i < names@.len() && names.deep_view()[i as int] == n,
            (None, None) => true,
            _ => false,
        },
{
    let ghost all = names.deep_view();
    let mut i: usize = 0;
    assert(all.skip(0) =~= all);
    while i < names.len() && map_get(m, names[i].as_str()).is_some()
        invariant
            i <= names@.len(),
            all == names.deep_view(),
            first_missing(all, m.deep_view()) == first_missing(all.skip(i as int), m.deep_view()),
        decreases names@.len() - i,
    {
        assert(all.skip(i as int)[0] == all[i as int]);
        assert(all.skip(i as int).skip(1) =~= all.skip(i + 1));
        i = i + 1;
    }
    if i == names.len() {
        None
    } else {
        assert(all.skip(i as int)[0] == all[i as int]);
        Some(i)
    }
}

/// The categorisation the report uses: the one given, else the grouping
/// given with "Group by" read as "Categorize by".
pub open spec fn categorization(f: GeneralLedgerFilters) -> Option<Seq<char>> {
    match f.categorize_by {
        Some(c) => Some(c@),
        None => match f.group_by {
            Some(g) => Some(replaced_all(g@, "Group by"@, "Categorize by"@)),
            None => None,
        },
    }
}

/// The checks before the categorisation is settled.
pub open spec fn early_error(f: GeneralLedgerFilters, accounts: Map<Seq<char>, AccountView>, cost_centers: Map<Seq<char>, (i32, i32)>)
    -> Option<Seq<char>>
{
    if f.print_in_account_currency && f.account@.len() == 0 {
        Some("Select an account to print in account currency"@)
    } else if f.company@.len() == 0 {
        Some("Company is mandatory"@)
    } else if f.from_date@.len() == 0 && f.to_date@.len() == 0 {
        Some("From Date and To Date are mandatory"@)
    } else if first_missing(f.account.deep_view(), accounts) is Some {
        Some("Account "@ + first_missing(f.account.deep_view(), accounts)->0 + " does not exists"@)
    } else if first_missing(f.cost_center.deep_view(), cost_centers) is Some {
        Some("Cost Center: "@ + first_missing(f.cost_center.deep_view(), cost_centers)->0 + " does not exist"@)
    } else {
        None
    }
}

/// An account filter that is no group, while categorising by account.
pub open spec fn has_child_account(accounts: Seq<Seq<char>>, details: Map<Seq<char>, AccountView>) -> bool {
    exists|i: int| 0 <= i < accounts.len() && !(details.contains_key(#[trigger] accounts[i]) && details[accounts[i]].0)
}

/// The checks once the categorisation is settled.
pub open spec fn late_error(f: GeneralLedgerFilters, accounts: Map<Seq<char>, AccountView>) -> Option<Seq<char>> {
    let cat = categorization(f);
    if f.account@.len() > 0 && cat == Some("Categorize by Account"@) && has_child_account(f.account.deep_view(), accounts) {
        Some("Can not filter based on Child Account, if grouped by Account"@)
    } else if f.voucher_no is Some && cat == Some("Categorize by Voucher"@) {
        Some("Can not filter based on Voucher No, if grouped by Voucher"@)
    } else if lex_less(f.to_date@, f.from_date@) {
        Some("From Date must be before To Date"@)
    } else if f.include_default_book_entries && (f.finance_book matches Some(fb) && (f.company_fb matches Some(cfb)
        && cfb@.len() > 0 && fb@ != cfb@)) {
        Some("To use a different finance book, please uncheck 'Include Default FB Entries'"@)
    } else {
        None
    }
}

fn all_groups(accounts: &[String], details: &BTreeMap<String, AccountDetail>) -> (r: bool)
    ensures
        r == !has_child_account(accounts.deep_view(), details.deep_view()),
{
    let ghost all = accounts.deep_view();
    let mut i: usize = 0;
    while i < accounts.len()
        invariant
            i <= accounts@.len(),
            all == accounts.deep_view(),
            forall|j: int| 0 <= j < i ==> details.deep_view().contains_key(#[trigger] all[j]) && details.deep_view()[all[j]].0,
        decreases accounts@.len() - i,
    {
        let is_group = match map_get(details, accounts[i].as_str()) {
            Some(d) => d.is_group,
            None => false,
        };
        if !is_group {
            assert(!(details.deep_view().contains_key(all[i as int]) && details.deep_view()[all[i as int]].0));
            return false;
        }
        i = i + 1;
    }
    true
}

/// Checks the filters, settling the categorisation on the way: the filters
/// are left as they were when an early check fails, and otherwise only gain
/// the categorisation.
pub fn validate_filters(filters: &mut GeneralLedgerFilters, accounts: &BTreeMap<String, AccountDetail>,
    cost_centers: &BTreeMap<String, CostCenterDetail>) -> (r: Result<(), String>)
    ensures
        ({
            let early = early_error(*old(filters), accounts.deep_view(), cost_centers.deep_view());
            &&& early is Some ==> *final(filters) == *old(filters) && (r matches Err(e) && e@ == early->0)
            &&& early is None ==> {
                &&& *final(filters) == (GeneralLedgerFilters { categorize_by: final(filters).categorize_by, ..*old(filters) })
                &&& opt_view(final(filters).categorize_by) == categorization(*old(filters))
                &&& match late_error(*old(filters), accounts.deep_view()) {
                    Some(m) => r matches Err(e) && e@ == m,
                    None => r is Ok,
                }
            }
        }),
{
    if filters.print_in_account_currency && filters.account.len() == 0 {
        return Err(owned("Select an account to print in account currency"));
    }
    if filters.company.as_str().is_empty() {
        return Err(owned("Company is mandatory"));
    }
    if filters.from_date.as_str().is_empty() && filters.to_date.as_str().is_empty() {
        return Err(owned("From Date and To Date are mandatory"));
    }
    match find_missing(filters.account.as_slice(), accounts) {
        Some(i) => {
            let head = concat("Account ", filters.account[i].as_str());
            return Err(concat(head.as_str(), " does not exists"));
        },
        None => {},
    }
    match find_missing(filters.cost_center.as_slice(), cost_centers) {
        Some(i) => {
            let head = concat("Cost Center: ", filters.cost_center[i].as_str());
            return Err(concat(head.as_str(), " does not exist"));
        },
        None => {},
    }
    if filters.categorize_by.is_none() {
        proof {
            reveal_strlit("Group by");
        }
        let cat = match &filters.group_by {
            Some(g) => Some(replace_str(g.as_str(), "Group by", "Categorize by")),
            None => None,
        };
        filters.categorize_by = cat;
    }
    let by_account = is_categorized(filters, "Categorize by Account");
    if filters.account.len() > 0 && by_account && !all_groups(filters.account.as_slice(), accounts) {
        return Err(owned("Can not filter based on Child Account, if grouped by Account"));
    }
    if filters.voucher_no.is_some() && is_categorized(filters, "Categorize by Voucher") {
        return Err(owned("Can not filter based on Voucher No, if grouped by Voucher"));
    }
    if str_less(filters.to_date.as_str(), filters.from_date.as_str()) {
        return Err(owned("From Date must be before To Date"));
    }
    if filters.include_default_book_entries {
        match (&filters.finance_book, &filters.company_fb) {
            (Some(fb), Some(cfb)) => {
                if !cfb.as_str().is_empty() && !str_eq(fb.as_str(), cfb.as_str()) {
                    return Err(owned("To use a different finance book, please uncheck 'Include Default FB Entries'"));
                }
            },
            _ => {},
        }
    }
    Ok(())
}

/// The first party that is not among the valid parties of the party type.
pub open spec fn invalid_party(parties: Seq<Seq<char>>, valid: Seq<Seq<char>>) -> Option<Seq<char>>
    decreases parties.len(),
{
    if parties.len() == 0 {
        None
    } else if !valid.contains(parties[0]) {
        Some(parties[0])
    } else {
        invalid_party(parties.skip(1), valid)
    }
}

/// With a party type and parties given, every party must be a valid party of
/// that type; the error names the first that is not.
pub open spec fn spec_validate_party(f: GeneralLedgerFilters, valid_parties: Map<Seq<char>, Seq<Seq<char>>>) -> Option<Seq<char>> {
    match f.party_type {
        Some(pt) => {
            let valid = if valid_parties.contains_key(pt@) { valid_parties[pt@] } else { Seq::empty() };
            if f.party@.len() > 0 && invalid_party(f.party.deep_view(), valid) is Some {
                Some("Invalid "@ + pt@ + ": "@ + invalid_party(f.party.deep_view(), valid)->0)
            } else {
                None
            }
        },
        None => None,
    }
}

fn holds(names: &Vec<String>, name: &str) -> (r: bool)
    ensures
        r == names.deep_view().contains(name@),
{
    let mut i: usize = 0;
    while i < names.len()
        invariant
            i <= names@.len(),
            forall|j: int| 0 <= j < i ==> names.deep_view()[j] != name@,
        decreases names@.len() - i,
    {
        if str_eq(names[i].as_str(), name) {
            assert(names.deep_view()[i as int] == name@);
            return true;
        }
        i = i + 1;
    }
    false
}

pub fn validate_party(filters: &GeneralLedgerFilters, valid_parties: &BTreeMap<String, Vec<String>>) -> (r: Result<(), String>)
    ensures
        match spec_validate_party(*filters, valid_parties.deep_view()) {
            Some(m) => r matches Err(e) && e@ == m,
            None => r is Ok,
        },
{
    let pt = match &filters.party_type {
        Some(pt) => pt,
        None => return Ok(()),
    };
    if filters.party.len() == 0 {
        return Ok(());
    }
    let empty: Vec<String> = Vec::new();
    let valid: &Vec<String> = match map_get(valid_parties, pt.as_str()) {
        Some(v) => v,
        None => &empty,
    };
    assert(empty.deep_view() =~= Seq::<Seq<char>>::empty());
    let ghost vs = valid.deep_view();
    let ghost all = filters.party.deep_view();
    assert(vs == (if valid_parties.deep_view().contains_key(pt@) { valid_parties.deep_view()[pt@] } else { Seq::<Seq<char>>::empty() }));
    let mut i: usize = 0;
    assert(all.skip(0) =~= all);
    while i < filters.party.len()
        invariant
            i <= filters.party@.len(),
            all == filters.party.deep_view(),
            vs == valid.deep_view(),
            vs == (if valid_parties.deep_view().contains_key(pt@) { valid_parties.deep_view()[pt@] } else { Seq::<Seq<char>>::empty() }),
            filters.party_type == Some(*pt),
            all.len() > 0,
            invalid_party(all, vs) == invalid_party(all.skip(i as int), vs),
        decreases filters.party@.len() - i,
    {
        assert(all.skip(i as int)[0] == all[i as int]);
        if !holds(valid, filters.party[i].as_str()) {
            assert(invalid_party(all.skip(i as int), vs) == Some(all[i as int]));
            let head = concat(concat("Invalid ", pt.as_str()).as_str(), ": ");
            return Err(concat(head.as_str(), filters.party[i].as_str()));
        }
        assert(all.skip(i as int).skip(1) =~= all.skip(i + 1));
        i = i + 1;
    }
    Ok(())
}

/// A row of a tree table: name, nested-set bounds, and whether the rows within
/// its bounds are taken along with it.
pub type BoundRow = (Seq<char>, i32, i32, bool);

/// The accounts in ascending order of name, each with its bounds; a group's
/// sub-accounts are taken along with it.
pub open spec fn account_table(details: Map<Seq<char>, AccountView>) -> Seq<BoundRow> {
    let keys = ordered_texts(details.dom());
    Seq::new(keys.len(), |i: int| (keys[i], details[keys[i]].2, details[keys[i]].3, details[keys[i]].0))
}

/// The cost centers in ascending order of name, each with its bounds; every
/// cost center takes those within its bounds along.
pub open spec fn cost_center_table(centers: Map<Seq<char>, (i32, i32)>) -> Seq<BoundRow> {
    let keys = ordered_texts(centers.dom());
    Seq::new(keys.len(), |i: int| (keys[i], centers[keys[i]].0, centers[keys[i]].1, true))
}

/// The index of the row with the name, the first one.
pub open spec fn row_index(table: Seq<BoundRow>, name: Seq<char>) -> Option<int>
    decreases table.len(),
{
    if table.len() == 0 {
        None
    } else if table[0].0 == name {
        Some(0)
    } else {
        match row_index(table.skip(1), name) {
            Some(k) => Some(k + 1),
            None => None,
        }
    }
}

proof fn lemma_row_index(table: Seq<BoundRow>, name: Seq<char>)
    ensures
        row_index(table, name) matches Some(k) ==> 0 <= k < table.len() && table[k].0 == name,
    decreases table.len(),
{
    if table.len() > 0 {
        lemma_row_index(table.skip(1), name);
    }
}

/// `s` with the names of the rows within the bounds appended, in the table's
/// order, each that is not there yet.
pub open spec fn add_within(s: Seq<Seq<char>>, table: Seq<BoundRow>, lft: i32, rgt: i32) -> Seq<Seq<char>>
    decreases table.len(),
{
    if table.len() == 0 {
        s
    } else {
        let before = add_within(s, table.drop_last(), lft, rgt);
        let row = table.last();
        if row.1 >= lft && row.2 <= rgt && !before.contains(row.0) { before.push(row.0) } else { before }
    }
}

/// The names given, each once, each followed by the rows its bounds take
/// along where it is a row that takes them.
pub open spec fn expanded(names: Seq<Seq<char>>, table: Seq<BoundRow>) -> Seq<Seq<char>>
    decreases names.len(),
{
    if names.len() == 0 {
        Seq::empty()
    } else {
        let before = expanded(names.drop_last(), table);
        let name = names.last();
        let with_name = if before.contains(name) { before } else { before.push(name) };
        match row_index(table, name) {
            Some(i) => if table[i].3 { add_within(with_name, table, table[i].1, table[i].2) } else { with_name },
            None => with_name,
        }
    }
}

fn holds_text(items: &Vec<String>, key: &str) -> (r: bool)
    ensures
        r == items.deep_view().contains(key@),
{
    let mut i: usize = 0;
    while i < items.len()
        invariant
            i <= items@.len(),
            forall|j: int| 0 <= j < i ==> #[trigger] items.deep_view()[j] != key@,
        decreases items@.len() - i,
    {
        if str_eq(items[i].as_str(), key) {
            assert(items.deep_view()[i as int] == key@);
            return true;
        }
        i = i + 1;
    }
    false
}

/// name, left bound, right bound, takes rows along
pub type TableRow = (String, i32, i32, bool);

pub open spec fn table_view(table: Seq<TableRow>) -> Seq<BoundRow> {
    Seq::new(table.len(), |i: int| (table[i].0@, table[i].1, table[i].2, table[i].3))
}

fn find_row(table: &Vec<TableRow>, name: &str) -> (r: Option<usize>)
    ensures
        match (r, row_index(table_view(table@), name@)) {
            (Some(a), Some(b)) => a == b && a < table@.len(),
            (None, None) => true,
            _ => false,
        },
{
    let ghost all = table_view(table@);
    let mut i: usize = 0;
    assert(all.skip(0) =~= all);
    while i < table.len() && !str_eq(table[i].0.as_str(), name)
        invariant
            i <= all.len(),
            all == table_view(table@),
            match row_index(all, name@) {
                Some(j) => match row_index(all.skip(i as int), name@) { Some(j2) => j == j2 + i, None => false },
                None => row_index(all.skip(i as int), name@) is None,
            },
        decreases all.len() - i,
    {
        assert(all.skip(i as int)[0] == all[i as int]);
        assert(all.skip(i as int).skip(1) =~= all.skip(i + 1));
        i = i + 1;
    }
    if i == table.len() {
        None
    } else {
        assert(all.skip(i as int)[0] == all[i as int]);
        Some(i)
    }
}

fn add_rows_within(out: &mut Vec<String>, table: &Vec<TableRow>, lft: i32, rgt: i32)
    ensures
        final(out).deep_view() == add_within(old(out).deep_view(), table_view(table@), lft, rgt),
{
    let ghost start = out.deep_view();
    let ghost all = table_view(table@);
    let mut i: usize = 0;
    while i < table.len()
        invariant
            i <= all.len(),
            all == table_view(table@),
            out.deep_view() == add_within(start, all.subrange(0, i as int), lft, rgt),
        decreases all.len() - i,
    {
        assert(all.subrange(0, i + 1).drop_last() =~= all.subrange(0, i as int));
        assert(all.subrange(0, i + 1).last() == all[i as int]);
        let row = &table[i];
        if row.1 >= lft && row.2 <= rgt && !holds_text(out, row.0.as_str()) {
            let ghost before = out.deep_view();
            out.push(row.0.clone());
            assert(out.deep_view() =~= before.push(all[i as int].0));
        }
        i = i + 1;
    }
    assert(all.subrange(0, i as int) =~= all);
}

fn expand_names(names: &[String], table: &Vec<TableRow>) -> (r: Vec<String>)
    ensures
        r.deep_view() == expanded(names.deep_view(), table_view(table@)),
{
    let ghost all = names.deep_view();
    let ghost tv = table_view(table@);
    let mut out: Vec<String> = Vec::new();
    let mut i: usize = 0;
    while i < names.len()
        invariant
            i <= all.len(),
            all == names.deep_view(),
            tv == table_view(table@),
            out.deep_view() == expanded(all.subrange(0, i as int), tv),
        decreases all.len() - i,
    {
        assert(all.subrange(0, i + 1).drop_last() =~= all.subrange(0, i as int));
        assert(all.subrange(0, i + 1).last() == all[i as int]);
        let name = names[i].as_str();
        if !holds_text(&out, name) {
            let ghost before = out.deep_view();
            out.push(names[i].clone());
            assert(out.deep_view() =~= before.push(all[i as int]));
        }
        match find_row(table, name) {
            Some(k) => {
                proof { lemma_row_index(tv, name@); }
                if table[k].3 {
                    add_rows_within(&mut out, table, table[k].1, table[k].2);
                }
            },
            None => {},
        }
        i = i + 1;
    }
    assert(all.subrange(0, i as int) =~= all);
    out
}

fn account_rows(details: &BTreeMap<String, AccountDetail>) -> (r: Vec<TableRow>)
    ensures
        table_view(r@) == account_table(details.deep_view()),
{
    let keys = map_keys(details);
    let ghost kv = keys.deep_view();
    let ghost dv = details.deep_view();
    proof { lemma_ordered_texts(kv, dv.dom()); }
    let mut rows: Vec<TableRow> = Vec::new();
    let mut i: usize = 0;
    while i < keys.len()
        invariant
            i <= kv.len(),
            kv == keys.deep_view(),
            dv == details.deep_view(),
            kv == ordered_texts(dv.dom()),
            forall|k: Seq<char>| #[trigger] kv.contains(k) <==> dv.contains_key(k),
            table_view(rows@) == Seq::new(i as nat, |j: int| (kv[j], dv[kv[j]].2, dv[kv[j]].3, dv[kv[j]].0)),
        decreases kv.len() - i,
    {
        assert(kv.contains(kv[i as int]));
        let d = match map_get(details, keys[i].as_str()) {
            Some(d) => d,
            None => { assert(false); return rows; },
        };
        let ghost before = rows@;
        assert(keys@[i as int]@ == kv[i as int]);
        assert(d.deep_view() == dv[kv[i as int]]);
        let row: TableRow = (owned(keys[i].as_str()), d.lft, d.rgt, d.is_group);
        rows.push(row);
        assert(rows@ == before.push(row));
        assert(table_view(rows@) =~= table_view(before).push((kv[i as int], dv[kv[i as int]].2, dv[kv[i as int]].3, dv[kv[i as int]].0)));
        assert(table_view(rows@) =~= Seq::new((i + 1) as nat, |j: int| (kv[j], dv[kv[j]].2, dv[kv[j]].3, dv[kv[j]].0)));
        i = i + 1;
    }
    rows
}

fn cost_center_rows(centers: &BTreeMap<String, CostCenterDetail>) -> (r: Vec<TableRow>)
    ensures
        table_view(r@) == cost_center_table(centers.deep_view()),
{
    let keys = map_keys(centers);
    let ghost kv = keys.deep_view();
    let ghost dv = centers.deep_view();
    proof { lemma_ordered_texts(kv, dv.dom()); }
    let mut rows: Vec<TableRow> = Vec::new();
    let mut i: usize = 0;
    while i < keys.len()
        invariant
            i <= kv.len(),
            kv == keys.deep_view(),
            dv == centers.deep_view(),
            kv == ordered_texts(dv.dom()),
            forall|k: Seq<char>| #[trigger] kv.contains(k) <==> dv.contains_key(k),
            table_view(rows@) == Seq::new(i as nat, |j: int| (kv[j], dv[kv[j]].0, dv[kv[j]].1, true)),
        decreases kv.len() - i,
    {
        assert(kv.contains(kv[i as int]));
        let d = match map_get(centers, keys[i].as_str()) {
            Some(d) => d,
            None => { assert(false); return rows; },
        };
        let ghost before = rows@;
        assert(keys@[i as int]@ == kv[i as int]);
        assert(d.deep_view() == dv[kv[i as int]]);
        let row: TableRow = (owned(keys[i].as_str()), d.lft, d.rgt, true);
        rows.push(row);
        assert(rows@ == before.push(row));
        assert(table_view(rows@) =~= table_view(before).push((kv[i as int], dv[kv[i as int]].0, dv[kv[i as int]].1, true)));
        assert(table_view(rows@) =~= Seq::new((i + 1) as nat, |j: int| (kv[j], dv[kv[j]].0, dv[kv[j]].1, true)));
        i = i + 1;
    }
    rows
}

/// The accounts filtered on: each given account once, and after a group its
/// sub-accounts in order of name.
pub fn account_filter_with_children(accounts: &[String], details: &BTreeMap<String, AccountDetail>) -> (r: Vec<String>)
    ensures
        r.deep_view() == expanded(accounts.deep_view(), account_table(details.deep_view())),
{
    let table = account_rows(details);
    expand_names(accounts, &table)
}

/// The cost centers filtered on: each given one once, followed by those within
/// its bounds in order of name.
pub fn cost_center_filter_with_children(cost_centers: &[String], centers: &BTreeMap<String, CostCenterDetail>)
    -> (r: Vec<String>)
    ensures
        r.deep_view() == expanded(cost_centers.deep_view(), cost_center_table(centers.deep_view())),
{
    let table = cost_center_rows(centers);
    expand_names(cost_centers, &table)
}

/// The fields of a ledger entry that the selection reads.
#[derive(Debug, PartialEq, Eq)]
pub struct GlEntryKeys {
    pub posting_date: Option<String>,
    pub account: Option<String>,
    pub party_type: Option<String>,
    pub party: Option<String>,
    pub voucher_type: Option<String>,
    pub voucher_no: Option<String>,
    pub cost_center: Option<String>,
    pub project: Option<String>,
    pub against_voucher: Option<String>,
    pub creation: Option<String>,
    pub finance_book: Option<String>,
    pub is_cancelled: bool,
}

/// The entry's finance book, empty where it has none.
pub open spec fn book_text(book: Option<String>) -> Seq<char> {
    match book {
        Some(b) => b@,
        None => Seq::empty(),
    }
}

/// An entry without a finance book always counts; one with a book counts when
/// it is the book filtered on, or, with default-book entries included and no
/// book filtered on, the company's default book.
pub open spec fn book_matches(f: GeneralLedgerFilters, book: Option<String>) -> bool {
    let eb = book_text(book);
    eb.len() == 0 || match f.finance_book {
        Some(b) => eb == b@,
        None => f.include_default_book_entries && (f.company_fb matches Some(c) && eb == c@),
    }
}

pub open spec fn same_text(filter: Option<String>, value: Option<String>) -> bool {
    match filter {
        Some(v) => value matches Some(x) && x@ == v@,
        None => true,
    }
}

pub open spec fn among(list: Seq<Seq<char>>, value: Option<String>) -> bool {
    list.len() == 0 || (value matches Some(x) && list.contains(x@))
}

/// An entry the ledger shows: not cancelled unless cancelled ones are shown,
/// on an account and cost center among those filtered (with their children),
/// of a matching finance book, and of the voucher, against-voucher, party
/// type, parties and projects filtered on.
pub open spec fn entry_selected(f: GeneralLedgerFilters, accounts: Seq<Seq<char>>, centers: Seq<Seq<char>>, e: GlEntryKeys) -> bool {
    &&& (f.show_cancelled_entries || !e.is_cancelled)
    &&& among(accounts, e.account)
    &&& book_matches(f, e.finance_book)
    &&& same_text(f.voucher_no, e.voucher_no)
    &&& same_text(f.against_voucher_no, e.against_voucher)
    &&& same_text(f.party_type, e.party_type)
    &&& among(f.party.deep_view(), e.party)
    &&& among(f.project.deep_view(), e.project)
    &&& among(centers, e.cost_center)
}

/// What entries are ordered by: account, date and creation when categorised by
/// account; date, voucher type and number when by voucher; else date, account
/// and creation.
pub open spec fn entry_order_key(f: GeneralLedgerFilters, e: GlEntryKeys) -> OrderKey {
    let c = opt_text(f.categorize_by);
    if c == Some("Categorize by Account"@) {
        seq![opt_text(e.account), opt_text(e.posting_date), opt_text(e.creation)]
    } else if c == Some("Categorize by Voucher"@) || c == Some("Categorize by Voucher (Consolidated)"@) {
        seq![opt_text(e.posting_date), opt_text(e.voucher_type), opt_text(e.voucher_no)]
    } else {
        seq![opt_text(e.posting_date), opt_text(e.account), opt_text(e.creation)]
    }
}

/// The indices among the first `m` entries that the ledger shows.
pub open spec fn shown_entries(f: GeneralLedgerFilters, accounts: Seq<Seq<char>>, centers: Seq<Seq<char>>,
    entries: Seq<GlEntryKeys>, m: nat) -> Seq<int>
    decreases m,
{
    if m == 0 {
        Seq::empty()
    } else {
        let before = shown_entries(f, accounts, centers, entries, (m - 1) as nat);
        if entry_selected(f, accounts, centers, entries[m - 1]) { before.push(m - 1) } else { before }
    }
}

/// The entries shown, as indices, in the ledger's order.
pub open spec fn spec_gl_entries(f: GeneralLedgerFilters, entries: Seq<GlEntryKeys>,
    details: Map<Seq<char>, AccountView>, centers: Map<Seq<char>, (i32, i32)>) -> Seq<int>
{
    let accounts = expanded(f.account.deep_view(), account_table(details));
    let cs = expanded(f.cost_center.deep_view(), cost_center_table(centers));
    let kept = shown_entries(f, accounts, cs, entries, entries.len());
    let keys = Seq::new(kept.len(), |j: int| entry_order_key(f, entries[kept[j]]));
    Seq::new(kept.len(), |j: int| kept[stable_sorted(keys, false, kept.len())[j]])
}

fn opt_matches(filter: &Option<String>, value: &Option<String>) -> (r: bool)
    ensures
        r == same_text(*filter, *value),
{
    match filter {
        Some(v) => match value {
            Some(x) => str_eq(x.as_str(), v.as_str()),
            None => false,
        },
        None => true,
    }
}

fn opt_among(list: &Vec<String>, value: &Option<String>) -> (r: bool)
    ensures
        r == among(list.deep_view(), *value),
{
    if list.len() == 0 {
        return true;
    }
    match value {
        Some(x) => holds_text(list, x.as_str()),
        None => false,
    }
}

fn finance_book_matches(e: &GlEntryKeys, f: &GeneralLedgerFilters) -> (r: bool)
    ensures
        r == book_matches(*f, e.finance_book),
{
    let empty = match &e.finance_book {
        Some(b) => b.as_str().is_empty(),
        None => true,
    };
    if empty {
        return true;
    }
    let eb = match &e.finance_book {
        Some(b) => b.as_str(),
        None => "",
    };
    match &f.finance_book {
        Some(b) => str_eq(eb, b.as_str()),
        None => f.include_default_book_entries && match &f.company_fb {
            Some(c) => str_eq(eb, c.as_str()),
            None => false,
        },
    }
}

fn entry_key(f: &GeneralLedgerFilters, e: &GlEntryKeys) -> (r: Vec<Option<String>>)
    ensures
        key_view(r@) == entry_order_key(*f, *e),
{
    let by_account = match &f.categorize_by {
        Some(c) => str_eq(c.as_str(), "Categorize by Account"),
        None => false,
    };
    let by_voucher = match &f.categorize_by {
        Some(c) => str_eq(c.as_str(), "Categorize by Voucher") || str_eq(c.as_str(), "Categorize by Voucher (Consolidated)"),
        None => false,
    };
    let r = if by_account {
        vec![e.account.clone(), e.posting_date.clone(), e.creation.clone()]
    } else if by_voucher {
        vec![e.posting_date.clone(), e.voucher_type.clone(), e.voucher_no.clone()]
    } else {
        vec![e.posting_date.clone(), e.account.clone(), e.creation.clone()]
    };
    assert(key_view(r@) =~= entry_order_key(*f, *e));
    r
}

/// The ledger entries shown, as indices into `entries`, in the ledger's
/// order: those that meet the filters, stably ordered by the categorisation.
pub fn get_gl_entries(filters: &GeneralLedgerFilters, entries: &[GlEntryKeys], accounts: &BTreeMap<String, AccountDetail>,
    cost_centers: &BTreeMap<String, CostCenterDetail>) -> (r: Vec<usize>)
    ensures
        r@.map_values(|v: usize| v as int) == spec_gl_entries(*filters, entries@, accounts.deep_view(), cost_centers.deep_view()),
{
    let account_filter = account_filter_with_children(filters.account.as_slice(), accounts);
    let center_filter = cost_center_filter_with_children(filters.cost_center.as_slice(), cost_centers);
    let ghost af = account_filter.deep_view();
    let ghost cf = center_filter.deep_view();
    let mut kept: Vec<usize> = Vec::new();
    let mut i: usize = 0;
    while i < entries.len()
        invariant
            i <= entries@.len(),
            af == account_filter.deep_view(),
            cf == center_filter.deep_view(),
            kept@.map_values(|v: usize| v as int) == shown_entries(*filters, af, cf, entries@, i as nat),
            forall|j: int| 0 <= j < kept@.len() ==> #[trigger] kept@[j] < i,
        decreases entries@.len() - i,
    {
        let e = &entries[i];
        let ok = (filters.show_cancelled_entries || !e.is_cancelled)
            && opt_among(&account_filter, &e.account)
            && finance_book_matches(e, filters)
            && opt_matches(&filters.voucher_no, &e.voucher_no)
            && opt_matches(&filters.against_voucher_no, &e.against_voucher)
            && opt_matches(&filters.party_type, &e.party_type)
            && opt_among(&filters.party, &e.party)
            && opt_among(&filters.project, &e.project)
            && opt_among(&center_filter, &e.cost_center);
        if ok {
            let ghost before = kept@.map_values(|v: usize| v as int);
            kept.push(i);
            assert(kept@.map_values(|v: usize| v as int) =~= before.push(i as int));
        }
        i = i + 1;
    }
    let ghost kept_view = kept@.map_values(|v: usize| v as int);
    let mut keys: Vec<Vec<Option<String>>> = Vec::new();
    let mut j: usize = 0;
    while j < kept.len()
        invariant
            j <= kept@.len(),
            kept_view == kept@.map_values(|v: usize| v as int),
            forall|q: int| 0 <= q < kept@.len() ==> #[trigger] kept@[q] < entries@.len(),
            keys_view(keys@) == Seq::new(j as nat, |q: int| entry_order_key(*filters, entries@[kept_view[q]])),
        decreases kept@.len() - j,
    {
        let k = entry_key(filters, &entries[kept[j]]);
        let ghost before = keys@;
        assert(kept_view[j as int] == kept@[j as int] as int);
        keys.push(k);
        assert(keys@ == before.push(k));
        assert(keys_view(keys@) =~= keys_view(before).push(key_view(k@)));
        assert(keys_view(keys@) =~= Seq::new((j + 1) as nat, |q: int| entry_order_key(*filters, entries@[kept_view[q]])));
        j = j + 1;
    }
    let order = stable_order(&keys, false);
    let ghost ord = stable_sorted(keys_view(keys@), false, keys@.len());
    let mut out: Vec<usize> = Vec::new();
    let mut q: usize = 0;
    while q < order.len()
        invariant
            q <= order@.len(),
            order@.len() == keys@.len(),
            keys@.len() == kept@.len(),
            ord == order@.map_values(|v: usize| v as int),
            forall|x: int| 0 <= x < order@.len() ==> #[trigger] order@[x] < keys@.len(),
            out@.map_values(|v: usize| v as int) == Seq::new(q as nat, |x: int| kept_view[ord[x]]),
            kept_view == kept@.map_values(|v: usize| v as int),
        decreases order@.len() - q,
    {
        let ghost before = out@.map_values(|v: usize| v as int);
        assert(ord[q as int] == order@[q as int] as int);
        assert(kept_view[ord[q as int]] == kept@[order@[q as int] as int] as int);
        out.push(kept[order[q]]);
        assert(out@.map_values(|v: usize| v as int) =~= before.push(kept_view[ord[q as int]]));
        assert(out@.map_values(|v: usize| v as int) =~= Seq::new((q + 1) as nat, |x: int| kept_view[ord[x]]));
        q = q + 1;
    }
    assert(keys_view(keys@) =~= Seq::new(kept_view.len(), |x: int| entry_order_key(*filters, entries@[kept_view[x]])));
    out
}

/// What the choice of a party's currency reads of a ledger entry.
#[derive(Debug, PartialEq, Eq)]
pub struct PartyCurrencyEntry {
    pub party_type: Option<String>,
    pub party: Option<String>,
    pub account_currency: Option<String>,
}

/// party type, party, account currency
pub type PartyCurrencyView = (Option<Seq<char>>, Option<Seq<char>>, Option<Seq<char>>);

impl DeepView for PartyCurrencyEntry {
    type V = PartyCurrencyView;

    open spec fn deep_view(&self) -> PartyCurrencyView {
        (self.party_type.deep_view(), self.party.deep_view(), self.account_currency.deep_view())
    }
}

/// The currency of the first entry of the party, if it has one; else, for a
/// party type other than employees, shareholders and members, the party's
/// own currency, if it has one.
pub open spec fn party_currency(entries: Seq<PartyCurrencyView>, party_type: Seq<char>, party: Seq<char>,
    party_currencies: Map<Seq<char>, Map<Seq<char>, Seq<char>>>) -> Option<Seq<char>> {
    let found = exists|i: int| 0 <= i < entries.len() && entries[i].0 == Some(party_type) && entries[i].1 == Some(party);
    let first = choose|i: int| 0 <= i < entries.len() && entries[i].0 == Some(party_type) && entries[i].1 == Some(party)
        && forall|j: int| 0 <= j < i ==> !(entries[j].0 == Some(party_type) && entries[j].1 == Some(party));
    if found && entries[first].2 is Some {
        entries[first].2
    } else if party_type == "Employee"@ || party_type == "Shareholder"@ || party_type == "Member"@ {
        None
    } else if party_currencies.contains_key(party_type) && party_currencies[party_type].contains_key(party) {
        Some(party_currencies[party_type][party])
    } else {
        None
    }
}

/// The currency that the filtered accounts share: the first account's
/// currency (the company's for an unknown account) when every account is
/// known and in it; otherwise none.
pub open spec fn shared_account_currency(account: Seq<Seq<char>>, company_currency: Seq<char>,
    accounts: Map<Seq<char>, AccountView>) -> Option<Seq<char>> {
    let first = if accounts.contains_key(account[0]) { accounts[account[0]].1 } else { company_currency };
    if forall|i: int| 0 <= i < account.len() ==> accounts.contains_key(#[trigger] account[i]) && accounts[account[i]].1
        == first {
        Some(first)
    } else {
        None
    }
}

/// The ledger's account currency: that of the filtered accounts, or of the
/// single filtered party; the company's where none is found.
pub open spec fn ledger_currency(f: GeneralLedgerFilters, company_currency: Seq<char>,
    accounts: Map<Seq<char>, AccountView>, entries: Seq<PartyCurrencyView>,
    party_currencies: Map<Seq<char>, Map<Seq<char>, Seq<char>>>) -> Seq<char> {
    let found = if f.account@.len() > 0 {
        shared_account_currency(f.account.deep_view(), company_currency, accounts)
    } else {
        match f.party_type {
            Some(pt) => party_currency(entries, pt@, f.party@[0]@, party_currencies),
            None => None,
        }
    };
    match found {
        Some(c) => c,
        None => company_currency,
    }
}

fn first_party_entry(entries: &[PartyCurrencyEntry], party_type: &str, party: &str) -> (r: Option<usize>)
    ensures
        match r {
            Some(i) => i < entries@.len() && entries.deep_view()[i as int].0 == Some(party_type@)
                && entries.deep_view()[i as int].1 == Some(party@) && forall|j: int| 0 <= j < i ==> !(
                entries.deep_view()[j].0 == Some(party_type@) && entries.deep_view()[j].1 == Some(party@)),
            None => forall|j: int| 0 <= j < entries@.len() ==> !(entries.deep_view()[j].0 == Some(party_type@)
                && entries.deep_view()[j].1 == Some(party@)),
        },
{
    let ghost ev = entries.deep_view();
    let mut i: usize = 0;
    while i < entries.len()
        invariant
            i <= entries@.len(),
            ev == entries.deep_view(),
            forall|j: int| 0 <= j < i ==> !(ev[j].0 == Some(party_type@) && ev[j].1 == Some(party@)),
        decreases entries@.len() - i,
    {
        let e = &entries[i];
        assert(ev[i as int] == e.deep_view());
        let hit = match (&e.party_type, &e.party) {
            (Some(t), Some(p)) => str_eq(t.as_str(), party_type) && str_eq(p.as_str(), party),
            _ => false,
        };
        if hit {
            return Some(i);
        }
        i = i + 1;
    }
    None
}

fn find_party_currency(entries: &[PartyCurrencyEntry], party_type: &str, party: &str,
    party_currencies: &BTreeMap<String, BTreeMap<String, String>>) -> (r: Option<String>)
    ensures
        r.deep_view() == party_currency(entries.deep_view(), party_type@, party@, party_currencies.deep_view()),
{
    let ghost ev = entries.deep_view();
    let found = first_party_entry(entries, party_type, party);
    proof {
        if let Some(i) = found {
            let first = choose|q: int| 0 <= q < ev.len() && ev[q].0 == Some(party_type@) && ev[q].1 == Some(party@)
                && forall|j: int| 0 <= j < q ==> !(ev[j].0 == Some(party_type@) && ev[j].1 == Some(party@));
            assert(0 <= i < ev.len() && ev[i as int].0 == Some(party_type@) && ev[i as int].1 == Some(party@));
            if first < i {
            } else if first > i {
            }
            assert(first == i as int);
        }
    }
    if let Some(i) = found {
        assert(ev[i as int] == entries@[i as int].deep_view());
        if let Some(c) = &entries[i].account_currency {
            return Some(owned(c.as_str()));
        }
    }
    if str_eq(party_type, "Employee") || str_eq(party_type, "Shareholder") || str_eq(party_type, "Member") {
        return None;
    }
    match map_get(party_currencies, party_type) {
        Some(parties) => match map_get(parties, party) {
            Some(c) => Some(owned(c.as_str())),
            None => None,
        },
        None => None,
    }
}

fn account_currency_of(accounts: &BTreeMap<String, AccountDetail>, name: &str, company_currency: &str) -> (r: String)
    ensures
        r@ == if accounts.deep_view().contains_key(name@) { accounts.deep_view()[name@].1 } else { company_currency@ },
{
    match map_get(accounts, name) {
        Some(d) => owned(d.account_currency.as_str()),
        None => owned(company_currency),
    }
}

fn shared_currency(account: &Vec<String>, company_currency: &str, accounts: &BTreeMap<String, AccountDetail>) -> (r: Option<String>)
    requires
        account@.len() > 0,
    ensures
        r.deep_view() == shared_account_currency(account.deep_view(), company_currency@, accounts.deep_view()),
{
    let ghost av = account.deep_view();
    let ghost m = accounts.deep_view();
    let first = account_currency_of(accounts, account[0].as_str(), company_currency);
    let mut i: usize = 0;
    while i < account.len()
        invariant
            i <= av.len(),
            av == account.deep_view(),
            m == accounts.deep_view(),
            first@ == if m.contains_key(av[0]) { m[av[0]].1 } else { company_currency@ },
            forall|j: int| 0 <= j < i ==> m.contains_key(#[trigger] av[j]) && m[av[j]].1 == first@,
        decreases av.len() - i,
    {
        let same = match map_get(accounts, account[i].as_str()) {
            Some(d) => str_eq(d.account_currency.as_str(), first.as_str()),
            None => false,
        };
        if !same {
            assert(!(m.contains_key(av[i as int]) && m[av[i as int]].1 == first@));
            return None;
        }
        i = i + 1;
    }
    Some(first)
}

/// Sets the currencies of a ledger filtered on accounts or on one party: the
/// company's currency, the ledger's account currency (see
/// `ledger_currency`), and, where that differs from the company's and no
/// presentation currency is set, the presentation currency. Other filters
/// come back as they were.
pub fn set_account_currency(filters: GeneralLedgerFilters, company_currency: &str,
    accounts: &BTreeMap<String, AccountDetail>, entries: &[PartyCurrencyEntry],
    party_currencies: &BTreeMap<String, BTreeMap<String, String>>) -> (r: Result<GeneralLedgerFilters, String>)
    ensures
        r matches Ok(g) && {
            let f = filters;
            let ac = ledger_currency(f, company_currency@, accounts.deep_view(), entries.deep_view(),
                party_currencies.deep_view());
            let applies = f.account@.len() > 0 || f.party@.len() == 1;
            &&& g.account@ == f.account@ && g.party@ == f.party@ && g.party_type == f.party_type
            &&& g.company == f.company && g.from_date == f.from_date && g.to_date == f.to_date
            &&& g.group_by == f.group_by && g.categorize_by == f.categorize_by
            &&& applies ==> {
                &&& g.company_currency.deep_view() == Some(company_currency@)
                &&& g.account_currency.deep_view() == Some(ac)
                &&& g.presentation_currency.deep_view() == if ac != company_currency@ && f.presentation_currency is None {
                    Some(ac)
                } else {
                    f.presentation_currency.deep_view()
                }
            }
            &&& !applies ==> g.company_currency == f.company_currency && g.account_currency == f.account_currency
                && g.presentation_currency == f.presentation_currency
        },
{
    let ghost f = filters;
    let mut filters = filters;
    if filters.account.len() > 0 || filters.party.len() == 1 {
        filters.company_currency = Some(owned(company_currency));
        let found = if filters.account.len() > 0 {
            shared_currency(&filters.account, company_currency, accounts)
        } else {
            match &filters.party_type {
                Some(pt) => find_party_currency(entries, pt.as_str(), filters.party[0].as_str(), party_currencies),
                None => None,
            }
        };
        let ac = match found {
            Some(c) => c,
            None => owned(company_currency),
        };
        assert(ac@ == ledger_currency(f, company_currency@, accounts.deep_view(), entries.deep_view(),
            party_currencies.deep_view()));
        if !str_eq(ac.as_str(), company_currency) && filters.presentation_currency.is_none() {
            filters.presentation_currency = Some(owned(ac.as_str()));
        }
        filters.account_currency = Some(ac);
    }
    Ok(filters)
}

/// Where an entry counts in the ledger.
#[derive(Debug, PartialEq, Eq, Clone, Copy)]
pub enum GlEntryPeriod {
    /// In the opening balance.
    Opening,
    /// Among the entries of the period.
    InPeriod,
    /// Nowhere.
    Outside,
}

pub open spec fn date_or_empty(d: Option<String>) -> Seq<char> {
    match d {
        Some(x) => x@,
        None => Seq::empty(),
    }
}

/// An entry dated before the from-date, or an opening entry while opening
/// entries are neither shown nor left out of the opening balance, counts in
/// the opening; else one dated by the to-date, or an opening entry while
/// opening entries are shown, counts in the period (a missing date reads as
/// empty, before every date).
pub open spec fn spec_entry_period(posting_date: Option<String>, is_opening: Seq<char>, f: GeneralLedgerFilters) -> GlEntryPeriod {
    let d = date_or_empty(posting_date);
    if lex_less(d, f.from_date@) || (is_opening == "Yes"@ && !f.show_opening_entries
        && !f.disable_opening_balance_calculation) {
        GlEntryPeriod::Opening
    } else if !lex_less(f.to_date@, d) || (is_opening == "Yes"@ && f.show_opening_entries) {
        GlEntryPeriod::InPeriod
    } else {
        GlEntryPeriod::Outside
    }
}

/// Where an entry with this posting date and opening flag counts.
pub fn entry_period(posting_date: &Option<String>, is_opening: &str, filters: &GeneralLedgerFilters) -> (r: GlEntryPeriod)
    ensures
        r == spec_entry_period(*posting_date, is_opening@, *filters),
{
    let d = match posting_date {
        Some(x) => x.as_str(),
        None => "",
    };
    proof { reveal_strlit(""); }
    let yes = str_eq(is_opening, "Yes");
    if str_less(d, filters.from_date.as_str()) || (yes && !filters.show_opening_entries
        && !filters.disable_opening_balance_calculation) {
        GlEntryPeriod::Opening
    } else if !str_less(filters.to_date.as_str(), d) || (yes && filters.show_opening_entries) {
        GlEntryPeriod::InPeriod
    } else {
        GlEntryPeriod::Outside
    }
}

/// The group values in the order of their first entry, each once.
pub fn gle_group_order(values: &[String]) -> (r: Vec<String>)
    ensures
        r.deep_view() == first_appearances(values.deep_view(), Set::full()),
{
    let ghost all = values.deep_view();
    let mut out: Vec<String> = Vec::new();
    let mut i: usize = 0;
    while i < values.len()
        invariant
            i <= all.len(),
            all == values.deep_view(),
            out.deep_view() == first_appearances(all.subrange(0, i as int), Set::full()),
        decreases all.len() - i,
    {
        assert(all.subrange(0, i + 1).drop_last() =~= all.subrange(0, i as int));
        assert(all.subrange(0, i + 1).last() == all[i as int]);
        let v = values[i].as_str();
        if !texts_hold(out.as_slice(), v) {
            let ghost before = out.deep_view();
            out.push(owned(v));
            assert(out.deep_view() =~= before.push(all[i as int]));
        }
        i = i + 1;
    }
    assert(all.subrange(0, i as int) =~= all);
    out
}

/// The key under which the consolidated ledger merges entries: posting date,
/// voucher type, voucher number, account, party type and party, joined by
/// `|`, each missing one empty.
pub open spec fn spec_consolidated_key(e: GlEntryKeys) -> Seq<char> {
    date_or_empty(e.posting_date) + "|"@ + date_or_empty(e.voucher_type) + "|"@ + date_or_empty(e.voucher_no) + "|"@
        + date_or_empty(e.account) + "|"@ + date_or_empty(e.party_type) + "|"@ + date_or_empty(e.party)
}

fn push_field(key: &mut String, field: &Option<String>)
    ensures
        final(key)@ == old(key)@ + date_or_empty(*field),
{
    if let Some(x) = field {
        key.append(x.as_str());
    }
}

pub fn consolidated_key(gle: &GlEntryKeys) -> (r: String)
    ensures
        r@ == spec_consolidated_key(*gle),
{
    proof { reveal_strlit("|"); }
    let mut key = String::new();
    push_field(&mut key, &gle.posting_date);
    key.append("|");
    push_field(&mut key, &gle.voucher_type);
    key.append("|");
    push_field(&mut key, &gle.voucher_no);
    key.append("|");
    push_field(&mut key, &gle.account);
    key.append("|");
    push_field(&mut key, &gle.party_type);
    key.append("|");
    push_field(&mut key, &gle.party);
    assert(key@ =~= spec_consolidated_key(*gle));
    key
}

/// An entry's value of a grouping field (account, party or voucher number),
/// empty where it has none or the field is another.
pub fn string_field(gle: &GlEntryKeys, field: &str) -> (r: String)
    ensures
        r@ == if field@ == "account"@ { date_or_empty(gle.account) } else if field@ == "party"@ {
            date_or_empty(gle.party)
        } else if field@ == "voucher_no"@ { date_or_empty(gle.voucher_no) } else { Seq::empty() },
{
    let value = if str_eq(field, "account") { &gle.account } else if str_eq(field, "party") { &gle.party }
        else if str_eq(field, "voucher_no") { &gle.voucher_no } else { return String::new() };
    match value {
        Some(v) => owned(v.as_str()),
        None => String::new(),
    }
}

} // verus!
