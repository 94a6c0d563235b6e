//! Customer and supplier ledger summary: the filter check, the field names of
//! adjustment accounts, and the columns for each party type.
use std::collections::BTreeMap;
use vstd::prelude::*;
use crate::erpnext::accounts::report::map_get;
use crate::text::{
    ascii_lower, char_is_ascii_alphanumeric, concat, is_ascii_alphanumeric, join_strings, joined, lemma_lex_irreflexive, lex_less,
    owned, push_char,
    split_char, split_on, str_eq, str_less, to_ascii_lower,
};

verus! {

#[derive(Clone, Copy, Debug, PartialEq, Eq, Structural)]
pub enum PartyType {
    Customer,
    Supplier,
}

pub open spec fn party_label(p: PartyType) -> Seq<char> {
    match p {
        PartyType::Customer => "Customer"@,
        PartyType::Supplier => "Supplier"@,
    }
}

pub open spec fn group_fieldname(p: PartyType) -> Seq<char> {
    match p {
        PartyType::Customer => "customer_group"@,
        PartyType::Supplier => "supplier_group"@,
    }
}

pub open spec fn group_label(p: PartyType) -> Seq<char> {
    match p {
        PartyType::Customer => "Customer Group"@,
        PartyType::Supplier => "Supplier Group"@,
    }
}

impl PartyType {
    pub fn label(self) -> (r: &'static str)
        ensures
            r@ == party_label(self),
    {
        match self {
            PartyType::Customer => "Customer",
            PartyType::Supplier => "Supplier",
        }
    }

    fn group_fieldname(self) -> (r: &'static str)
        ensures
            r@ == group_fieldname(self),
    {
        match self {
            PartyType::Customer => "customer_group",
            PartyType::Supplier => "supplier_group",
        }
    }

    fn group_label(self) -> (r: &'static str)
        ensures
            r@ == group_label(self),
    {
        match self {
            PartyType::Customer => "Customer Group",
            PartyType::Supplier => "Supplier Group",
        }
    }
}

#[derive(Debug, PartialEq, Eq)]
pub struct PartyLedgerFilters {
    pub company: String,
    pub from_date: String,
    pub to_date: String,
}

#[derive(Debug, PartialEq, Eq)]
pub struct PartyLedgerArgs {
    pub party_type: PartyType,
    pub party_naming_by: String,
}

#[derive(Debug, PartialEq, Eq)]
pub struct PartyDetail {
    pub party: String,
    pub party_name: String,
    pub party_group: String,
    pub territory: Option<String>,
}

#[derive(Clone, Copy, Debug, PartialEq, Eq, Structural)]
pub enum PartyLedgerError {
    MissingCompany,
    FromDateAfterToDate,
}

#[derive(Debug, PartialEq, Eq)]
pub struct PartyLedgerColumn {
    pub label: String,
    pub fieldname: String,
    pub fieldtype: &'static str,
    pub options: Option<String>,
    pub width: u16,
    pub hidden: bool,
    pub is_adjustment: bool,
}

/// label, field name, field type, options, width, hidden, adjustment
pub type ColumnView = (Seq<char>, Seq<char>, Seq<char>, Option<Seq<char>>, u16, bool, bool);

impl DeepView for PartyLedgerColumn {
    type V = ColumnView;

    open spec fn deep_view(&self) -> ColumnView {
        (self.label@, self.fieldname@, self.fieldtype@, self.options.deep_view(), self.width, self.hidden, self.is_adjustment)
    }
}

pub open spec fn currency_column(label: Seq<char>, fieldname: Seq<char>, width: u16) -> ColumnView {
    (label, fieldname, "Currency"@, Some("currency"@), width, false, false)
}

impl PartyLedgerColumn {
    pub fn link(label: &str, fieldname: &str, options: &str, width: u16) -> (r: Self)
        ensures
            r.deep_view() == (label@, fieldname@, "Link"@, Some(options@), width, false, false),
    {
        PartyLedgerColumn {
            label: owned(label), fieldname: owned(fieldname), fieldtype: "Link", options: Some(owned(options)),
            width, hidden: false, is_adjustment: false,
        }
    }

    pub fn data(label: &str, fieldname: &str, width: u16) -> (r: Self)
        ensures
            r.deep_view() == (label@, fieldname@, "Data"@, None::<Seq<char>>, width, false, false),
    {
        PartyLedgerColumn {
            label: owned(label), fieldname: owned(fieldname), fieldtype: "Data", options: None, width, hidden: false,
            is_adjustment: false,
        }
    }

    pub fn currency(label: &str, fieldname: &str, width: u16) -> (r: Self)
        ensures
            r.deep_view() == currency_column(label@, fieldname@, width),
    {
        PartyLedgerColumn {
            label: owned(label), fieldname: owned(fieldname), fieldtype: "Currency", options: Some(owned("currency")),
            width, hidden: false, is_adjustment: false,
        }
    }

    pub fn adjustment(label: &str, fieldname: &str) -> (r: Self)
        ensures
            r.deep_view() == (label@, fieldname@, "Currency"@, Some("currency"@), 120u16, false, true),
    {
        let c = PartyLedgerColumn::currency(label, fieldname, 120);
        PartyLedgerColumn { is_adjustment: true, ..c }
    }

    pub fn hidden_currency() -> (r: Self)
        ensures
            r.deep_view() == ("Currency"@, "currency"@, "Link"@, Some("Currency"@), 50u16, true, false),
    {
        PartyLedgerColumn {
            label: owned("Currency"), fieldname: owned("currency"), fieldtype: "Link", options: Some(owned("Currency")),
            width: 50, hidden: true, is_adjustment: false,
        }
    }
}

pub fn validate_filters(filters: &PartyLedgerFilters) -> (r: Result<(), PartyLedgerError>)
    ensures
        filters.company@.len() == 0 ==> r matches Err(PartyLedgerError::MissingCompany),
        filters.company@.len() > 0 && lex_less(filters.to_date@, filters.from_date@)
            ==> r matches Err(PartyLedgerError::FromDateAfterToDate),
        filters.company@.len() > 0 && !lex_less(filters.to_date@, filters.from_date@) ==> r is Ok,
{
    if filters.company.as_str().is_empty() {
        return Err(PartyLedgerError::MissingCompany);
    }
    if str_less(filters.to_date.as_str(), filters.from_date.as_str()) {
        return Err(PartyLedgerError::FromDateAfterToDate);
    }
    Ok(())
}

/// party, name, group, territory
pub type PartyDetailView = (Seq<char>, Seq<char>, Seq<char>, Option<Seq<char>>);

impl DeepView for PartyDetail {
    type V = PartyDetailView;

    open spec fn deep_view(&self) -> PartyDetailView {
        (self.party@, self.party_name@, self.party_group@, self.territory.deep_view())
    }
}

/// The part of a party's row that an entry's signed amount goes to: opening
/// and invoiced amounts add it, returned and paid amounts subtract it.
#[derive(Clone, Copy, Debug, PartialEq, Eq, Structural)]
pub enum LedgerBucket {
    Opening,
    Return,
    Paid,
    Invoiced,
}

/// Entries before the period or marked as opening open the balance; entries
/// of a return invoice are returns; entries against a return invoice are paid
/// when positive, else invoiced; other entries are invoiced when positive,
/// else paid.
pub open spec fn spec_entry_bucket(posting_date: Seq<char>, from_date: Seq<char>, is_opening: Seq<char>,
    voucher_is_return: bool, against_is_return: bool, amount_positive: bool) -> LedgerBucket
{
    if lex_less(posting_date, from_date) || is_opening == "Yes"@ {
        LedgerBucket::Opening
    } else if voucher_is_return {
        LedgerBucket::Return
    } else if against_is_return {
        if amount_positive { LedgerBucket::Paid } else { LedgerBucket::Invoiced }
    } else if amount_positive {
        LedgerBucket::Invoiced
    } else {
        LedgerBucket::Paid
    }
}

/// The opening balance holds exactly the entries posted strictly before the
/// from-date and those marked as opening. An entry not so marked and posted
/// on or after the from-date lands in the same bucket whichever such date it
/// has: one posted on the from-date itself counts like one posted later.
pub proof fn lemma_opening_bucket(p1: Seq<char>, p2: Seq<char>, from_date: Seq<char>, is_opening: Seq<char>,
    voucher_is_return: bool, against_is_return: bool, amount_positive: bool)
    ensures
        (spec_entry_bucket(p1, from_date, is_opening, voucher_is_return, against_is_return, amount_positive)
            == LedgerBucket::Opening) <==> (lex_less(p1, from_date) || is_opening == "Yes"@),
        spec_entry_bucket(from_date, from_date, is_opening, voucher_is_return, against_is_return, amount_positive)
            == LedgerBucket::Opening <==> is_opening == "Yes"@,
        !lex_less(p1, from_date) && !lex_less(p2, from_date) ==>
            spec_entry_bucket(p1, from_date, is_opening, voucher_is_return, against_is_return, amount_positive)
            == spec_entry_bucket(p2, from_date, is_opening, voucher_is_return, against_is_return, amount_positive),
{
    lemma_lex_irreflexive(from_date);
}

/// The bucket of a ledger entry: its posting date and opening mark, whether its
/// voucher, or the voucher it is against, is a return invoice, and whether its
/// signed amount is above zero.
pub fn entry_bucket(posting_date: &str, from_date: &str, is_opening: &str, voucher_is_return: bool,
    against_is_return: bool, amount_positive: bool) -> (r: LedgerBucket)
    ensures
        r == spec_entry_bucket(posting_date@, from_date@, is_opening@, voucher_is_return, against_is_return, amount_positive),
{
    if str_less(posting_date, from_date) || str_eq(is_opening, "Yes") {
        LedgerBucket::Opening
    } else if voucher_is_return {
        LedgerBucket::Return
    } else if against_is_return {
        if amount_positive { LedgerBucket::Paid } else { LedgerBucket::Invoiced }
    } else if amount_positive {
        LedgerBucket::Invoiced
    } else {
        LedgerBucket::Paid
    }
}

/// The side of a closing balance: a customer's positive balance is a debit and
/// a supplier's a credit, the other way round when negative, none when zero.
pub open spec fn spec_balance_side(party_type: PartyType, positive: bool, negative: bool) -> Option<Seq<char>> {
    if positive {
        Some(if party_type == PartyType::Customer { "Dr"@ } else { "Cr"@ })
    } else if negative {
        Some(if party_type == PartyType::Customer { "Cr"@ } else { "Dr"@ })
    } else {
        None
    }
}

pub fn balance_side(party_type: PartyType, positive: bool, negative: bool) -> (r: Option<String>)
    ensures
        r.deep_view() == spec_balance_side(party_type, positive, negative),
{
    if positive {
        Some(owned(match party_type { PartyType::Customer => "Dr", PartyType::Supplier => "Cr" }))
    } else if negative {
        Some(owned(match party_type { PartyType::Customer => "Cr", PartyType::Supplier => "Dr" }))
    } else {
        None
    }
}

/// The parties with details, each once, in the order of their first entry.
pub open spec fn first_appearances(parties: Seq<Seq<char>>, known: Set<Seq<char>>) -> Seq<Seq<char>>
    decreases parties.len(),
{
    if parties.len() == 0 {
        Seq::empty()
    } else {
        let before = first_appearances(parties.drop_last(), known);
        let p = parties.last();
        if known.contains(p) && !before.contains(p) { before.push(p) } else { before }
    }
}

/// The summary holds each party at most once, and only parties that have
/// details and ledger entries.
pub proof fn lemma_party_order_distinct(parties: Seq<Seq<char>>, known: Set<Seq<char>>)
    ensures ({
        let r = first_appearances(parties, known);
        &&& forall|i: int, j: int| 0 <= i < j < r.len() ==> r[i] != r[j]
        &&& forall|i: int| 0 <= i < r.len() ==> known.contains(#[trigger] r[i]) && parties.contains(r[i])
    }),
    decreases parties.len(),
{
    if parties.len() > 0 {
        let rest = parties.drop_last();
        lemma_party_order_distinct(rest, known);
        let before = first_appearances(rest, known);
        let r = first_appearances(parties, known);
        assert forall|i: int| 0 <= i < r.len() implies known.contains(#[trigger] r[i]) && parties.contains(r[i]) by {
            if i < before.len() {
                assert(r[i] == before[i]);
                let k = choose|k: int| 0 <= k < rest.len() && rest[k] == before[i];
                assert(parties[k] == rest[k]);
            } else {
                assert(parties[parties.len() - 1] == parties.last());
            }
        }
        assert forall|i: int, j: int| 0 <= i < j < r.len() implies r[i] != r[j] by {
            if j == before.len() {
                assert(r[i] == before[i]);
                assert(before.contains(before[i]));
            }
        }
    }
}

fn holds_name(items: &Vec<String>, key: &str) -> (r: bool)
    ensures
        r == items.deep_view().contains(key@),
{
    let mut i: usize = 0;
    while i < items.len()
        invariant
            i <= items@.len(),
            forall|j: int| 0 <= j < i ==> #[trigger] items.deep_view()[j] != key@,
        decreases items@.len() - i,
    {
        if str_eq(items[i].as_str(), key) {
            assert(items.deep_view()[i as int] == key@);
            return true;
        }
        i = i + 1;
    }
    false
}

/// The order of the summary's rows: the parties of the ledger entries that
/// have details, each once, as they first appear.
pub fn party_order(entry_parties: &[String], party_details: &BTreeMap<String, PartyDetail>) -> (r: Vec<String>)
    ensures
        r.deep_view() == first_appearances(entry_parties.deep_view(), party_details.deep_view().dom()),
{
    let ghost all = entry_parties.deep_view();
    let ghost known = party_details.deep_view().dom();
    let mut out: Vec<String> = Vec::new();
    let mut i: usize = 0;
    while i < entry_parties.len()
        invariant
            i <= all.len(),
            all == entry_parties.deep_view(),
            known == party_details.deep_view().dom(),
            out.deep_view() == first_appearances(all.subrange(0, i as int), known),
        decreases all.len() - i,
    {
        assert(all.subrange(0, i + 1).drop_last() =~= all.subrange(0, i as int));
        assert(all.subrange(0, i + 1).last() == all[i as int]);
        let p = entry_parties[i].as_str();
        if map_get(party_details, p).is_some() && !holds_name(&out, p) {
            let ghost before = out.deep_view();
            out.push(owned(p));
            assert(out.deep_view() =~= before.push(all[i as int]));
        }
        i = i + 1;
    }
    assert(all.subrange(0, i as int) =~= all);
    out
}

/// Each ASCII letter or digit lowered, every other character made `_`.
pub open spec fn underscored(s: Seq<char>) -> Seq<char> {
    Seq::new(s.len(), |i: int| if is_ascii_alphanumeric(s[i]) { ascii_lower(s[i]) } else { '_' })
}

/// The runs of ASCII letters and digits of `value`, lowered, joined by `_`.
pub open spec fn scrubbed(value: Seq<char>) -> Seq<char> {
    joined(split_on(underscored(value), '_').filter(|p: Seq<char>| p.len() > 0), "_"@)
}

pub fn scrub(value: &str) -> (r: String)
    ensures
        r@ == scrubbed(value@),
{
    let n = value.unicode_len();
    let mut mapped = String::new();
    let mut i: usize = 0;
    while i < n
        invariant
            n == value@.len(),
            i <= n,
            mapped@ == underscored(value@).subrange(0, i as int),
        decreases n - i,
    {
        let c = value.get_char(i);
        push_char(&mut mapped, if char_is_ascii_alphanumeric(c) { to_ascii_lower(c) } else { '_' });
        i = i + 1;
        assert(mapped@ =~= underscored(value@).subrange(0, i as int));
    }
    assert(mapped@ =~= underscored(value@));
    let pieces = split_char(mapped.as_str(), '_');
    let ghost all = pieces.deep_view();
    let mut kept: Vec<String> = Vec::new();
    let mut k: usize = 0;
    while k < pieces.len()
        invariant
            k <= pieces@.len(),
            all == pieces.deep_view(),
            kept.deep_view() == all.subrange(0, k as int).filter(|p: Seq<char>| p.len() > 0),
        decreases pieces@.len() - k,
    {
        assert(all.subrange(0, k + 1).drop_last() =~= all.subrange(0, k as int));
        if !pieces[k].as_str().is_empty() {
            let ghost before = kept.deep_view();
            kept.push(pieces[k].clone());
            assert(kept.deep_view() =~= before.push(all[k as int]));
        }
        proof {
            reveal_with_fuel(Seq::filter, 1);
        }
        k = k + 1;
    }
    assert(all.subrange(0, k as int) =~= all);
    join_strings(&kept, "_")
}

/// The columns of the summary: the party, its name when parties go by naming
/// series, its group (and territory, for customers), the opening, invoiced,
/// paid and returned amounts, one column per adjustment account, the closing
/// balance, the hidden currency and the side of the balance.
pub open spec fn spec_columns(args: PartyLedgerArgs, accounts: Seq<Seq<char>>) -> Seq<ColumnView> {
    let p = args.party_type;
    seq![(party_label(p), "party"@, "Link"@, Some(party_label(p)), 200u16, false, false)]
    + (if args.party_naming_by@ == "Naming Series"@ {
        seq![(party_label(p) + " Name"@, "party_name"@, "Data"@, None, 150u16, false, false)]
    } else {
        Seq::empty()
    })
    + seq![(group_label(p), group_fieldname(p), "Link"@, Some(group_label(p)), 120u16, false, false)]
    + (if p == PartyType::Customer {
        seq![("Territory"@, "territory"@, "Link"@, Some("Territory"@), 120u16, false, false)]
    } else {
        Seq::empty()
    })
    + seq![
        currency_column("Opening Balance"@, "opening_balance"@, 120),
        currency_column("Invoiced Amount"@, "invoiced_amount"@, 120),
        currency_column("Paid Amount"@, "paid_amount"@, 120),
        currency_column(if p == PartyType::Customer { "Credit Note"@ } else { "Debit Note"@ }, "return_amount"@, 120),
    ]
    + Seq::new(accounts.len(), |i: int| (accounts[i], "adj_"@ + scrubbed(accounts[i]), "Currency"@, Some("currency"@), 120u16, false, true))
    + seq![
        currency_column("Closing Balance"@, "closing_balance"@, 120),
        ("Currency"@, "currency"@, "Link"@, Some("Currency"@), 50u16, true, false),
        ("Dr/Cr"@, "dr_or_cr"@, "Data"@, None, 100u16, false, false),
    ]
}

fn push_column(columns: &mut Vec<PartyLedgerColumn>, c: PartyLedgerColumn)
    ensures
        final(columns).deep_view() == old(columns).deep_view().push(c.deep_view()),
{
    let ghost before = columns.deep_view();
    columns.push(c);
    assert(columns.deep_view() =~= before.push(c.deep_view()));
}

/// The columns for the party type and naming, with one column per adjustment
/// account.
pub fn get_columns(args: &PartyLedgerArgs, party_adjustment_accounts: &[String]) -> (r: Vec<PartyLedgerColumn>)
    ensures
        r.deep_view() == spec_columns(*args, party_adjustment_accounts.deep_view()),
{
    let p = args.party_type;
    let mut columns: Vec<PartyLedgerColumn> = Vec::new();
    push_column(&mut columns, PartyLedgerColumn::link(p.label(), "party", p.label(), 200));
    if str_eq(args.party_naming_by.as_str(), "Naming Series") {
        push_column(&mut columns, PartyLedgerColumn::data(concat(p.label(), " Name").as_str(), "party_name", 150));
    }
    push_column(&mut columns, PartyLedgerColumn::link(p.group_label(), p.group_fieldname(), p.group_label(), 120));
    match p {
        PartyType::Customer => push_column(&mut columns, PartyLedgerColumn::link("Territory", "territory", "Territory", 120)),
        PartyType::Supplier => {},
    }
    push_column(&mut columns, PartyLedgerColumn::currency("Opening Balance", "opening_balance", 120));
    push_column(&mut columns, PartyLedgerColumn::currency("Invoiced Amount", "invoiced_amount", 120));
    push_column(&mut columns, PartyLedgerColumn::currency("Paid Amount", "paid_amount", 120));
    let return_label = match p {
        PartyType::Customer => "Credit Note",
        PartyType::Supplier => "Debit Note",
    };
    push_column(&mut columns, PartyLedgerColumn::currency(return_label, "return_amount", 120));
    let ghost head = columns.deep_view();
    let ghost accounts = party_adjustment_accounts.deep_view();
    let mut i: usize = 0;
    while i < party_adjustment_accounts.len()
        invariant
            i <= party_adjustment_accounts@.len(),
            accounts == party_adjustment_accounts.deep_view(),
            columns.deep_view() == head + Seq::new(i as nat, |j: int| (accounts[j], "adj_"@ + scrubbed(accounts[j]),
                "Currency"@, Some("currency"@), 120u16, false, true)),
        decreases party_adjustment_accounts@.len() - i,
    {
        let account = party_adjustment_accounts[i].as_str();
        let fieldname = concat("adj_", scrub(account).as_str());
        push_column(&mut columns, PartyLedgerColumn::adjustment(account, fieldname.as_str()));
        i = i + 1;
        assert(columns.deep_view() =~= head + Seq::new(i as nat, |j: int| (accounts[j], "adj_"@ + scrubbed(accounts[j]),
            "Currency"@, Some("currency"@), 120u16, false, true)));
    }
    push_column(&mut columns, PartyLedgerColumn::currency("Closing Balance", "closing_balance", 120));
    push_column(&mut columns, PartyLedgerColumn::hidden_currency());
    push_column(&mut columns, PartyLedgerColumn::data("Dr/Cr", "dr_or_cr", 100));
    assert(columns.deep_view() =~= spec_columns(*args, accounts));
    columns
}

} // verus!
