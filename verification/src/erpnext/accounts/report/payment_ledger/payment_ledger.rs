//! Payment ledger: the query on payment ledger entries and the columns.
use vstd::prelude::*;
use crate::text::{concat, join_strings, joined, lex_less, owned, str_eq, str_less};

verus! {

#[derive(Debug, Default, PartialEq, Eq)]
pub struct PaymentLedgerFilters {
    pub company: Option<String>,
    pub account: Vec<String>,
    pub period_start_date: Option<String>,
    pub period_end_date: Option<String>,
    pub voucher_no: Option<String>,
    pub against_voucher_no: Option<String>,
    pub party_type: Option<String>,
    pub party: Vec<String>,
    pub group_party: bool,
    pub include_account_currency: bool,
}

#[derive(Debug, PartialEq, Eq)]
pub struct ReportColumn {
    pub label: &'static str,
    pub fieldname: &'static str,
    pub fieldtype: &'static str,
    pub options: Option<&'static str>,
    pub width: &'static str,
    pub hidden: bool,
}

/// label, field name, field type, options, width, hidden
pub type ColumnView = (Seq<char>, Seq<char>, Seq<char>, Option<Seq<char>>, Seq<char>, bool);

impl DeepView for ReportColumn {
    type V = ColumnView;

    open spec fn deep_view(&self) -> ColumnView {
        (self.label@, self.fieldname@, self.fieldtype@, self.options.deep_view(), self.width@, self.hidden)
    }
}

impl ReportColumn {
    pub fn new(label: &'static str, fieldname: &'static str, fieldtype: &'static str, options: Option<&'static str>,
        width: &'static str, hidden: bool) -> (r: Self)
        ensures
            r.deep_view() == (label@, fieldname@, fieldtype@, options.deep_view(), width@, hidden),
    {
        ReportColumn { label, fieldname, fieldtype, options, width, hidden }
    }
}

/// The query: all fields of the payment ledger entries that are not
/// delinked, with one filter per filter given.
#[derive(Debug, PartialEq, Eq)]
pub struct PaymentLedgerQueryPlan {
    pub source_doctype: &'static str,
    pub selected_fields: Vec<&'static str>,
    pub base_filters: Vec<String>,
    pub optional_filters: Vec<String>,
}

/// Each value quoted, joined by commas, in square brackets.
pub open spec fn quoted_list(values: Seq<Seq<char>>) -> Seq<char> {
    "["@ + joined(Seq::new(values.len(), |i: int| "'"@ + values[i] + "'"@), ", "@) + "]"@
}

fn format_list(values: &Vec<String>) -> (r: String)
    ensures
        r@ == quoted_list(values.deep_view()),
{
    let ghost vs = values.deep_view();
    let mut quoted: Vec<String> = Vec::new();
    let mut i: usize = 0;
    while i < values.len()
        invariant
            i <= values@.len(),
            vs == values.deep_view(),
            quoted.deep_view() == Seq::new(i as nat, |j: int| "'"@ + vs[j] + "'"@),
        decreases values@.len() - i,
    {
        let q = concat(concat("'", values[i].as_str()).as_str(), "'");
        let ghost before = quoted.deep_view();
        quoted.push(q);
        assert(quoted.deep_view() =~= before.push(q@));
        i = i + 1;
        assert(quoted.deep_view() =~= Seq::new(i as nat, |j: int| "'"@ + vs[j] + "'"@));
    }
    concat(concat("[", join_strings(&quoted, ", ").as_str()).as_str(), "]")
}

pub open spec fn optional(value: Option<String>, prefix: Seq<char>) -> Seq<Seq<char>> {
    match value {
        Some(v) => seq![prefix + v@],
        None => Seq::empty(),
    }
}

pub open spec fn spec_optional_filters(f: PaymentLedgerFilters) -> Seq<Seq<char>> {
    optional(f.company, "company = "@)
    + (if f.account@.len() > 0 { seq!["account in "@ + quoted_list(f.account.deep_view())] } else { Seq::empty() })
    + optional(f.period_start_date, "posting_date >= "@)
    + optional(f.period_end_date, "posting_date <= "@)
    + optional(f.voucher_no, "voucher_no = "@)
    + optional(f.against_voucher_no, "against_voucher_no = "@)
    + optional(f.party_type, "party_type = "@)
    + (if f.party@.len() > 0 { seq!["party in "@ + quoted_list(f.party.deep_view())] } else { Seq::empty() })
}

fn push_optional(c: &mut Vec<String>, value: &Option<String>, prefix: &str)
    ensures
        final(c).deep_view() == old(c).deep_view() + optional(*value, prefix@),
{
    let ghost before = c.deep_view();
    if let Some(v) = value {
        c.push(concat(prefix, v.as_str()));
    }
    assert(c.deep_view() =~= before + optional(*value, prefix@));
}

fn push_list(c: &mut Vec<String>, values: &Vec<String>, prefix: &str)
    ensures
        final(c).deep_view() == old(c).deep_view()
            + if values@.len() > 0 { seq![prefix@ + quoted_list(values.deep_view())] } else { Seq::empty() },
{
    let ghost before = c.deep_view();
    if values.len() > 0 {
        c.push(concat(prefix, format_list(values).as_str()));
    }
    assert(c.deep_view() =~= before + if values@.len() > 0 { seq![prefix@ + quoted_list(values.deep_view())] } else { Seq::empty() });
}

impl PaymentLedgerQueryPlan {
    pub fn from_filters(filters: &PaymentLedgerFilters) -> (r: Self)
        ensures
            r.source_doctype@ == "Payment Ledger Entry"@,
            r.selected_fields.deep_view() == seq!["*"@],
            r.base_filters.deep_view() == seq!["delinked = 0"@],
            r.optional_filters.deep_view() == spec_optional_filters(*filters),
    {
        let mut c: Vec<String> = Vec::new();
        let ghost s0 = c.deep_view();
        assert(s0 =~= Seq::<Seq<char>>::empty());
        push_optional(&mut c, &filters.company, "company = ");
        push_list(&mut c, &filters.account, "account in ");
        push_optional(&mut c, &filters.period_start_date, "posting_date >= ");
        push_optional(&mut c, &filters.period_end_date, "posting_date <= ");
        push_optional(&mut c, &filters.voucher_no, "voucher_no = ");
        push_optional(&mut c, &filters.against_voucher_no, "against_voucher_no = ");
        push_optional(&mut c, &filters.party_type, "party_type = ");
        push_list(&mut c, &filters.party, "party in ");
        assert(c.deep_view() =~= spec_optional_filters(*filters));
        let fields = vec!["*"];
        assert(fields.deep_view() =~= seq!["*"@]);
        let base = vec![owned("delinked = 0")];
        assert(base.deep_view() =~= seq!["delinked = 0"@]);
        PaymentLedgerQueryPlan { source_doctype: "Payment Ledger Entry", selected_fields: fields, base_filters: base, optional_filters: c }
    }
}

pub open spec fn spec_columns(include_account_currency: bool) -> Seq<ColumnView> {
    seq![
        ("Posting Date"@, "posting_date"@, "Date"@, None, "100"@, false),
        ("Account"@, "account"@, "data"@, None, "100"@, false),
        ("Party Type"@, "party_type"@, "data"@, None, "100"@, false),
        ("Party"@, "party"@, "data"@, None, "100"@, false),
        ("Voucher Type"@, "voucher_type"@, "data"@, None, "100"@, false),
        ("Voucher No"@, "voucher_no"@, "Dynamic Link"@, Some("voucher_type"@), "100"@, false),
        ("Against Voucher Type"@, "against_voucher_type"@, "data"@, None, "100"@, false),
        ("Against Voucher No"@, "against_voucher_no"@, "Dynamic Link"@, Some("against_voucher_type"@), "100"@, false),
        ("Amount"@, "amount"@, "Currency"@, Some("Company:company:default_currency"@), "100"@, false),
    ]
    + (if include_account_currency {
        seq![("Amount in Account Currency"@, "amount_in_account_currency"@, "Currency"@, Some("currency"@), "100"@, false)]
    } else {
        Seq::empty()
    })
    + seq![("Currency"@, "currency"@, "Link"@, Some("Currency"@), ""@, true)]
}

pub fn get_columns(filters: &PaymentLedgerFilters) -> (r: Vec<ReportColumn>)
    ensures
        r.deep_view() == spec_columns(filters.include_account_currency),
{
    let mut columns = vec![
        ReportColumn::new("Posting Date", "posting_date", "Date", None, "100", false),
        ReportColumn::new("Account", "account", "data", None, "100", false),
        ReportColumn::new("Party Type", "party_type", "data", None, "100", false),
        ReportColumn::new("Party", "party", "data", None, "100", false),
        ReportColumn::new("Voucher Type", "voucher_type", "data", None, "100", false),
        ReportColumn::new("Voucher No", "voucher_no", "Dynamic Link", Some("voucher_type"), "100", false),
        ReportColumn::new("Against Voucher Type", "against_voucher_type", "data", None, "100", false),
        ReportColumn::new("Against Voucher No", "against_voucher_no", "Dynamic Link", Some("against_voucher_type"), "100", false),
        ReportColumn::new("Amount", "amount", "Currency", Some("Company:company:default_currency"), "100", false),
    ];
    let ghost head = columns.deep_view();
    if filters.include_account_currency {
        let c = ReportColumn::new("Amount in Account Currency", "amount_in_account_currency", "Currency", Some("currency"), "100", false);
        columns.push(c);
        assert(columns.deep_view() =~= head.push(c.deep_view()));
    }
    let ghost mid = columns.deep_view();
    let c = ReportColumn::new("Currency", "currency", "Link", Some("Currency"), "", true);
    columns.push(c);
    assert(columns.deep_view() =~= mid.push(c.deep_view()));
    assert(columns.deep_view() =~= spec_columns(filters.include_account_currency));
    columns
}

/// What the filters read of a payment ledger entry.
#[derive(Debug, PartialEq, Eq)]
pub struct PaymentLedgerEntryKeys {
    pub posting_date: String,
    pub account: String,
    pub party_type: String,
    pub party: String,
    pub voucher_no: Option<String>,
    pub against_voucher_no: Option<String>,
    pub company: String,
    pub delinked: bool,
}

pub open spec fn same_opt(filter: Option<String>, value: Option<String>) -> bool {
    match filter {
        Some(v) => value matches Some(x) && x@ == v@,
        None => true,
    }
}

/// An entry the ledger shows: not delinked, of the company, on an account and
/// of a party among those filtered (where any are), within the dates, and of
/// the voucher, against-voucher and party type filtered on.
pub open spec fn entry_passes(f: PaymentLedgerFilters, e: PaymentLedgerEntryKeys) -> bool {
    &&& !e.delinked
    &&& (f.company matches Some(c) ==> e.company@ == c@)
    &&& (f.account@.len() == 0 || f.account.deep_view().contains(e.account@))
    &&& (f.period_start_date matches Some(d) ==> !lex_less(e.posting_date@, d@))
    &&& (f.period_end_date matches Some(d) ==> !lex_less(d@, e.posting_date@))
    &&& same_opt(f.voucher_no, e.voucher_no)
    &&& same_opt(f.against_voucher_no, e.against_voucher_no)
    &&& (f.party_type matches Some(t) ==> e.party_type@ == t@)
    &&& (f.party@.len() == 0 || f.party.deep_view().contains(e.party@))
}

/// The indices of the first `m` entries that pass, in order.
pub open spec fn passing(f: PaymentLedgerFilters, entries: Seq<PaymentLedgerEntryKeys>, m: nat) -> Seq<int>
    decreases m,
{
    if m == 0 {
        Seq::empty()
    } else {
        let before = passing(f, entries, (m - 1) as nat);
        if entry_passes(f, entries[m - 1]) { before.push(m - 1) } else { before }
    }
}

fn holds(items: &Vec<String>, key: &str) -> (r: bool)
    ensures
        r == items.deep_view().contains(key@),
{
    let mut i: usize = 0;
    while i < items.len()
        invariant
            i <= items@.len(),
            forall|j: int| 0 <= j < i ==> #[trigger] items.deep_view()[j] != key@,
        decreases items@.len() - i,
    {
        if str_eq(items[i].as_str(), key) {
            assert(items.deep_view()[i as int] == key@);
            return true;
        }
        i = i + 1;
    }
    false
}

fn opt_is(filter: &Option<String>, value: &Option<String>) -> (r: bool)
    ensures
        r == same_opt(*filter, *value),
{
    match filter {
        Some(v) => match value {
            Some(x) => str_eq(x.as_str(), v.as_str()),
            None => false,
        },
        None => true,
    }
}

/// The entries the ledger shows, as indices into `entries`, in their order.
pub fn apply_filters(entries: &[PaymentLedgerEntryKeys], filters: &PaymentLedgerFilters) -> (r: Vec<usize>)
    ensures
        r@.map_values(|v: usize| v as int) == passing(*filters, entries@, entries@.len()),
{
    let mut out: Vec<usize> = Vec::new();
    let mut i: usize = 0;
    while i < entries.len()
        invariant
            i <= entries@.len(),
            out@.map_values(|v: usize| v as int) == passing(*filters, entries@, i as nat),
        decreases entries@.len() - i,
    {
        let e = &entries[i];
        let ok = !e.delinked
            && match &filters.company { Some(c) => str_eq(e.company.as_str(), c.as_str()), None => true }
            && (filters.account.len() == 0 || holds(&filters.account, e.account.as_str()))
            && match &filters.period_start_date { Some(d) => !str_less(e.posting_date.as_str(), d.as_str()), None => true }
            && match &filters.period_end_date { Some(d) => !str_less(d.as_str(), e.posting_date.as_str()), None => true }
            && opt_is(&filters.voucher_no, &e.voucher_no)
            && opt_is(&filters.against_voucher_no, &e.against_voucher_no)
            && match &filters.party_type { Some(t) => str_eq(e.party_type.as_str(), t.as_str()), None => true }
            && (filters.party.len() == 0 || holds(&filters.party, e.party.as_str()));
        if ok {
            let ghost before = out@.map_values(|v: usize| v as int);
            out.push(i);
            assert(out@.map_values(|v: usize| v as int) =~= before.push(i as int));
        }
        i = i + 1;
    }
    out
}


/// The key an entry is grouped under: its party type and party where the
/// ledger groups by party, else its against-voucher type and number with
/// its party.
pub type VoucherKey = (Option<String>, Option<String>, Option<String>);

pub open spec fn spec_voucher_key(group_party: bool, party_type: Seq<char>, party: Seq<char>,
    against_voucher_type: Option<Seq<char>>, against_voucher_no: Option<Seq<char>>)
    -> (Option<Seq<char>>, Option<Seq<char>>, Option<Seq<char>>) {
    if group_party {
        (Some(party_type), Some(party), None)
    } else {
        (against_voucher_type, against_voucher_no, Some(party))
    }
}

/// The key an entry is grouped under (see `spec_voucher_key`).
pub fn voucher_key(group_party: bool, party_type: &str, party: &str, against_voucher_type: &Option<String>,
    against_voucher_no: &Option<String>) -> (r: VoucherKey)
    ensures
        r.deep_view() == spec_voucher_key(group_party, party_type@, party@, against_voucher_type.deep_view(),
            against_voucher_no.deep_view()),
{
    if group_party {
        (Some(owned(party_type)), Some(owned(party)), None)
    } else {
        let t = match against_voucher_type {
            Some(v) => Some(owned(v.as_str())),
            None => None,
        };
        let n = match against_voucher_no {
            Some(v) => Some(owned(v.as_str())),
            None => None,
        };
        (t, n, Some(owned(party)))
    }
}

fn same_text_opt(a: &Option<String>, b: &Option<String>) -> (r: bool)
    ensures
        r == (a.deep_view() == b.deep_view()),
{
    match (a, b) {
        (Some(x), Some(y)) => str_eq(x.as_str(), y.as_str()),
        (None, None) => true,
        _ => false,
    }
}

fn same_key(a: &VoucherKey, b: &VoucherKey) -> (r: bool)
    ensures
        r == (a.deep_view() == b.deep_view()),
{
    same_text_opt(&a.0, &b.0) && same_text_opt(&a.1, &b.1) && same_text_opt(&a.2, &b.2)
}

/// Entry `i` is the first with its key.
pub open spec fn opens_voucher_group<K>(keys: Seq<K>, i: int) -> bool {
    forall|j: int| 0 <= j < i ==> #[trigger] keys[j] != keys[i]
}

/// The entries, among the first `upto`, with key `k`.
pub open spec fn members_of<K>(keys: Seq<K>, k: K, upto: int) -> Seq<usize>
    decreases upto,
{
    if upto <= 0 {
        Seq::empty()
    } else {
        members_of(keys, k, upto - 1) + if keys[upto - 1] == k { seq![(upto - 1) as usize] } else { Seq::empty() }
    }
}

/// The groups that the first `upto` entries open, in that order, each with
/// all its entries in their order.
pub open spec fn voucher_groups<K>(keys: Seq<K>, upto: int) -> Seq<Seq<usize>>
    decreases upto,
{
    if upto <= 0 {
        Seq::empty()
    } else {
        voucher_groups(keys, upto - 1) + if opens_voucher_group(keys, upto - 1) {
            seq![members_of(keys, keys[upto - 1], keys.len() as int)]
        } else {
            Seq::empty()
        }
    }
}

/// The entries grouped by key: one group per key, in the order its first
/// entry comes, holding the places of its entries in their order.
pub fn init_voucher_dict(keys: &[VoucherKey]) -> (r: Vec<Vec<usize>>)
    ensures
        r.deep_view() == voucher_groups(keys.deep_view(), keys.len() as int),
{
    let ghost ks = keys.deep_view();
    let mut out: Vec<Vec<usize>> = Vec::new();
    let mut i: usize = 0;
    while i < keys.len()
        invariant
            i <= keys.len(),
            ks == keys.deep_view(),
            out.deep_view() == voucher_groups(ks, i as int),
        decreases keys.len() - i,
    {
        assert(ks[i as int] == keys@[i as int].deep_view());
        let mut first = true;
        let mut j: usize = 0;
        while j < i
            invariant
                j <= i < keys.len(),
                ks == keys.deep_view(),
                first <==> forall|x: int| 0 <= x < j ==> #[trigger] ks[x] != ks[i as int],
            decreases i - j,
        {
            assert(ks[j as int] == keys@[j as int].deep_view());
            if same_key(&keys[j], &keys[i]) {
                first = false;
            }
            j = j + 1;
        }
        if first {
            let mut members: Vec<usize> = Vec::new();
            let mut r: usize = 0;
            while r < keys.len()
                invariant
                    r <= keys.len(),
                    i < keys.len(),
                    ks == keys.deep_view(),
                    members@ == members_of(ks, ks[i as int], r as int),
                decreases keys.len() - r,
            {
                assert(ks[r as int] == keys@[r as int].deep_view());
                if same_key(&keys[r], &keys[i]) {
                    members.push(r);
                }
                assert(members@ =~= members_of(ks, ks[i as int], r + 1));
                r = r + 1;
            }
            let ghost before = out.deep_view();
            let ghost mv = members@;
            assert(members.deep_view() =~= mv);
            out.push(members);
            assert(out.deep_view() =~= before.push(mv));
        }
        assert(out.deep_view() =~= voucher_groups(ks, i + 1));
        i = i + 1;
    }
    out
}

} // verus!
