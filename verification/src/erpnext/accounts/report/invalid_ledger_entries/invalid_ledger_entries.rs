//! Invalid ledger entries: vouchers that are both active in the ledgers and
//! cancelled or delinked, with the filter check and the query plans.
use vstd::prelude::*;
use crate::text::{concat, joined, lemma_lex_asymmetric, lemma_lex_irreflexive, lemma_lex_total, lemma_lex_transitive, lex_less, owned, str_eq, str_less};

verus! {

#[derive(Debug, PartialEq, Eq)]
pub struct InvalidLedgerEntryFilters {
    pub company: Option<String>,
    pub from_date: String,
    pub to_date: String,
    pub account: Vec<String>,
    pub voucher_no: Option<String>,
}

impl InvalidLedgerEntryFilters {
    pub fn new(company: &str, from_date: &str, to_date: &str) -> (r: Self)
        ensures
            r.company matches Some(c) && c@ == company@,
            r.from_date@ == from_date@,
            r.to_date@ == to_date@,
            r.account@.len() == 0,
            r.voucher_no is None,
    {
        InvalidLedgerEntryFilters {
            company: Some(owned(company)),
            from_date: owned(from_date),
            to_date: owned(to_date),
            account: Vec::new(),
            voucher_no: None,
        }
    }
}

#[derive(Debug, PartialEq, Eq)]
pub struct ReportColumn {
    pub label: &'static str,
    pub fieldname: &'static str,
    pub fieldtype: &'static str,
    pub options: &'static str,
}

/// label, field name, field type, options
pub type ColumnView = (Seq<char>, Seq<char>, Seq<char>, Seq<char>);

impl DeepView for ReportColumn {
    type V = ColumnView;

    open spec fn deep_view(&self) -> ColumnView {
        (self.label@, self.fieldname@, self.fieldtype@, self.options@)
    }
}

impl ReportColumn {
    pub fn link(label: &'static str, fieldname: &'static str, options: &'static str) -> (r: Self)
        ensures
            r.deep_view() == (label@, fieldname@, "Link"@, options@),
    {
        ReportColumn { label, fieldname, fieldtype: "Link", options }
    }

    pub fn dynamic_link(label: &'static str, fieldname: &'static str, options: &'static str) -> (r: Self)
        ensures
            r.deep_view() == (label@, fieldname@, "Dynamic Link"@, options@),
    {
        ReportColumn { label, fieldname, fieldtype: "Dynamic Link", options }
    }
}

#[derive(Debug, PartialEq, Eq)]
pub struct LedgerVoucher {
    pub voucher_type: String,
    pub voucher_no: String,
}

impl DeepView for LedgerVoucher {
    type V = (Seq<char>, Seq<char>);

    open spec fn deep_view(&self) -> (Seq<char>, Seq<char>) {
        (self.voucher_type@, self.voucher_no@)
    }
}

impl LedgerVoucher {
    pub fn new(voucher_type: &str, voucher_no: &str) -> (r: Self)
        ensures
            r.deep_view() == (voucher_type@, voucher_no@),
    {
        LedgerVoucher { voucher_type: owned(voucher_type), voucher_no: owned(voucher_no) }
    }

    fn copy(&self) -> (r: Self)
        ensures
            r.deep_view() == self.deep_view(),
    {
        LedgerVoucher { voucher_type: self.voucher_type.clone(), voucher_no: self.voucher_no.clone() }
    }
}

/// A query for the vouchers of one ledger that are not cancelled: the ledger,
/// its cancellation field, the company, the dates and the further filters.
#[derive(Debug, PartialEq, Eq)]
pub struct ActiveVoucherQueryPlan {
    pub source_doctype: &'static str,
    pub cancelled_field: &'static str,
    pub company: String,
    pub from_date: String,
    pub to_date: String,
    pub extra_filters: Vec<String>,
}

#[derive(Debug, PartialEq, Eq)]
pub struct InvalidLedgerEntriesReport {
    pub columns: Vec<ReportColumn>,
    pub rows: Vec<LedgerVoucher>,
}

pub open spec fn spec_columns() -> Seq<ColumnView> {
    seq![("Voucher Type"@, "voucher_type"@, "Link"@, "DocType"@), ("Voucher No"@, "voucher_no"@, "Dynamic Link"@, "voucher_type"@)]
}

pub fn get_columns() -> (r: Vec<ReportColumn>)
    ensures
        r.deep_view() == spec_columns(),
{
    let r = vec![
        ReportColumn::link("Voucher Type", "voucher_type", "DocType"),
        ReportColumn::dynamic_link("Voucher No", "voucher_no", "voucher_type"),
    ];
    assert(r.deep_view() =~= spec_columns());
    r
}

/// Filters must be given, name a company, and not start after they end.
pub open spec fn spec_validate(filters: Option<InvalidLedgerEntryFilters>) -> Result<(), Seq<char>> {
    match filters {
        None => Err("Filters missing"@),
        Some(f) => {
            if (match f.company { Some(c) => c@.len() == 0, None => true }) {
                Err("Company is mandatory"@)
            } else if lex_less(f.to_date@, f.from_date@) {
                Err("Start Date should be lower than End Date"@)
            } else {
                Ok(())
            }
        },
    }
}

pub fn validate_filters(filters: Option<&InvalidLedgerEntryFilters>) -> (r: Result<(), String>)
    ensures
        match (r, spec_validate(match filters { Some(f) => Some(*f), None => None })) {
            (Ok(_), Ok(_)) => true,
            (Err(e), Err(v)) => e@ == v,
            _ => false,
        },
{
    let f = match filters {
        Some(f) => f,
        None => return Err(owned("Filters missing")),
    };
    let no_company = match &f.company {
        Some(c) => c.as_str().is_empty(),
        None => true,
    };
    if no_company {
        return Err(owned("Company is mandatory"));
    }
    if str_less(f.to_date.as_str(), f.from_date.as_str()) {
        return Err(owned("Start Date should be lower than End Date"));
    }
    Ok(())
}

/// Each account quoted.
pub open spec fn quoted(accounts: Seq<Seq<char>>) -> Seq<Seq<char>> {
    Seq::new(accounts.len(), |i: int| "'"@ + accounts[i] + "'"@)
}

/// The account filter when accounts are given, then the voucher filter when
/// a voucher is given.
pub open spec fn spec_query_filters(f: InvalidLedgerEntryFilters) -> Seq<Seq<char>> {
    (if f.account@.len() > 0 { seq!["account in ["@ + joined(quoted(f.account.deep_view()), ", "@) + "]"@] } else { Seq::empty() })
    + match f.voucher_no { Some(v) => seq!["voucher_no = "@ + v@], None => Seq::empty() }
}

pub fn build_query_filters(filters: &InvalidLedgerEntryFilters) -> (r: Vec<String>)
    ensures
        r.deep_view() == spec_query_filters(*filters),
{
    let mut r: Vec<String> = Vec::new();
    if filters.account.len() > 0 {
        let ghost accounts = filters.account.deep_view();
        let mut quoted_accounts: Vec<String> = Vec::new();
        let mut i: usize = 0;
        while i < filters.account.len()
            invariant
                i <= filters.account@.len(),
                accounts == filters.account.deep_view(),
                quoted_accounts.deep_view() == quoted(accounts).subrange(0, i as int),
            decreases filters.account@.len() - i,
        {
            let q = concat(concat("'", filters.account[i].as_str()).as_str(), "'");
            let ghost before = quoted_accounts.deep_view();
            quoted_accounts.push(q);
            assert(quoted_accounts.deep_view() =~= before.push(q@));
            assert(accounts[i as int] == filters.account[i as int]@);
            i = i + 1;
            assert(quoted_accounts.deep_view() =~= quoted(accounts).subrange(0, i as int));
        }
        assert(quoted(accounts).subrange(0, i as int) =~= quoted(accounts));
        let list = crate::text::join_strings(&quoted_accounts, ", ");
        r.push(concat(concat("account in [", list.as_str()).as_str(), "]"));
    }
    let ghost s1 = r.deep_view();
    assert(s1 =~= if filters.account@.len() > 0 {
        seq!["account in ["@ + joined(quoted(filters.account.deep_view()), ", "@) + "]"@] } else { Seq::empty() });
    if let Some(v) = &filters.voucher_no {
        r.push(concat("voucher_no = ", v.as_str()));
    }
    assert(r.deep_view() =~= spec_query_filters(*filters));
    r
}

impl ActiveVoucherQueryPlan {
    /// The general ledger (cancelled by `is_cancelled`) and the payment
    /// ledger (cancelled by `delinked`), each for the company, the dates and
    /// the further filters.
    pub fn from_filters(filters: &InvalidLedgerEntryFilters) -> (r: Vec<Self>)
        ensures
            r@.len() == 2,
            r@[0].source_doctype@ == "GL Entry"@,
            r@[0].cancelled_field@ == "is_cancelled"@,
            r@[1].source_doctype@ == "Payment Ledger Entry"@,
            r@[1].cancelled_field@ == "delinked"@,
            forall|i: int| 0 <= i < 2 ==> {
                &&& (#[trigger] r@[i]).company@ == match filters.company { Some(c) => c@, None => Seq::empty() }
                &&& r@[i].from_date@ == filters.from_date@
                &&& r@[i].to_date@ == filters.to_date@
                &&& r@[i].extra_filters.deep_view() == spec_query_filters(*filters)
            },
    {
        let company = match &filters.company {
            Some(c) => c.clone(),
            None => String::new(),
        };
        let extra = build_query_filters(filters);
        let extra2 = build_query_filters(filters);
        vec![
            ActiveVoucherQueryPlan {
                source_doctype: "GL Entry",
                cancelled_field: "is_cancelled",
                company: company.clone(),
                from_date: filters.from_date.clone(),
                to_date: filters.to_date.clone(),
                extra_filters: extra,
            },
            ActiveVoucherQueryPlan {
                source_doctype: "Payment Ledger Entry",
                cancelled_field: "delinked",
                company,
                from_date: filters.from_date.clone(),
                to_date: filters.to_date.clone(),
                extra_filters: extra2,
            },
        ]
    }
}

pub type VoucherView = (Seq<char>, Seq<char>);

/// The order of vouchers: by type, then by number.
pub open spec fn voucher_less(a: VoucherView, b: VoucherView) -> bool {
    lex_less(a.0, b.0) || (a.0 == b.0 && lex_less(a.1, b.1))
}

/// Each voucher comes before every later one, so none occurs twice.
pub open spec fn strictly_sorted(s: Seq<VoucherView>) -> bool {
    forall|i: int, j: int| 0 <= i < j < s.len() ==> voucher_less(#[trigger] s[i], #[trigger] s[j])
}

proof fn lemma_voucher_order(a: VoucherView, b: VoucherView, c: VoucherView)
    ensures
        !voucher_less(a, a),
        voucher_less(a, b) && voucher_less(b, c) ==> voucher_less(a, c),
        a != b ==> voucher_less(a, b) || voucher_less(b, a),
{
    lemma_lex_irreflexive(a.0);
    lemma_lex_irreflexive(a.1);
    if voucher_less(a, b) && voucher_less(b, c) {
        if lex_less(a.0, b.0) && lex_less(b.0, c.0) {
            lemma_lex_transitive(a.0, b.0, c.0);
        } else if lex_less(a.0, b.0) {
        } else if lex_less(b.0, c.0) {
        } else {
            lemma_lex_transitive(a.1, b.1, c.1);
        }
    }
    if a != b {
        if a.0 != b.0 {
            lemma_lex_total(a.0, b.0);
        } else {
            lemma_lex_total(a.1, b.1);
        }
    }
}

fn voucher_lt(a: &LedgerVoucher, b: &LedgerVoucher) -> (r: bool)
    ensures
        r == voucher_less(a.deep_view(), b.deep_view()),
{
    str_less(a.voucher_type.as_str(), b.voucher_type.as_str())
        || (str_eq(a.voucher_type.as_str(), b.voucher_type.as_str()) && str_less(a.voucher_no.as_str(), b.voucher_no.as_str()))
}

fn same_voucher(a: &LedgerVoucher, b: &LedgerVoucher) -> (r: bool)
    ensures
        r == (a.deep_view() == b.deep_view()),
{
    str_eq(a.voucher_type.as_str(), b.voucher_type.as_str()) && str_eq(a.voucher_no.as_str(), b.voucher_no.as_str())
}

fn holds_voucher(vouchers: &[LedgerVoucher], v: &LedgerVoucher) -> (r: bool)
    ensures
        r == vouchers.deep_view().contains(v.deep_view()),
{
    let mut i: usize = 0;
    while i < vouchers.len()
        invariant
            i <= vouchers@.len(),
            forall|j: int| 0 <= j < i ==> vouchers.deep_view()[j] != v.deep_view(),
        decreases vouchers@.len() - i,
    {
        if same_voucher(&vouchers[i], v) {
            assert(vouchers.deep_view()[i as int] == v.deep_view());
            return true;
        }
        i = i + 1;
    }
    false
}

/// A strictly sorted list of vouchers is fixed by the vouchers it holds: two
/// such lists with the same members are one list. So the cancelled vouchers
/// found do not depend on the order in which either list comes, nor on which
/// of the two lists is given first.
pub proof fn lemma_sorted_vouchers_unique(s1: Seq<VoucherView>, s2: Seq<VoucherView>)
    requires
        strictly_sorted(s1),
        strictly_sorted(s2),
        forall|v: VoucherView| s1.contains(v) <==> s2.contains(v),
    ensures
        s1 == s2,
    decreases s1.len(),
{
    if s1.len() == 0 {
        if s2.len() > 0 {
            assert(s2.contains(s2[0]));
        }
        assert(s1 =~= s2);
    } else {
        assert(s1.contains(s1[0]));
        let j = choose|j: int| 0 <= j < s2.len() && s2[j] == s1[0];
        assert(s2.contains(s2[0]));
        let i = choose|i: int| 0 <= i < s1.len() && s1[i] == s2[0];
        if j > 0 {
            assert(voucher_less(s2[0], s2[j]));
            if i > 0 {
                assert(voucher_less(s1[0], s1[i]));
                lemma_voucher_order(s1[0], s2[0], s1[0]);
            } else {
                lemma_voucher_order(s1[0], s1[0], s1[0]);
            }
        }
        assert(s1[0] == s2[0]);
        let t1 = s1.skip(1);
        let t2 = s2.skip(1);
        assert forall|v: VoucherView| t1.contains(v) <==> t2.contains(v) by {
            if t1.contains(v) {
                let a = choose|a: int| 0 <= a < t1.len() && t1[a] == v;
                assert(s1[a + 1] == v);
                assert(voucher_less(s1[0], s1[a + 1]));
                lemma_voucher_order(v, v, v);
                assert(s2.contains(v));
                let b = choose|b: int| 0 <= b < s2.len() && s2[b] == v;
                assert(b != 0);
                assert(t2[b - 1] == v);
            }
            if t2.contains(v) {
                let a = choose|a: int| 0 <= a < t2.len() && t2[a] == v;
                assert(s2[a + 1] == v);
                assert(voucher_less(s2[0], s2[a + 1]));
                lemma_voucher_order(v, v, v);
                assert(s1.contains(v));
                let b = choose|b: int| 0 <= b < s1.len() && s1[b] == v;
                assert(b != 0);
                assert(t1[b - 1] == v);
            }
        }
        assert(strictly_sorted(t1)) by {
            assert forall|x: int, y: int| 0 <= x < y < t1.len() implies voucher_less(#[trigger] t1[x], #[trigger] t1[y]) by {
                assert(t1[x] == s1[x + 1] && t1[y] == s1[y + 1]);
            }
        }
        assert(strictly_sorted(t2)) by {
            assert forall|x: int, y: int| 0 <= x < y < t2.len() implies voucher_less(#[trigger] t2[x], #[trigger] t2[y]) by {
                assert(t2[x] == s2[x + 1] && t2[y] == s2[y + 1]);
            }
        }
        lemma_sorted_vouchers_unique(t1, t2);
        assert(s1 =~= seq![s1[0]] + t1);
        assert(s2 =~= seq![s2[0]] + t2);
    }
}

fn insertion_point(sorted: &Vec<LedgerVoucher>, v: &LedgerVoucher) -> (p: usize)
    ensures
        p <= sorted@.len(),
        forall|i: int| 0 <= i < p ==> voucher_less(#[trigger] sorted.deep_view()[i], v.deep_view()),
        p < sorted@.len() ==> !voucher_less(sorted.deep_view()[p as int], v.deep_view()),
{
    let mut p: usize = 0;
    while p < sorted.len() && voucher_lt(&sorted[p], v)
        invariant
            p <= sorted@.len(),
            forall|i: int| 0 <= i < p ==> voucher_less(#[trigger] sorted.deep_view()[i], v.deep_view()),
        decreases sorted@.len() - p,
    {
        p = p + 1;
    }
    p
}

/// The vouchers that are both active and cancelled, each once, in order of
/// type and number.
pub fn identify_cancelled_vouchers(active_vouchers: &[LedgerVoucher], non_active_vouchers: &[LedgerVoucher]) -> (r: Vec<LedgerVoucher>)
    ensures
        strictly_sorted(r.deep_view()),
        forall|v: VoucherView| #[trigger] r.deep_view().contains(v)
            <==> active_vouchers.deep_view().contains(v) && non_active_vouchers.deep_view().contains(v),
{
    let ghost active = active_vouchers.deep_view();
    let ghost cancelled = non_active_vouchers.deep_view();
    let mut r: Vec<LedgerVoucher> = Vec::new();
    let mut i: usize = 0;
    while i < active_vouchers.len()
        invariant
            i <= active_vouchers@.len(),
            active == active_vouchers.deep_view(),
            cancelled == non_active_vouchers.deep_view(),
            strictly_sorted(r.deep_view()),
            forall|v: VoucherView| #[trigger] r.deep_view().contains(v)
                <==> active.subrange(0, i as int).contains(v) && cancelled.contains(v),
        decreases active_vouchers@.len() - i,
    {
        let v = &active_vouchers[i];
        let ghost vv = v.deep_view();
        let ghost old_r = r.deep_view();
        assert(active.subrange(0, i + 1) =~= active.subrange(0, i as int).push(vv));
        if holds_voucher(non_active_vouchers, v) {
            let p = insertion_point(&r, v);
            if p < r.len() && same_voucher(&r[p], v) {
                assert(old_r[p as int] == vv);
            } else {
                r.insert(p, v.copy());
                assert(r.deep_view() =~= old_r.insert(p as int, vv));
                assert forall|a: int, b: int| 0 <= a < b < r.deep_view().len()
                    implies voucher_less(#[trigger] r.deep_view()[a], #[trigger] r.deep_view()[b]) by {
                    let rv = r.deep_view();
                    if b < p {
                    } else if a < p && b == p {
                    } else if a < p {
                        lemma_voucher_order(old_r[a], vv, old_r[b - 1]);
                        lemma_voucher_order(vv, old_r[p as int], old_r[b - 1]);
                        if b - 1 > p {
                            assert(voucher_less(old_r[p as int], old_r[b - 1]));
                        }
                        lemma_voucher_order(old_r[p as int], vv, vv);
                    } else if a == p {
                        lemma_voucher_order(old_r[p as int], vv, vv);
                        lemma_voucher_order(vv, old_r[p as int], old_r[b - 1]);
                        if b - 1 > p {
                            assert(voucher_less(old_r[p as int], old_r[b - 1]));
                        }
                    } else {
                        assert(rv[a] == old_r[a - 1] && rv[b] == old_r[b - 1]);
                    }
                }
                assert forall|x: VoucherView| #[trigger] r.deep_view().contains(x)
                    <==> old_r.contains(x) || x == vv by {
                    if r.deep_view().contains(x) {
                        let k = choose|k: int| 0 <= k < r.deep_view().len() && #[trigger] r.deep_view()[k] == x;
                        if k < p { assert(old_r[k] == x); } else if k > p { assert(old_r[k - 1] == x); }
                    }
                    if old_r.contains(x) {
                        let k = choose|k: int| 0 <= k < old_r.len() && #[trigger] old_r[k] == x;
                        if k < p { assert(r.deep_view()[k] == x); } else { assert(r.deep_view()[k + 1] == x); }
                    }
                    if x == vv {
                        assert(r.deep_view()[p as int] == x);
                    }
                }
            }
        }
        assert forall|x: VoucherView| #[trigger] r.deep_view().contains(x)
            <==> active.subrange(0, i + 1).contains(x) && cancelled.contains(x) by {
            if active.subrange(0, i + 1).contains(x) && x != vv {
                let k = choose|k: int| 0 <= k < i + 1 && #[trigger] active.subrange(0, i + 1)[k] == x;
                assert(active.subrange(0, i as int)[k] == x);
            }
            if active.subrange(0, i as int).contains(x) {
                let k = choose|k: int| 0 <= k < i && #[trigger] active.subrange(0, i as int)[k] == x;
                assert(active.subrange(0, i + 1)[k] == x);
            }
            if x == vv {
                assert(active.subrange(0, i + 1)[i as int] == x);
            }
        }
        i = i + 1;
    }
    assert(active.subrange(0, i as int) =~= active);
    r
}

/// The report: the filters checked, then the columns and the vouchers that
/// are active and cancelled.
pub fn execute(filters: InvalidLedgerEntryFilters, active_vouchers: Vec<LedgerVoucher>, non_active_vouchers: Vec<LedgerVoucher>)
    -> (r: Result<InvalidLedgerEntriesReport, String>)
    ensures
        match (r, spec_validate(Some(filters))) {
            (Ok(report), Ok(_)) => {
                &&& report.columns.deep_view() == spec_columns()
                &&& strictly_sorted(report.rows.deep_view())
                &&& forall|v: VoucherView| #[trigger] report.rows.deep_view().contains(v)
                    <==> active_vouchers.deep_view().contains(v) && non_active_vouchers.deep_view().contains(v)
            },
            (Err(e), Err(v)) => e@ == v,
            _ => false,
        },
{
    match validate_filters(Some(&filters)) {
        Ok(_) => {},
        Err(e) => return Err(e),
    }
    let rows = identify_cancelled_vouchers(active_vouchers.as_slice(), non_active_vouchers.as_slice());
    Ok(InvalidLedgerEntriesReport { columns: get_columns(), rows })
}

} // verus!
