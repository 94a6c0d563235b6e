//! Consolidated financial statement: a company's subsidiaries in the order of
//! the group tree, the subsidiaries of each, the per-company columns, and the
//! tree of accounts keyed by number and name.
use vstd::prelude::*;
use std::collections::BTreeMap;
use vstd::std_specs::btree::lemma_btree_map_deepview_dom;
use crate::erpnext::accounts::report::{map_get, map_insert};
use crate::erpnext::accounts::report::financial_statements::{
    account_listing, filter_accounts as statement_listing, listing_view, wins, AccountNodeKeys, NodeView,
};
use crate::text::{concat, owned, str_eq};

verus! {

#[derive(Debug, PartialEq, Eq)]
pub struct ConsolidatedFilters {
    pub company: String,
    pub report: String,
    pub from_fiscal_year: String,
    pub to_fiscal_year: String,
    pub filter_based_on: String,
    pub period_start_date: Option<String>,
    pub period_end_date: Option<String>,
    pub presentation_currency: Option<String>,
    pub accumulated_in_group_company: bool,
    pub show_zero_values: bool,
}

#[derive(Debug, PartialEq, Eq)]
pub struct FiscalYearData {
    pub year_start_date: String,
    pub year_end_date: String,
}

/// A company of the group tree: its parent, nested-set bounds and currency.
#[derive(Debug, PartialEq, Eq)]
pub struct CompanyNode {
    pub name: String,
    pub parent_company: Option<String>,
    pub lft: i32,
    pub rgt: i32,
    pub default_currency: String,
}

#[derive(Debug, PartialEq, Eq)]
pub struct ReportColumn {
    pub fieldname: String,
    pub label: String,
    pub fieldtype: String,
    pub options: Option<String>,
    pub width: u16,
    pub hidden: bool,
    pub apply_currency_formatter: bool,
    pub company_name: Option<String>,
}

/// field name, label, field type, options, width, hidden, currency formatter, company
pub type ColumnView = (Seq<char>, Seq<char>, Seq<char>, Option<Seq<char>>, u16, bool, bool, Option<Seq<char>>);

impl DeepView for ReportColumn {
    type V = ColumnView;

    open spec fn deep_view(&self) -> ColumnView {
        (self.fieldname@, self.label@, self.fieldtype@, self.options.deep_view(), self.width, self.hidden,
            self.apply_currency_formatter, self.company_name.deep_view())
    }
}

impl ReportColumn {
    pub fn link(label: &str, fieldname: &str, options: &str, width: u16, hidden: bool) -> (r: Self)
        ensures
            r.deep_view() == (fieldname@, label@, "Link"@, Some(options@), width, hidden, false, None::<Seq<char>>),
    {
        ReportColumn {
            fieldname: owned(fieldname), label: owned(label), fieldtype: owned("Link"), options: Some(owned(options)),
            width, hidden, apply_currency_formatter: false, company_name: None,
        }
    }

    pub fn currency(label: &str, fieldname: &str, width: u16, apply_currency_formatter: bool, company_name: Option<&str>) -> (r: Self)
        ensures
            r.deep_view() == (fieldname@, label@, "Currency"@, Some("currency"@), width, false, apply_currency_formatter,
                match company_name { Some(c) => Some(c@), None => None }),
    {
        ReportColumn {
            fieldname: owned(fieldname), label: owned(label), fieldtype: owned("Currency"), options: Some(owned("currency")),
            width, hidden: false, apply_currency_formatter,
            company_name: match company_name { Some(c) => Some(owned(c)), None => None },
        }
    }

    fn copy(&self) -> (r: Self)
        ensures
            r.deep_view() == self.deep_view(),
    {
        ReportColumn {
            fieldname: self.fieldname.clone(), label: self.label.clone(), fieldtype: self.fieldtype.clone(),
            options: match &self.options { Some(o) => Some(o.clone()), None => None },
            width: self.width, hidden: self.hidden, apply_currency_formatter: self.apply_currency_formatter,
            company_name: match &self.company_name { Some(c) => Some(c.clone()), None => None },
        }
    }
}

/// The account and hidden currency columns, then the companies' columns.
pub fn get_columns(company_columns: &[ReportColumn]) -> (r: Vec<ReportColumn>)
    ensures
        r.deep_view() == seq![
            ("account"@, "Account"@, "Link"@, Some("Account"@), 300u16, false, false, None::<Seq<char>>),
            ("currency"@, "Currency"@, "Link"@, Some("Currency"@), 0u16, true, false, None::<Seq<char>>),
        ] + company_columns.deep_view(),
{
    let mut columns = vec![
        ReportColumn::link("Account", "account", "Account", 300, false),
        ReportColumn::link("Currency", "currency", "Currency", 0, true),
    ];
    let ghost head = columns.deep_view();
    let mut i: usize = 0;
    while i < company_columns.len()
        invariant
            i <= company_columns@.len(),
            columns.deep_view() == head + company_columns.deep_view().subrange(0, i as int),
        decreases company_columns@.len() - i,
    {
        let c = company_columns[i].copy();
        let ghost before = columns.deep_view();
        columns.push(c);
        assert(columns.deep_view() =~= before.push(c.deep_view()));
        i = i + 1;
        assert(columns.deep_view() =~= head + company_columns.deep_view().subrange(0, i as int));
    }
    assert(company_columns.deep_view().subrange(0, i as int) =~= company_columns.deep_view());
    columns
}

/// The index of the first company of the tree with the name.
pub open spec fn company_index(tree: Seq<CompanyNode>, name: Seq<char>) -> Option<int>
    decreases tree.len(),
{
    if tree.len() == 0 {
        None
    } else if tree[0].name@ == name {
        Some(0)
    } else {
        match company_index(tree.skip(1), name) {
            Some(k) => Some(k + 1),
            None => None,
        }
    }
}

proof fn lemma_company_index(tree: Seq<CompanyNode>, name: Seq<char>)
    ensures
        company_index(tree, name) matches Some(k) ==> 0 <= k < tree.len() && tree[k].name@ == name,
        company_index(tree, name) is None ==> forall|j: int| 0 <= j < tree.len() ==> #[trigger] tree[j].name@ != name,
    decreases tree.len(),
{
    if tree.len() > 0 {
        lemma_company_index(tree.skip(1), name);
        if tree[0].name@ != name {
            assert forall|j: int| 1 <= j < tree.len() implies #[trigger] tree[j].name@ == tree.skip(1)[j - 1].name@ by {}
        }
    }
}

fn find_company(tree: &[CompanyNode], name: &str) -> (r: Option<usize>)
    ensures
        match (r, company_index(tree@, name@)) {
            (Some(k), Some(j)) => k == j && k < tree@.len(),
            (None, None) => true,
            _ => false,
        },
{
    let mut i: usize = 0;
    assert(tree@.skip(0) =~= tree@);
    while i < tree.len() && !str_eq(tree[i].name.as_str(), name)
        invariant
            i <= tree@.len(),
            match company_index(tree@, name@) {
                Some(j) => match company_index(tree@.skip(i as int), name@) { Some(j2) => j == j2 + i, None => false },
                None => company_index(tree@.skip(i as int), name@) is None,
            },
        decreases tree@.len() - i,
    {
        assert(tree@.skip(i as int)[0] == tree@[i as int]);
        assert(tree@.skip(i as int).skip(1) =~= tree@.skip(i + 1));
        i = i + 1;
    }
    if i == tree.len() {
        None
    } else {
        assert(tree@.skip(i as int)[0] == tree@[i as int]);
        Some(i)
    }
}

/// `(lft, rgt)` of `a` is not above that of `b`.
pub open spec fn bounds_le(a: CompanyNode, b: CompanyNode) -> bool {
    a.lft < b.lft || (a.lft == b.lft && a.rgt <= b.rgt)
}

/// `x` placed after every index whose company's bounds are not above its
/// own: one step of a stable sort by `(lft, rgt)`.
pub open spec fn insert_by_bounds(tree: Seq<CompanyNode>, sorted: Seq<int>, x: int) -> Seq<int>
    decreases sorted.len(),
{
    if sorted.len() == 0 {
        seq![x]
    } else if bounds_le(tree[sorted.last()], tree[x]) {
        sorted.push(x)
    } else {
        insert_by_bounds(tree, sorted.drop_last(), x).push(sorted.last())
    }
}

/// The companies of the tree below `m` within the bounds of the company at
/// `node`, stably sorted by `(lft, rgt)`.
pub open spec fn sorted_within(tree: Seq<CompanyNode>, node: int, m: nat) -> Seq<int>
    decreases m,
{
    if m == 0 {
        Seq::empty()
    } else {
        let s = sorted_within(tree, node, (m - 1) as nat);
        let x = m - 1;
        if tree[x].lft >= tree[node].lft && tree[x].rgt <= tree[node].rgt { insert_by_bounds(tree, s, x) } else { s }
    }
}

proof fn lemma_insert_at(tree: Seq<CompanyNode>, sorted: Seq<int>, x: int, p: int)
    requires
        0 <= p <= sorted.len(),
        forall|j: int| p <= j < sorted.len() ==> !bounds_le(tree[#[trigger] sorted[j]], tree[x]),
        p > 0 ==> bounds_le(tree[sorted[p - 1]], tree[x]),
    ensures
        insert_by_bounds(tree, sorted, x) == sorted.insert(p, x),
    decreases sorted.len(),
{
    if sorted.len() == 0 {
        assert(sorted.insert(p, x) =~= seq![x]);
    } else if bounds_le(tree[sorted.last()], tree[x]) {
        assert(p == sorted.len());
        assert(sorted.insert(p, x) =~= sorted.push(x));
    } else {
        lemma_insert_at(tree, sorted.drop_last(), x, p);
        assert(sorted.drop_last().insert(p, x).push(sorted.last()) =~= sorted.insert(p, x));
    }
}

pub open spec fn names_of(tree: Seq<CompanyNode>, indices: Seq<int>) -> Seq<Seq<char>> {
    Seq::new(indices.len(), |j: int| tree[indices[j]].name@)
}

pub open spec fn not_found(name: Seq<char>) -> Seq<char> {
    "Company "@ + name + " not found"@
}

/// The company and the companies within its bounds, in order of bounds (the
/// tree's order among equal bounds); an error when it is not in the tree.
pub open spec fn subsidiaries(tree: Seq<CompanyNode>, company: Seq<char>) -> Result<Seq<Seq<char>>, Seq<char>> {
    match company_index(tree, company) {
        Some(k) => Ok(names_of(tree, sorted_within(tree, k, tree.len()))),
        None => Err(not_found(company)),
    }
}

pub fn get_subsidiary_companies(company: &str, company_tree: &[CompanyNode]) -> (r: Result<Vec<String>, String>)
    ensures
        match (r, subsidiaries(company_tree@, company@)) {
            (Ok(v), Ok(s)) => v.deep_view() == s,
            (Err(e), Err(s)) => e@ == s,
            _ => false,
        },
{
    let ghost tree = company_tree@;
    let k = match find_company(company_tree, company) {
        Some(k) => k,
        None => return Err(concat(concat("Company ", company).as_str(), " not found")),
    };
    let n = company_tree.len();
    let mut sorted: Vec<usize> = Vec::new();
    let mut i: usize = 0;
    while i < n
        invariant
            n == tree.len(),
            tree == company_tree@,
            k < n,
            i <= n,
            sorted@.map_values(|v: usize| v as int) == sorted_within(tree, k as int, i as nat),
            forall|j: int| 0 <= j < sorted@.len() ==> #[trigger] sorted@[j] < n,
        decreases n - i,
    {
        let node = &company_tree[i];
        if node.lft >= company_tree[k].lft && node.rgt <= company_tree[k].rgt {
            let ghost before = sorted@.map_values(|v: usize| v as int);
            let mut p: usize = sorted.len();
            while p > 0 && !(company_tree[sorted[p - 1]].lft < node.lft
                || (company_tree[sorted[p - 1]].lft == node.lft && company_tree[sorted[p - 1]].rgt <= node.rgt))
                invariant
                    p <= sorted@.len(),
                    n == tree.len(),
                    tree == company_tree@,
                    i < n,
                    *node == tree[i as int],
                    forall|j: int| 0 <= j < sorted@.len() ==> #[trigger] sorted@[j] < n,
                    forall|j: int| p <= j < sorted@.len() ==> !bounds_le(tree[#[trigger] sorted@[j] as int], *node),
                decreases p,
            {
                p = p - 1;
            }
            proof {
                lemma_insert_at(tree, before, i as int, p as int);
            }
            sorted.insert(p, i);
            assert(sorted@.map_values(|v: usize| v as int) =~= before.insert(p as int, i as int));
        }
        i = i + 1;
    }
    let ghost sub = sorted@.map_values(|v: usize| v as int);
    let mut out: Vec<String> = Vec::new();
    let mut j: usize = 0;
    while j < sorted.len()
        invariant
            j <= sorted@.len(),
            sub == sorted@.map_values(|v: usize| v as int),
            tree == company_tree@,
            forall|q: int| 0 <= q < sorted@.len() ==> #[trigger] sorted@[q] < tree.len(),
            out.deep_view() == names_of(tree, sub).subrange(0, j as int),
        decreases sorted@.len() - j,
    {
        let ghost before = out.deep_view();
        out.push(company_tree[sorted[j]].name.clone());
        assert(out.deep_view() =~= before.push(names_of(tree, sub)[j as int]));
        j = j + 1;
        assert(out.deep_view() =~= names_of(tree, sub).subrange(0, j as int));
    }
    assert(names_of(tree, sub).subrange(0, j as int) =~= names_of(tree, sub));
    Ok(out)
}

proof fn lemma_insert_members(tree: Seq<CompanyNode>, sorted: Seq<int>, x: int)
    ensures
        forall|j: int| 0 <= j < insert_by_bounds(tree, sorted, x).len() ==> {
            let v = #[trigger] insert_by_bounds(tree, sorted, x)[j];
            v == x || sorted.contains(v)
        },
    decreases sorted.len(),
{
    if sorted.len() > 0 && !bounds_le(tree[sorted.last()], tree[x]) {
        lemma_insert_members(tree, sorted.drop_last(), x);
        let r = insert_by_bounds(tree, sorted.drop_last(), x);
        assert forall|j: int| 0 <= j < insert_by_bounds(tree, sorted, x).len() implies {
            let v = #[trigger] insert_by_bounds(tree, sorted, x)[j];
            v == x || sorted.contains(v)
        } by {
            if j < r.len() {
                let v = r[j];
                if v != x {
                    let q = choose|q: int| 0 <= q < sorted.drop_last().len() && sorted.drop_last()[q] == v;
                    assert(sorted[q] == v);
                }
            } else {
                assert(sorted[sorted.len() - 1] == sorted.last());
            }
        }
    } else if sorted.len() > 0 {
        assert forall|j: int| 0 <= j < insert_by_bounds(tree, sorted, x).len() implies {
            let v = #[trigger] insert_by_bounds(tree, sorted, x)[j];
            v == x || sorted.contains(v)
        } by {
            if j < sorted.len() {
                assert(sorted[j] == insert_by_bounds(tree, sorted, x)[j]);
            }
        }
    }
}

proof fn lemma_sorted_within_indices(tree: Seq<CompanyNode>, node: int, m: nat)
    requires
        m <= tree.len(),
    ensures
        forall|j: int| 0 <= j < sorted_within(tree, node, m).len() ==> 0 <= #[trigger] sorted_within(tree, node, m)[j] < m,
    decreases m,
{
    if m > 0 {
        let s = sorted_within(tree, node, (m - 1) as nat);
        lemma_sorted_within_indices(tree, node, (m - 1) as nat);
        lemma_insert_members(tree, s, m - 1);
        assert forall|j: int| 0 <= j < sorted_within(tree, node, m).len() implies 0 <= #[trigger] sorted_within(tree, node, m)[j] < m by {
            let v = sorted_within(tree, node, m)[j];
            if v != m - 1 && s.contains(v) {
                let q = choose|q: int| 0 <= q < s.len() && s[q] == v;
                assert(0 <= s[q] < m - 1);
            }
        }
    }
}

/// Each company named among the subsidiaries of a company is found in the
/// tree, so its own subsidiaries can be listed.
proof fn lemma_subsidiaries_found(tree: Seq<CompanyNode>, company: Seq<char>, name: Seq<char>)
    requires
        subsidiaries(tree, company) is Ok,
        subsidiaries(tree, company)->Ok_0.contains(name),
    ensures
        subsidiaries(tree, name) is Ok,
{
    lemma_company_index(tree, company);
    let k = company_index(tree, company)->Some_0;
    lemma_sorted_within_indices(tree, k, tree.len());
    let all = subsidiaries(tree, company)->Ok_0;
    let q = choose|q: int| 0 <= q < all.len() && all[q] == name;
    let idx = sorted_within(tree, k, tree.len())[q];
    assert(tree[idx].name@ == name);
    lemma_company_index(tree, name);
}

/// The subsidiaries of each company listed: the company itself maps to the
/// whole list, every company of the list to its own subsidiaries.
pub open spec fn subsidiary_map(tree: Seq<CompanyNode>, company: Seq<char>, all: Seq<Seq<char>>)
    -> Map<Seq<char>, Seq<Seq<char>>>
{
    Map::new(
        |k: Seq<char>| k == company || all.contains(k),
        |k: Seq<char>| if k == company { all } else {
            match subsidiaries(tree, k) { Ok(s) => s, Err(_) => Seq::empty() }
        },
    )
}

pub open spec fn spec_companies(tree: Seq<CompanyNode>, company: Seq<char>)
    -> Result<(Seq<Seq<char>>, Map<Seq<char>, Seq<Seq<char>>>), Seq<char>>
{
    match subsidiaries(tree, company) {
        Ok(all) => Ok((all, subsidiary_map(tree, company, all))),
        Err(e) => Err(e),
    }
}

fn copy_names(names: &Vec<String>) -> (r: Vec<String>)
    ensures
        r.deep_view() == names.deep_view(),
{
    let mut out: Vec<String> = Vec::new();
    let mut i: usize = 0;
    while i < names.len()
        invariant
            i <= names@.len(),
            out.deep_view() == names.deep_view().subrange(0, i as int),
        decreases names@.len() - i,
    {
        let ghost before = out.deep_view();
        out.push(owned(names[i].as_str()));
        assert(out.deep_view() =~= before.push(names.deep_view()[i as int]));
        i = i + 1;
        assert(out.deep_view() =~= names.deep_view().subrange(0, i as int));
    }
    assert(names.deep_view().subrange(0, i as int) =~= names.deep_view());
    out
}

/// The company's subsidiaries, and for the company and each of them the list
/// of its own subsidiaries.
pub fn get_companies(filters: &ConsolidatedFilters, company_tree: &[CompanyNode])
    -> (r: Result<(Vec<String>, BTreeMap<String, Vec<String>>), String>)
    ensures
        match (r, spec_companies(company_tree@, filters.company@)) {
            (Ok((all, map)), Ok((s, m))) => all.deep_view() == s && map.deep_view() == m,
            (Err(e), Err(s)) => e@ == s,
            _ => false,
        },
{
    let ghost tree = company_tree@;
    let ghost company = filters.company@;
    let all = match get_subsidiary_companies(filters.company.as_str(), company_tree) {
        Ok(v) => v,
        Err(e) => return Err(e),
    };
    let ghost target = subsidiary_map(tree, company, all.deep_view());
    let mut companies: BTreeMap<String, Vec<String>> = BTreeMap::new();
    proof {
        lemma_btree_map_deepview_dom(companies);
        assert(companies.deep_view() =~= Map::empty());
    }
    map_insert(&mut companies, owned(filters.company.as_str()), copy_names(&all));
    let mut i: usize = 0;
    while i < all.len()
        invariant
            i <= all@.len(),
            tree == company_tree@,
            company == filters.company@,
            subsidiaries(tree, company) == Ok::<Seq<Seq<char>>, Seq<char>>(all.deep_view()),
            target == subsidiary_map(tree, company, all.deep_view()),
            companies.deep_view() == target.restrict(Set::new(|k: Seq<char>| k == company
                || all.deep_view().subrange(0, i as int).contains(k))),
        decreases all@.len() - i,
    {
        let ghost name = all.deep_view()[i as int];
        let ghost pre = all.deep_view().subrange(0, i as int);
        let ghost pre1 = all.deep_view().subrange(0, i + 1);
        let ghost done = Set::new(|k: Seq<char>| k == company || pre.contains(k));
        let ghost next = Set::new(|k: Seq<char>| k == company || pre1.contains(k));
        assert(all.deep_view()[i as int] == name);
        assert(all.deep_view().contains(name));
        assert(next =~= done.insert(name)) by {
            assert forall|k: Seq<char>| next.contains(k) implies done.insert(name).contains(k) by {
                if k != company && k != name {
                    let q = choose|q: int| 0 <= q < pre1.len() && #[trigger] pre1[q] == k;
                    assert(q < i);
                    assert(pre[q] == k);
                }
            }
            assert forall|k: Seq<char>| done.insert(name).contains(k) implies next.contains(k) by {
                if k == name {
                    assert(pre1[i as int] == name);
                } else if k != company {
                    let q = choose|q: int| 0 <= q < pre.len() && #[trigger] pre[q] == k;
                    assert(pre1[q] == k);
                }
            }
        }
        let known = map_get(&companies, all[i].as_str()).is_some();
        if !known {
            proof { lemma_subsidiaries_found(tree, company, name); }
            let subs = match get_subsidiary_companies(all[i].as_str(), company_tree) {
                Ok(v) => v,
                Err(e) => return Err(e),
            };
            map_insert(&mut companies, owned(all[i].as_str()), subs);
            assert(companies.deep_view() =~= target.restrict(next));
        } else {
            assert(companies.deep_view() =~= target.restrict(next));
        }
        i = i + 1;
    }
    proof {
        let whole = Set::new(|k: Seq<char>| k == company || all.deep_view().subrange(0, i as int).contains(k));
        assert(all.deep_view().subrange(0, i as int) =~= all.deep_view());
        assert(whole =~= target.dom());
        assert(target.restrict(whole) =~= target);
    }
    Ok((all, companies))
}

/// The column of a company: its amounts in the presentation currency, or in
/// its own default currency (then formatted per company).
pub open spec fn company_column(company: Seq<char>, currency: Seq<char>, presentation: bool) -> ColumnView {
    (company, company + " ("@ + currency + ")"@, "Currency"@, Some("currency"@), 150u16, false, !presentation, Some(company))
}

/// The presentation currency the filters name, if any.
pub open spec fn presentation_of(f: ConsolidatedFilters) -> Option<Seq<char>> {
    match f.presentation_currency {
        Some(p) => Some(p@),
        None => None,
    }
}

/// One column per company, in order; an error at the first company that is
/// not in the tree.
pub open spec fn spec_company_columns(companies: Seq<Seq<char>>, tree: Seq<CompanyNode>, presentation: Option<Seq<char>>)
    -> Result<Seq<ColumnView>, Seq<char>>
    decreases companies.len(),
{
    if companies.len() == 0 {
        Ok(Seq::empty())
    } else {
        match spec_company_columns(companies.drop_last(), tree, presentation) {
            Err(e) => Err(e),
            Ok(cols) => {
                let c = companies.last();
                match company_index(tree, c) {
                    None => Err(not_found(c)),
                    Some(k) => Ok(cols.push(company_column(c,
                        match presentation { Some(p) => p, None => tree[k].default_currency@ }, presentation is Some))),
                }
            },
        }
    }
}

pub fn get_company_columns(companies: &[String], company_tree: &[CompanyNode], filters: &ConsolidatedFilters)
    -> (r: Result<Vec<ReportColumn>, String>)
    ensures
        match (r, spec_company_columns(companies.deep_view(), company_tree@, presentation_of(*filters))) {
            (Ok(v), Ok(s)) => v.deep_view() == s,
            (Err(e), Err(s)) => e@ == s,
            _ => false,
        },
{
    let ghost cs = companies.deep_view();
    let ghost pres = presentation_of(*filters);
    let mut columns: Vec<ReportColumn> = Vec::new();
    let mut i: usize = 0;
    assert(cs.subrange(0, 0) =~= Seq::<Seq<char>>::empty());
    assert(columns.deep_view() =~= Seq::<ColumnView>::empty());
    while i < companies.len()
        invariant
            i <= companies@.len(),
            cs == companies.deep_view(),
            pres == presentation_of(*filters),
            spec_company_columns(cs.subrange(0, i as int), company_tree@, pres) == Ok::<Seq<ColumnView>, Seq<char>>(columns.deep_view()),
        decreases companies@.len() - i,
    {
        assert(cs.subrange(0, i + 1).drop_last() =~= cs.subrange(0, i as int));
        let company = companies[i].as_str();
        let k = match find_company(company_tree, company) {
            Some(k) => k,
            None => {
                proof {
                    assert(spec_company_columns(cs.subrange(0, i + 1), company_tree@, pres) == Err::<Seq<ColumnView>, Seq<char>>(not_found(cs[i as int])));
                    lemma_columns_error_stays(cs, company_tree@, pres, i + 1);
                    assert(cs.subrange(0, cs.len() as int) =~= cs);
                }
                return Err(concat(concat("Company ", company).as_str(), " not found"));
            },
        };
        let currency = match &filters.presentation_currency {
            Some(p) => p.as_str(),
            None => company_tree[k].default_currency.as_str(),
        };
        let label = concat(concat(concat(company, " (").as_str(), currency).as_str(), ")");
        let c = ReportColumn::currency(label.as_str(), company, 150, filters.presentation_currency.is_none(), Some(company));
        let ghost before = columns.deep_view();
        columns.push(c);
        assert(columns.deep_view() =~= before.push(c.deep_view()));
        i = i + 1;
    }
    assert(cs.subrange(0, i as int) =~= cs);
    Ok(columns)
}

/// Once the columns of a prefix fail, the columns of every longer prefix fail
/// with the same error.
proof fn lemma_columns_error_stays(cs: Seq<Seq<char>>, tree: Seq<CompanyNode>, pres: Option<Seq<char>>, i: int)
    requires
        0 <= i <= cs.len(),
        spec_company_columns(cs.subrange(0, i), tree, pres) is Err,
    ensures
        spec_company_columns(cs.subrange(0, cs.len() as int), tree, pres) == spec_company_columns(cs.subrange(0, i), tree, pres),
    decreases cs.len() - i,
{
    if i < cs.len() {
        assert(cs.subrange(0, i + 1).drop_last() =~= cs.subrange(0, i));
        lemma_columns_error_stays(cs, tree, pres, i + 1);
    }
}

/// What the consolidated account tree reads of an account, with the key and
/// parent key that `update_parent_account_names` fills in.
#[derive(Debug, PartialEq, Eq)]
pub struct ConsolidatedAccountKeys {
    pub name: String,
    pub company: String,
    pub parent_account: Option<String>,
    pub root_type: String,
    pub report_type: String,
    pub account_name: String,
    pub account_number: Option<String>,
    pub is_group: bool,
    pub account_key: String,
    pub parent_account_name: Option<String>,
}

/// An account's key: its number, ` - ` and its name, or its name alone.
pub open spec fn key_text(account_number: Option<String>, account_name: Seq<char>) -> Seq<char> {
    match account_number {
        Some(n) => n@ + " - "@ + account_name,
        None => account_name,
    }
}

pub open spec fn key_of(a: ConsolidatedAccountKeys) -> Seq<char> {
    key_text(a.account_number, a.account_name@)
}

/// The key of an account, as its rows are labelled and looked up.
pub fn account_key(account: &ConsolidatedAccountKeys) -> (r: String)
    ensures
        r@ == key_of(*account),
{
    match &account.account_number {
        Some(n) => {
            let mut r = concat(n.as_str(), " - ");
            r.append(account.account_name.as_str());
            proof { reveal_strlit(" - "); }
            r
        },
        None => owned(account.account_name.as_str()),
    }
}

/// The key of the last account named `name`, if there is one (later accounts
/// of one name replace earlier ones).
pub open spec fn key_by_name(accounts: Seq<ConsolidatedAccountKeys>, name: Seq<char>) -> Option<Seq<char>> {
    if exists|j: int| 0 <= j < accounts.len() && accounts[j].name@ == name {
        let j = choose|j: int| 0 <= j < accounts.len() && accounts[j].name@ == name && forall|q: int|
            j < q < accounts.len() ==> accounts[q].name@ != name;
        Some(key_of(accounts[j]))
    } else {
        None
    }
}

/// Each account keeps everything but its key, now set, and, where it has a
/// parent, its parent's key, looked up by the parent's name.
pub open spec fn keys_updated(before: Seq<ConsolidatedAccountKeys>, after: Seq<ConsolidatedAccountKeys>) -> bool {
    &&& after.len() == before.len()
    &&& forall|i: int| 0 <= i < before.len() ==> {
        let (a, b) = (#[trigger] after[i], before[i]);
        &&& a.name == b.name && a.company == b.company && a.parent_account == b.parent_account
        &&& a.root_type == b.root_type && a.report_type == b.report_type && a.account_name == b.account_name
        &&& a.account_number == b.account_number && a.is_group == b.is_group
        &&& a.account_key@ == key_of(b)
        &&& a.parent_account_name.deep_view() == match b.parent_account {
            Some(p) => key_by_name(before, p@),
            None => b.parent_account_name.deep_view(),
        }
    }
}

fn last_named(accounts: &Vec<ConsolidatedAccountKeys>, name: &str) -> (r: Option<usize>)
    ensures
        match r {
            Some(j) => j < accounts@.len() && accounts@[j as int].name@ == name@ && forall|q: int|
                j < q < accounts@.len() ==> accounts@[q].name@ != name@,
            None => forall|q: int| 0 <= q < accounts@.len() ==> accounts@[q].name@ != name@,
        },
{
    let mut j: usize = accounts.len();
    while j > 0
        invariant
            j <= accounts@.len(),
            forall|q: int| j <= q < accounts@.len() ==> accounts@[q].name@ != name@,
        decreases j,
    {
        if str_eq(accounts[j - 1].name.as_str(), name) {
            return Some(j - 1);
        }
        j = j - 1;
    }
    None
}

/// Sets each account's key, and each parent's key where an account has a
/// parent.
pub fn update_parent_account_names(accounts: &mut Vec<ConsolidatedAccountKeys>)
    ensures
        keys_updated(old(accounts)@, final(accounts)@),
{
    let ghost before = accounts@;
    let n = accounts.len();
    let mut i: usize = 0;
    while i < n
        invariant
            n == before.len(),
            accounts@.len() == n,
            forall|q: int| 0 <= q < n ==> {
                let (a, b) = (#[trigger] accounts@[q], before[q]);
                &&& a.name == b.name && a.company == b.company && a.parent_account == b.parent_account
                &&& a.root_type == b.root_type && a.report_type == b.report_type && a.account_name == b.account_name
                &&& a.account_number == b.account_number && a.is_group == b.is_group
                &&& a.parent_account_name == b.parent_account_name
                &&& (q < i ==> a.account_key@ == key_of(b))
            },
        decreases n - i,
    {
        let key = account_key(&accounts[i]);
        accounts[i].account_key = key;
        i = i + 1;
    }
    let ghost keyed = accounts@;
    let mut i: usize = 0;
    while i < n
        invariant
            n == before.len(),
            accounts@.len() == n,
            forall|q: int| 0 <= q < n ==> {
                let (a, b) = (#[trigger] accounts@[q], before[q]);
                &&& a.name == b.name && a.company == b.company && a.parent_account == b.parent_account
                &&& a.root_type == b.root_type && a.report_type == b.report_type && a.account_name == b.account_name
                &&& a.account_number == b.account_number && a.is_group == b.is_group
                &&& a.account_key@ == key_of(b)
                &&& a.parent_account_name.deep_view() == if q < i {
                    match b.parent_account {
                        Some(p) => key_by_name(before, p@),
                        None => b.parent_account_name.deep_view(),
                    }
                } else {
                    b.parent_account_name.deep_view()
                }
            },
        decreases n - i,
    {
        let parent = match &accounts[i].parent_account {
            Some(p) => Some(owned(p.as_str())),
            None => None,
        };
        if let Some(p) = parent {
            let found = last_named(accounts, p.as_str());
            let value = match found {
                Some(j) => Some(owned(accounts[j].account_key.as_str())),
                None => None,
            };
            proof {
                let pv = before[i as int].parent_account->0@;
                assert(pv == p@);
                match found {
                    Some(j) => {
                        assert(accounts@[j as int].name@ == before[j as int].name@);
                        assert forall|q: int| j < q < before.len() implies before[q].name@ != pv by {
                            assert(accounts@[q].name@ == before[q].name@);
                        }
                        assert(exists|w: int| 0 <= w < before.len() && before[w].name@ == pv);
                        let c = choose|c: int| 0 <= c < before.len() && before[c].name@ == pv && forall|q: int|
                            c < q < before.len() ==> before[q].name@ != pv;
                        assert(c == j as int);
                    },
                    None => {
                        assert forall|q: int| 0 <= q < before.len() implies before[q].name@ != pv by {
                            assert(accounts@[q].name@ == before[q].name@);
                        }
                    },
                }
            }
            accounts[i].parent_account_name = value;
        }
        i = i + 1;
    }
}

/// The accounts as nodes of the statements' tree: keyed by account key,
/// under their parent's key, with left bounds falling from the first account
/// to the last, so that of the accounts of one key the first is kept.
pub open spec fn consolidated_nodes(accounts: Seq<ConsolidatedAccountKeys>) -> Seq<NodeView> {
    Seq::new(accounts.len(), |i: int| (
        accounts[i].account_key@,
        accounts[i].parent_account_name.deep_view(),
        (accounts.len() - i) as i32,
        accounts[i].root_type@,
        accounts[i].report_type@,
    ))
}

/// Of the accounts of one key, the first is the one kept.
pub proof fn lemma_first_of_key_kept(accounts: Seq<ConsolidatedAccountKeys>, i: int)
    requires
        0 <= i < accounts.len(),
        accounts.len() <= i32::MAX,
    ensures
        wins(consolidated_nodes(accounts), i) <==> forall|j: int| 0 <= j < i ==> accounts[j].account_key@
            != accounts[i].account_key@,
{
    let nodes = consolidated_nodes(accounts);
    if wins(nodes, i) {
        assert forall|j: int| 0 <= j < i implies accounts[j].account_key@ != accounts[i].account_key@ by {
            if accounts[j].account_key@ == accounts[i].account_key@ {
                assert(nodes[j].0 == nodes[i].0);
            }
        }
    }
    if forall|j: int| 0 <= j < i ==> accounts[j].account_key@ != accounts[i].account_key@ {
        assert forall|j: int| 0 <= j < nodes.len() && #[trigger] nodes[j].0 == nodes[i].0 implies nodes[j].2
            < nodes[i].2 || (nodes[j].2 == nodes[i].2 && j <= i) by {
            if j < i {
                assert(accounts[j].account_key@ == accounts[i].account_key@);
            }
        }
    }
}

/// The accounts in statement order, as (account index, depth): one account
/// per key (the first), depth first from the roots under their parents'
/// keys; roots by report and root type and then by key, other accounts by
/// key. An account whose parent key is not among the keys is left out.
pub fn filter_accounts(accounts: &[ConsolidatedAccountKeys]) -> (r: Vec<(usize, i32)>)
    requires
        accounts@.len() + 1 <= i32::MAX,
    ensures
        listing_view(r@) == account_listing(consolidated_nodes(accounts@)),
{
    let n = accounts.len();
    let mut nodes: Vec<AccountNodeKeys> = Vec::new();
    let mut i: usize = 0;
    while i < n
        invariant
            n == accounts@.len(),
            n + 1 <= i32::MAX,
            i <= n,
            nodes.deep_view() == consolidated_nodes(accounts@).subrange(0, i as int),
        decreases n - i,
    {
        let a = &accounts[i];
        let parent = match &a.parent_account_name {
            Some(p) => Some(owned(p.as_str())),
            None => None,
        };
        let node = AccountNodeKeys {
            name: owned(a.account_key.as_str()),
            parent_account: parent,
            lft: (n - i) as i32,
            root_type: owned(a.root_type.as_str()),
            report_type: owned(a.report_type.as_str()),
        };
        let ghost before = nodes.deep_view();
        nodes.push(node);
        assert(nodes.deep_view() =~= before.push(node.deep_view()));
        assert(consolidated_nodes(accounts@).subrange(0, i + 1) =~= consolidated_nodes(accounts@).subrange(0, i as int).push(
            consolidated_nodes(accounts@)[i as int],
        ));
        i = i + 1;
    }
    assert(consolidated_nodes(accounts@).subrange(0, n as int) =~= consolidated_nodes(accounts@));
    let r = statement_listing(nodes.as_slice());
    r
}

/// The name of the first group account without parent of the root type and
/// company, if there is one.
pub fn get_root_account_name(root_type: &str, company: &str, accounts: &[ConsolidatedAccountKeys]) -> (r: Option<String>)
    ensures
        match r {
            Some(name) => exists|i: int| 0 <= i < accounts@.len() && is_root_of(accounts@[i], root_type@, company@)
                && name@ == accounts@[i].account_name@ && forall|j: int| 0 <= j < i ==> !is_root_of(
                accounts@[j],
                root_type@,
                company@,
            ),
            None => forall|i: int| 0 <= i < accounts@.len() ==> !is_root_of(accounts@[i], root_type@, company@),
        },
{
    let mut i: usize = 0;
    while i < accounts.len()
        invariant
            i <= accounts@.len(),
            forall|j: int| 0 <= j < i ==> !is_root_of(accounts@[j], root_type@, company@),
        decreases accounts@.len() - i,
    {
        let a = &accounts[i];
        if str_eq(a.root_type.as_str(), root_type) && a.is_group && str_eq(a.company.as_str(), company)
            && a.parent_account.is_none() {
            return Some(owned(a.account_name.as_str()));
        }
        i = i + 1;
    }
    None
}

pub open spec fn is_root_of(a: ConsolidatedAccountKeys, root_type: Seq<char>, company: Seq<char>) -> bool {
    a.root_type@ == root_type && a.is_group && a.company@ == company && a.parent_account is None
}

} // verus!
