//! Consolidated trial balance: which companies can be consolidated and in
//! which order, the currency the consolidation reports in, and the columns.
use vstd::prelude::*;
use crate::text::{concat, owned, str_eq};
use crate::text::{chars_of, char_is_whitespace, is_whitespace, push_char};

verus! {

#[derive(Debug, PartialEq, Eq)]
pub struct ConsolidatedTrialBalanceFilters {
    pub company: Vec<String>,
    pub from_date: String,
    pub to_date: String,
    pub presentation_currency: Option<String>,
    pub show_net_values: bool,
    pub show_group_accounts: bool,
    pub show_zero_values: bool,
    pub report_template: bool,
}

#[derive(Debug, PartialEq, Eq)]
pub struct ReportColumn {
    pub fieldname: &'static str,
    pub label: &'static str,
    pub fieldtype: &'static str,
    pub width: u16,
    pub hidden: bool,
    pub options: Option<&'static str>,
}

/// field name, label, field type, width, hidden, options
pub type ColumnView = (Seq<char>, Seq<char>, Seq<char>, u16, bool, Option<Seq<char>>);

impl DeepView for ReportColumn {
    type V = ColumnView;

    open spec fn deep_view(&self) -> ColumnView {
        (self.fieldname@, self.label@, self.fieldtype@, self.width, self.hidden, self.options.deep_view())
    }
}

impl ReportColumn {
    pub fn data(label: &'static str, fieldname: &'static str, width: u16, hidden: bool, options: Option<&'static str>) -> (r: Self)
        ensures
            r.deep_view() == (fieldname@, label@, "Data"@, width, hidden, options.deep_view()),
    {
        ReportColumn { label, fieldname, fieldtype: "Data", width, hidden, options }
    }

    pub fn link(label: &'static str, fieldname: &'static str, options: &'static str, width: u16, hidden: bool) -> (r: Self)
        ensures
            r.deep_view() == (fieldname@, label@, "Link"@, width, hidden, Some(options@)),
    {
        ReportColumn { label, fieldname, fieldtype: "Link", width, hidden, options: Some(options) }
    }

    pub fn currency(label: &'static str, fieldname: &'static str, width: u16) -> (r: Self)
        ensures
            r.deep_view() == (fieldname@, label@, "Currency"@, width, false, Some("currency"@)),
    {
        ReportColumn { label, fieldname, fieldtype: "Currency", width, hidden: false, options: Some("currency") }
    }
}

pub open spec fn currency_column(label: Seq<char>, fieldname: Seq<char>) -> ColumnView {
    (fieldname, label, "Currency"@, 120u16, false, Some("currency"@))
}

pub open spec fn spec_columns() -> Seq<ColumnView> {
    seq![
        ("account_name"@, "Account"@, "Data"@, 300u16, false, None),
        ("acc_name"@, "Account Name"@, "Data"@, 250u16, true, None),
        ("acc_number"@, "Account Number"@, "Data"@, 120u16, true, None),
        ("currency"@, "Currency"@, "Link"@, 0u16, true, Some("Currency"@)),
        currency_column("Opening (Dr)"@, "opening_debit"@),
        currency_column("Opening (Cr)"@, "opening_credit"@),
        currency_column("Debit"@, "debit"@),
        currency_column("Credit"@, "credit"@),
        currency_column("Closing (Dr)"@, "closing_debit"@),
        currency_column("Closing (Cr)"@, "closing_credit"@),
    ]
}

pub fn get_columns() -> (r: Vec<ReportColumn>)
    ensures
        r.deep_view() == spec_columns(),
{
    let r = vec![
        ReportColumn::data("Account", "account_name", 300, false, None),
        ReportColumn::data("Account Name", "acc_name", 250, true, None),
        ReportColumn::data("Account Number", "acc_number", 120, true, None),
        ReportColumn::link("Currency", "currency", "Currency", 0, true),
        ReportColumn::currency("Opening (Dr)", "opening_debit", 120),
        ReportColumn::currency("Opening (Cr)", "opening_credit", 120),
        ReportColumn::currency("Debit", "debit", 120),
        ReportColumn::currency("Credit", "credit", 120),
        ReportColumn::currency("Closing (Dr)", "closing_debit", 120),
        ReportColumn::currency("Closing (Cr)", "closing_credit", 120),
    ];
    assert(r.deep_view() =~= spec_columns());
    r
}

/// A company of the group tree: its parent, its nested-set bounds, and its
/// default and reporting currencies.
#[derive(Debug, PartialEq, Eq)]
pub struct CompanyNode {
    pub name: String,
    pub parent_company: Option<String>,
    pub lft: i32,
    pub rgt: i32,
    pub default_currency: String,
    pub reporting_currency: Option<String>,
}

pub open spec fn opt_text(s: Option<&str>) -> Option<Seq<char>> {
    match s {
        Some(v) => Some(v@),
        None => None,
    }
}

pub open spec fn opt_string(s: Option<String>) -> Option<Seq<char>> {
    match s {
        Some(v) => Some(v@),
        None => None,
    }
}

fn owned_opt(s: Option<&str>) -> (r: Option<String>)
    ensures
        opt_string(r) == opt_text(s),
{
    match s {
        Some(v) => Some(owned(v)),
        None => None,
    }
}

impl CompanyNode {
    pub fn new(name: &str, parent_company: Option<&str>, lft: i32, rgt: i32, default_currency: &str, reporting_currency: Option<&str>)
        -> (r: Self)
        ensures
            r.name@ == name@,
            opt_string(r.parent_company) == opt_text(parent_company),
            r.lft == lft,
            r.rgt == rgt,
            r.default_currency@ == default_currency@,
            opt_string(r.reporting_currency) == opt_text(reporting_currency),
    {
        CompanyNode {
            name: owned(name),
            parent_company: owned_opt(parent_company),
            lft,
            rgt,
            default_currency: owned(default_currency),
            reporting_currency: owned_opt(reporting_currency),
        }
    }
}

/// The index of the first company of the tree with the name.
pub open spec fn company_index(tree: Seq<CompanyNode>, name: Seq<char>) -> Option<int>
    decreases tree.len(),
{
    if tree.len() == 0 {
        None
    } else if tree[0].name@ == name {
        Some(0)
    } else {
        match company_index(tree.skip(1), name) {
            Some(k) => Some(k + 1),
            None => None,
        }
    }
}

proof fn lemma_company_index(tree: Seq<CompanyNode>, name: Seq<char>)
    ensures
        company_index(tree, name) matches Some(k) ==> 0 <= k < tree.len() && tree[k].name@ == name,
    decreases tree.len(),
{
    if tree.len() > 0 && tree[0].name@ != name {
        lemma_company_index(tree.skip(1), name);
    }
}

fn find_company(tree: &[CompanyNode], name: &str) -> (r: Option<usize>)
    ensures
        match (r, company_index(tree@, name@)) {
            (Some(k), Some(j)) => k == j && k < tree@.len(),
            (None, None) => true,
            _ => false,
        },
{
    let mut i: usize = 0;
    assert(tree@.skip(0) =~= tree@);
    while i < tree.len() && !str_eq(tree[i].name.as_str(), name)
        invariant
            i <= tree@.len(),
            match company_index(tree@, name@) {
                Some(j) => match company_index(tree@.skip(i as int), name@) { Some(j2) => j == j2 + i, None => false },
                None => company_index(tree@.skip(i as int), name@) is None,
            },
        decreases tree@.len() - i,
    {
        assert(tree@.skip(i as int)[0] == tree@[i as int]);
        assert(tree@.skip(i as int).skip(1) =~= tree@.skip(i + 1));
        i = i + 1;
    }
    if i == tree.len() {
        None
    } else {
        assert(tree@.skip(i as int)[0] == tree@[i as int]);
        Some(i)
    }
}

/// The company at `k` followed through its parents for at most `steps`
/// steps, stopping at one whose parent is not in the tree.
pub open spec fn ancestor(tree: Seq<CompanyNode>, k: int, steps: nat) -> int
    decreases steps,
{
    if steps == 0 {
        k
    } else {
        match tree[k].parent_company {
            Some(p) => match company_index(tree, p@) {
                Some(j) => ancestor(tree, j, (steps - 1) as nat),
                None => k,
            },
            None => k,
        }
    }
}

/// Following parents from `k` ends within as many steps as the tree has
/// companies: no cycle of parents is met.
pub open spec fn reaches_root(tree: Seq<CompanyNode>, k: int) -> bool {
    let a = ancestor(tree, k, tree.len());
    match tree[a].parent_company {
        Some(p) => company_index(tree, p@) is None,
        None => true,
    }
}

fn root_company(tree: &[CompanyNode], k: usize) -> (r: usize)
    requires
        k < tree@.len(),
        reaches_root(tree@, k as int),
    ensures
        r == ancestor(tree@, k as int, tree@.len()),
        r < tree@.len(),
{
    let mut current = k;
    let mut steps: usize = 0;
    let n = tree.len();
    loop
        invariant
            n == tree@.len(),
            current < n,
            steps <= n,
            ancestor(tree@, k as int, n as nat) == ancestor(tree@, current as int, (n - steps) as nat),
            reaches_root(tree@, k as int),
        decreases n - steps,
    {
        let parent = match &tree[current].parent_company {
            Some(p) => find_company(tree, p.as_str()),
            None => None,
        };
        match parent {
            Some(j) => {
                if steps == n {
                    assert(false);
                }
                proof { lemma_company_index(tree@, tree@[current as int].parent_company->0@); }
                current = j;
                steps = steps + 1;
            },
            None => {
                return current;
            },
        }
    }
}

/// `x` placed after every index whose company has a `lft` not above its own:
/// one step of a stable sort by `lft`.
pub open spec fn insert_by_lft(tree: Seq<CompanyNode>, sorted: Seq<int>, x: int) -> Seq<int>
    decreases sorted.len(),
{
    if sorted.len() == 0 {
        seq![x]
    } else if tree[sorted.last()].lft <= tree[x].lft {
        sorted.push(x)
    } else {
        insert_by_lft(tree, sorted.drop_last(), x).push(sorted.last())
    }
}

/// The companies of the tree below `m` that lie within the root's bounds,
/// stably sorted by `lft`.
pub open spec fn sorted_subtree(tree: Seq<CompanyNode>, root: int, m: nat) -> Seq<int>
    decreases m,
{
    if m == 0 {
        Seq::empty()
    } else {
        let s = sorted_subtree(tree, root, (m - 1) as nat);
        let x = m - 1;
        if tree[x].lft >= tree[root].lft && tree[x].rgt <= tree[root].rgt { insert_by_lft(tree, s, x) } else { s }
    }
}

proof fn lemma_insert_at(tree: Seq<CompanyNode>, sorted: Seq<int>, x: int, p: int)
    requires
        0 <= p <= sorted.len(),
        forall|j: int| p <= j < sorted.len() ==> tree[#[trigger] sorted[j]].lft > tree[x].lft,
        p > 0 ==> tree[sorted[p - 1]].lft <= tree[x].lft,
    ensures
        insert_by_lft(tree, sorted, x) == sorted.insert(p, x),
    decreases sorted.len(),
{
    if sorted.len() == 0 {
        assert(sorted.insert(p, x) =~= seq![x]);
    } else if tree[sorted.last()].lft <= tree[x].lft {
        assert(p == sorted.len());
        assert(sorted.insert(p, x) =~= sorted.push(x));
    } else {
        lemma_insert_at(tree, sorted.drop_last(), x, p);
        assert(sorted.drop_last().insert(p, x).push(sorted.last()) =~= sorted.insert(p, x));
    }
}

pub open spec fn names_of(tree: Seq<CompanyNode>, indices: Seq<int>) -> Seq<Seq<char>> {
    Seq::new(indices.len(), |j: int| tree[indices[j]].name@)
}

pub open spec fn not_found(name: Seq<char>) -> Seq<char> {
    "Company "@ + name + " not found."@
}

pub open spec fn different_roots() -> Seq<char> {
    "Consolidated Trial Balance can be generated for Companies having same root Company."@
}

/// The companies to consolidate, in the order of the group tree: all must
/// lie under the root of the first one; an error names the first company
/// when it is not in the tree.
pub open spec fn spec_validate_companies(companies: Seq<Seq<char>>, tree: Seq<CompanyNode>) -> Result<Seq<Seq<char>>, Seq<char>> {
    if companies.len() == 0 {
        Ok(Seq::empty())
    } else {
        match company_index(tree, companies[0]) {
            None => Err(not_found(companies[0])),
            Some(k) => {
                let names = names_of(tree, sorted_subtree(tree, ancestor(tree, k, tree.len()), tree.len()));
                if exists|c: int| 0 <= c < companies.len() && !names.contains(#[trigger] companies[c]) {
                    Err(different_roots())
                } else {
                    Ok(names.filter(|n: Seq<char>| companies.contains(n)))
                }
            },
        }
    }
}

/// The first company's chain of parents ends without a cycle.
pub open spec fn first_company_reaches_root(companies: Seq<Seq<char>>, tree: Seq<CompanyNode>) -> bool {
    companies.len() > 0 ==> match company_index(tree, companies[0]) {
        Some(k) => reaches_root(tree, k),
        None => true,
    }
}

fn holds_name(names: &[String], name: &str) -> (r: bool)
    ensures
        r == names.deep_view().contains(name@),
{
    let mut i: usize = 0;
    while i < names.len()
        invariant
            i <= names@.len(),
            forall|j: int| 0 <= j < i ==> names.deep_view()[j] != name@,
        decreases names@.len() - i,
    {
        if str_eq(names[i].as_str(), name) {
            assert(names.deep_view()[i as int] == name@);
            return true;
        }
        i = i + 1;
    }
    false
}

pub fn validate_companies(companies: &[String], company_tree: &[CompanyNode]) -> (r: Result<Vec<String>, String>)
    requires
        first_company_reaches_root(companies.deep_view(), company_tree@),
    ensures
        match (r, spec_validate_companies(companies.deep_view(), company_tree@)) {
            (Ok(v), Ok(s)) => v.deep_view() == s,
            (Err(e), Err(s)) => e@ == s,
            _ => false,
        },
{
    let ghost cs = companies.deep_view();
    let ghost tree = company_tree@;
    if companies.len() == 0 {
        return Ok(Vec::new());
    }
    let k = match find_company(company_tree, companies[0].as_str()) {
        Some(k) => k,
        None => {
            let head = concat("Company ", companies[0].as_str());
            return Err(concat(head.as_str(), " not found."));
        },
    };
    let root = root_company(company_tree, k);
    let n = company_tree.len();
    let mut sorted: Vec<usize> = Vec::new();
    let mut i: usize = 0;
    while i < n
        invariant
            n == tree.len(),
            tree == company_tree@,
            root < n,
            i <= n,
            sorted@.map_values(|v: usize| v as int) == sorted_subtree(tree, root as int, i as nat),
            forall|j: int| 0 <= j < sorted@.len() ==> #[trigger] sorted@[j] < n,
        decreases n - i,
    {
        let node = &company_tree[i];
        if node.lft >= company_tree[root].lft && node.rgt <= company_tree[root].rgt {
            let ghost before = sorted@.map_values(|v: usize| v as int);
            let mut p: usize = sorted.len();
            while p > 0 && company_tree[sorted[p - 1]].lft > node.lft
                invariant
                    p <= sorted@.len(),
                    n == tree.len(),
                    tree == company_tree@,
                    i < n,
                    *node == tree[i as int],
                    forall|j: int| 0 <= j < sorted@.len() ==> #[trigger] sorted@[j] < n,
                    forall|j: int| p <= j < sorted@.len() ==> tree[#[trigger] sorted@[j] as int].lft > node.lft,
                decreases p,
            {
                p = p - 1;
            }
            proof {
                lemma_insert_at(tree, before, i as int, p as int);
            }
            sorted.insert(p, i);
            assert(sorted@.map_values(|v: usize| v as int) =~= before.insert(p as int, i as int));
        }
        i = i + 1;
    }
    let ghost sub = sorted@.map_values(|v: usize| v as int);
    let ghost names = names_of(tree, sub);
    assert(sub == sorted_subtree(tree, ancestor(tree, k as int, tree.len()), tree.len()));
    assert(company_index(tree, cs[0]) == Some(k as int));
    let mut c: usize = 0;
    while c < companies.len()
        invariant
            c <= companies@.len(),
            cs == companies.deep_view(),
            sub == sorted@.map_values(|v: usize| v as int),
            names == names_of(tree, sub),
            tree == company_tree@,
            forall|j: int| 0 <= j < sorted@.len() ==> #[trigger] sorted@[j] < tree.len(),
            forall|x: int| 0 <= x < c ==> names.contains(#[trigger] cs[x]),
            cs.len() > 0,
            company_index(tree, cs[0]) == Some(k as int),
            sub == sorted_subtree(tree, ancestor(tree, k as int, tree.len()), tree.len()),
        decreases companies@.len() - c,
    {
        let name = companies[c].as_str();
        let mut j: usize = 0;
        let mut found = false;
        while j < sorted.len() && !found
            invariant
                j <= sorted@.len(),
                sub == sorted@.map_values(|v: usize| v as int),
                names == names_of(tree, sub),
                tree == company_tree@,
                forall|q: int| 0 <= q < sorted@.len() ==> #[trigger] sorted@[q] < tree.len(),
                found ==> names.contains(name@),
                !found ==> forall|q: int| 0 <= q < j ==> #[trigger] names[q] != name@,
            decreases sorted@.len() - j + if found { 0int } else { 1 },
        {
            if str_eq(company_tree[sorted[j]].name.as_str(), name) {
                found = true;
                assert(names[j as int] == name@);
            } else {
                j = j + 1;
            }
        }
        if !found {
            assert(!names.contains(cs[c as int]));
            return Err(owned("Consolidated Trial Balance can be generated for Companies having same root Company."));
        }
        c = c + 1;
    }
    let mut out: Vec<String> = Vec::new();
    let mut j: usize = 0;
    while j < sorted.len()
        invariant
            j <= sorted@.len(),
            cs == companies.deep_view(),
            sub == sorted@.map_values(|v: usize| v as int),
            names == names_of(tree, sub),
            tree == company_tree@,
            forall|q: int| 0 <= q < sorted@.len() ==> #[trigger] sorted@[q] < tree.len(),
            out.deep_view() == names.subrange(0, j as int).filter(|x: Seq<char>| cs.contains(x)),
            cs.len() > 0,
            company_index(tree, cs[0]) == Some(k as int),
            sub == sorted_subtree(tree, ancestor(tree, k as int, tree.len()), tree.len()),
            forall|x: int| 0 <= x < cs.len() ==> names.contains(#[trigger] cs[x]),
        decreases sorted@.len() - j,
    {
        assert(names.subrange(0, j + 1).drop_last() =~= names.subrange(0, j as int));
        let node = &company_tree[sorted[j]];
        if holds_name(companies, node.name.as_str()) {
            let ghost before = out.deep_view();
            out.push(node.name.clone());
            assert(out.deep_view() =~= before.push(names[j as int]));
        }
        proof {
            reveal_with_fuel(Seq::filter, 1);
        }
        j = j + 1;
    }
    assert(names.subrange(0, j as int) =~= names);
    Ok(out)
}

/// From the `i`-th company on: `None` at the first company not in the tree,
/// the reporting currency (not alone) at the first whose default currency
/// differs from `d`, else `d` as the only currency.
pub open spec fn currency_scan(cs: Seq<Seq<char>>, tree: Seq<CompanyNode>, i: int, rc: Seq<char>, d: Seq<char>)
    -> Option<(Seq<char>, bool)>
    decreases cs.len() - i,
{
    if i >= cs.len() || i < 0 {
        Some((d, true))
    } else {
        match company_index(tree, cs[i]) {
            None => None,
            Some(j) => if tree[j].default_currency@ != d { Some((rc, false)) } else { currency_scan(cs, tree, i + 1, rc, d) },
        }
    }
}

/// The currency a consolidation reports in, and whether all companies share
/// it as their default: the first company's reporting currency when the
/// default currencies differ, else the common default currency. `None` when
/// there is no company, a company is not in the tree, or the first company
/// has no reporting currency.
pub open spec fn spec_reporting_currency(cs: Seq<Seq<char>>, tree: Seq<CompanyNode>) -> Option<(Seq<char>, bool)> {
    if cs.len() == 0 {
        None
    } else {
        match company_index(tree, cs[0]) {
            None => None,
            Some(k) => match tree[k].reporting_currency {
                None => None,
                Some(rc) => currency_scan(cs, tree, 0, rc@, tree[k].default_currency@),
            },
        }
    }
}

pub fn get_reporting_currency(companies: &[String], company_tree: &[CompanyNode]) -> (r: Option<(String, bool)>)
    ensures
        match (r, spec_reporting_currency(companies.deep_view(), company_tree@)) {
            (Some((c, same)), Some((sc, ssame))) => c@ == sc && same == ssame,
            (None, None) => true,
            _ => false,
        },
{
    let ghost cs = companies.deep_view();
    let ghost tree = company_tree@;
    if companies.len() == 0 {
        return None;
    }
    let k = match find_company(company_tree, companies[0].as_str()) {
        Some(k) => k,
        None => return None,
    };
    proof { lemma_company_index(tree, cs[0]); }
    let reporting = match &company_tree[k].reporting_currency {
        Some(rc) => rc.clone(),
        None => return None,
    };
    let default = company_tree[k].default_currency.clone();
    let mut i: usize = 0;
    while i < companies.len()
        invariant
            i <= companies@.len(),
            cs == companies.deep_view(),
            tree == company_tree@,
            spec_reporting_currency(cs, tree) == currency_scan(cs, tree, i as int, reporting@, default@),
        decreases companies@.len() - i,
    {
        let j = match find_company(company_tree, companies[i].as_str()) {
            Some(j) => j,
            None => return None,
        };
        proof { lemma_company_index(tree, cs[i as int]); }
        if !str_eq(company_tree[j].default_currency.as_str(), default.as_str()) {
            return Some((reporting, false));
        }
        i = i + 1;
    }
    Some((default, true))
}

/// The index of the first row of a root type, if any.
pub open spec fn first_of_type(root_types: Seq<Seq<char>>, t: Seq<char>) -> Option<int> {
    if exists|i: int| 0 <= i < root_types.len() && root_types[i] == t {
        Some(choose|i: int| 0 <= i < root_types.len() && root_types[i] == t && forall|j: int| 0 <= j < i ==> root_types[j] != t)
    } else {
        None
    }
}

/// The row the translation reserve goes under: the first equity row, else
/// the first liability row, else the first row. Rows are given by their root
/// types.
pub fn get_fctr_root_row_index(root_types: &[String]) -> (r: usize)
    ensures
        r as int == match (first_of_type(root_types.deep_view(), "Equity"@), first_of_type(root_types.deep_view(), "Liability"@)) {
            (Some(e), _) => e,
            (None, Some(l)) => l,
            (None, None) => 0,
        },
{
    let ghost rt = root_types.deep_view();
    let mut liability: Option<usize> = None;
    let mut equity: Option<usize> = None;
    let mut i: usize = 0;
    while i < root_types.len()
        invariant
            i <= rt.len(),
            rt == root_types.deep_view(),
            match liability {
                Some(l) => l < i && rt[l as int] == "Liability"@ && forall|j: int| 0 <= j < l ==> rt[j] != "Liability"@,
                None => forall|j: int| 0 <= j < i ==> rt[j] != "Liability"@,
            },
            match equity {
                Some(e) => e < i && rt[e as int] == "Equity"@ && forall|j: int| 0 <= j < e ==> rt[j] != "Equity"@,
                None => forall|j: int| 0 <= j < i ==> rt[j] != "Equity"@,
            },
        decreases rt.len() - i,
    {
        assert(rt[i as int] == root_types@[i as int]@);
        if liability.is_none() && str_eq(root_types[i].as_str(), "Liability") {
            liability = Some(i);
        }
        if equity.is_none() && str_eq(root_types[i].as_str(), "Equity") {
            equity = Some(i);
        }
        i = i + 1;
    }
    proof {
        if let Some(e) = equity {
            let c = choose|c: int| 0 <= c < rt.len() && rt[c] == "Equity"@ && forall|j: int| 0 <= j < c ==> rt[j] != "Equity"@;
            if c < e { } else if c > e { assert(rt[e as int] != "Equity"@); }
        }
        if let Some(l) = liability {
            let c = choose|c: int| 0 <= c < rt.len() && rt[c] == "Liability"@ && forall|j: int| 0 <= j < c ==> rt[j] != "Liability"@;
            if c < l { } else if c > l { assert(rt[l as int] != "Liability"@); }
        }
    }
    match equity {
        Some(e) => e,
        None => match liability {
            Some(l) => l,
            None => 0,
        },
    }
}


/// The initials of the first `n` characters' words: each character that is
/// not whitespace and comes first or after whitespace, as splitting on
/// whitespace and taking each piece's first character gives them.
pub open spec fn initials(s: Seq<char>, n: int) -> Seq<char>
    decreases n,
{
    if n <= 0 {
        Seq::empty()
    } else {
        initials(s, n - 1) + if !is_whitespace(s[n - 1]) && (n == 1 || is_whitespace(s[n - 2])) {
            seq![s[n - 1]]
        } else {
            Seq::empty()
        }
    }
}

/// The suffix a company's account names end with: the initials of its name.
pub fn company_suffix(company: &str) -> (r: String)
    ensures
        r@ == initials(company@, company@.len() as int),
{
    let chars = chars_of(company);
    let mut r = String::new();
    let mut i: usize = 0;
    while i < chars.len()
        invariant
            i <= chars.len(),
            chars@ == company@,
            r@ == initials(company@, i as int),
        decreases chars.len() - i,
    {
        if !char_is_whitespace(chars[i]) && (i == 0 || char_is_whitespace(chars[i - 1])) {
            push_char(&mut r, chars[i]);
        }
        i = i + 1;
    }
    r
}

/// `s` ends with `suffix`.
pub open spec fn ends_with(s: Seq<char>, suffix: Seq<char>) -> bool {
    suffix.len() <= s.len() && s.subrange(s.len() - suffix.len(), s.len() as int) == suffix
}

fn text_ends_with(s: &str, suffix: &str) -> (r: bool)
    ensures
        r == ends_with(s@, suffix@),
{
    let a = chars_of(s);
    let b = chars_of(suffix);
    if b.len() > a.len() {
        return false;
    }
    let off = a.len() - b.len();
    let mut i: usize = 0;
    while i < b.len()
        invariant
            i <= b.len(),
            off + b.len() == a.len(),
            a@ == s@,
            b@ == suffix@,
            forall|k: int| 0 <= k < i ==> a@[off + k] == b@[k],
        decreases b.len() - i,
    {
        if a[off + i] != b[i] {
            assert(s@.subrange(off as int, s@.len() as int)[i as int] != suffix@[i as int]);
            return false;
        }
        i = i + 1;
    }
    assert(s@.subrange(off as int, s@.len() as int) =~= suffix@);
    true
}

/// Whether a trial-balance row belongs to a company: it names the company,
/// or it names none and its account ends with the company's suffix.
pub fn row_belongs_to_company(row_company: &Option<String>, account: &str, company: &str) -> (r: bool)
    ensures
        r == (row_company.deep_view() == Some(company@) || (row_company is None
            && ends_with(account@, initials(company@, company@.len() as int)))),
{
    match row_company {
        Some(c) => str_eq(c.as_str(), company),
        None => {
            let suffix = company_suffix(company);
            text_ends_with(account, suffix.as_str())
        },
    }
}

/// The place of the first of the first `n` texts equal to `v`.
pub open spec fn first_at(s: Seq<Seq<char>>, v: Seq<char>, n: int) -> Option<int>
    decreases n,
{
    if n <= 0 {
        None
    } else {
        match first_at(s, v, n - 1) {
            Some(i) => Some(i),
            None => if s[n - 1] == v { Some(n - 1) } else { None },
        }
    }
}

pub(crate) fn find_first(s: &[String], v: &str) -> (r: Option<usize>)
    ensures
        match r {
            Some(i) => first_at(s.deep_view(), v@, s.len() as int) == Some(i as int),
            None => first_at(s.deep_view(), v@, s.len() as int) is None,
        },
{
    let ghost ds = s.deep_view();
    let mut i: usize = 0;
    while i < s.len()
        invariant
            i <= s.len(),
            ds == s.deep_view(),
            first_at(ds, v@, i as int) is None,
        decreases s.len() - i,
    {
        assert(ds[i as int] == s@[i as int]@);
        if str_eq(s[i].as_str(), v) {
            assert(first_at(ds, v@, i + 1) == Some(i as int));
            proof { lemma_first_at_stays(ds, v@, i + 1, s.len() as int); }
            return Some(i);
        }
        i = i + 1;
    }
    None
}

proof fn lemma_first_at_stays(s: Seq<Seq<char>>, v: Seq<char>, m: int, n: int)
    requires
        0 <= m <= n,
        first_at(s, v, m) is Some,
    ensures
        first_at(s, v, n) == first_at(s, v, m),
    decreases n - m,
{
    if n > m {
        lemma_first_at_stays(s, v, m, n - 1);
    }
}

/// Where a company's trial-balance row goes in the consolidation.
#[derive(Debug, PartialEq, Eq, Clone, Copy)]
pub enum GlePlacement {
    /// Its amounts add to this row, which has the same account name.
    Merge(usize),
    /// It goes right after this row, its parent's, one level deeper.
    InsertAfter(usize),
    /// It goes at the end, at the top level.
    Append,
}

/// A row merges into the first consolidated row of its account name;
/// failing that it goes after the first consolidated row named as its
/// parent (the parent being the first of the company's rows with that
/// account); failing that at the end.
pub open spec fn spec_gle_placement(names: Seq<Seq<char>>, entry_name: Seq<char>, parent: Option<Seq<char>>,
    tb_accounts: Seq<Seq<char>>, tb_names: Seq<Seq<char>>) -> GlePlacement {
    match first_at(names, entry_name, names.len() as int) {
        Some(i) => GlePlacement::Merge(i as usize),
        None => match parent {
            None => GlePlacement::Append,
            Some(p) => match first_at(tb_accounts, p, tb_accounts.len() as int) {
                None => GlePlacement::Append,
                Some(j) => match first_at(names, tb_names[j], names.len() as int) {
                    Some(k) => GlePlacement::InsertAfter(k as usize),
                    None => GlePlacement::Append,
                },
            },
        },
    }
}

/// Where a company's row goes among the consolidated rows (`names`, their
/// account names), given the company's rows (`tb_accounts`, `tb_names`).
pub fn gle_placement(names: &[String], entry_name: &str, parent: &Option<String>, tb_accounts: &[String],
    tb_names: &[String]) -> (r: GlePlacement)
    requires
        tb_accounts.len() == tb_names.len(),
    ensures
        r == spec_gle_placement(names.deep_view(), entry_name@, parent.deep_view(), tb_accounts.deep_view(),
            tb_names.deep_view()),
{
    match find_first(names, entry_name) {
        Some(i) => GlePlacement::Merge(i),
        None => match parent {
            None => GlePlacement::Append,
            Some(p) => match find_first(tb_accounts, p.as_str()) {
                None => GlePlacement::Append,
                Some(j) => {
                    proof { lemma_first_at_bound(tb_accounts.deep_view(), p@, tb_accounts.len() as int); }
                    assert(tb_names.deep_view()[j as int] == tb_names@[j as int]@);
                    match find_first(names, tb_names[j].as_str()) {
                        Some(k) => GlePlacement::InsertAfter(k),
                        None => GlePlacement::Append,
                    }
                },
            },
        },
    }
}

proof fn lemma_first_at_bound(s: Seq<Seq<char>>, v: Seq<char>, n: int)
    ensures
        first_at(s, v, n) matches Some(i) ==> 0 <= i < n,
    decreases n,
{
    if n > 0 {
        lemma_first_at_bound(s, v, n - 1);
    }
}


/// Whether the first company's chain of parents ends without a cycle (what
/// `validate_companies` asks of its input).
pub fn first_company_reaches_root_check(companies: &[String], company_tree: &[CompanyNode]) -> (r: bool)
    ensures
        r == first_company_reaches_root(companies.deep_view(), company_tree@),
{
    if companies.len() == 0 {
        return true;
    }
    assert(companies.deep_view()[0] == companies@[0]@);
    let k = match find_company(company_tree, companies[0].as_str()) {
        Some(k) => k,
        None => return true,
    };
    let tree = company_tree;
    let n = tree.len();
    let mut current = k;
    let mut steps: usize = 0;
    while steps < n
        invariant
            n == tree@.len(),
            current < n,
            steps <= n,
            ancestor(tree@, k as int, n as nat) == ancestor(tree@, current as int, (n - steps) as nat),
            companies.len() > 0,
            tree@ == company_tree@,
            company_index(company_tree@, companies.deep_view()[0]) == Some(k as int),
        decreases n - steps,
    {
        let parent = match &tree[current].parent_company {
            Some(p) => find_company(tree, p.as_str()),
            None => None,
        };
        match parent {
            Some(j) => {
                proof { lemma_company_index(tree@, tree@[current as int].parent_company->0@); }
                current = j;
                steps = steps + 1;
            },
            None => {
                assert(ancestor(tree@, current as int, (n - steps) as nat) == current as int);
                assert(reaches_root(tree@, k as int));
                return true;
            },
        }
    }
    assert(ancestor(tree@, k as int, n as nat) == current as int);
    match &tree[current].parent_company {
        Some(p) => find_company(tree, p.as_str()).is_none(),
        None => true,
    }
}

} // verus!
