//! Gross and net profit: its filters and periods, and which statement data
//! the report asks for.
use vstd::prelude::*;
use crate::text::{owned, str_eq};

verus! {

#[derive(Debug, PartialEq, Eq)]
pub struct GrossNetFilters {
    pub company: String,
    pub presentation_currency: Option<String>,
}

#[derive(Debug, PartialEq, Eq)]
pub struct Period {
    pub key: String,
}

impl Period {
    pub fn new(key: &str) -> (r: Self)
        ensures
            r.key@ == key@,
    {
        Period { key: owned(key) }
    }
}

/// Where the periods and columns come from, and the two statement data
/// requests: income and expense.
#[derive(Debug, PartialEq, Eq)]
pub struct GrossNetExecutionPlan {
    pub period_source: &'static str,
    pub columns_source: &'static str,
    pub income_data_call: FinancialStatementDataCall,
    pub expense_data_call: FinancialStatementDataCall,
}

/// A request for statement data: the root type, the side its balance must be
/// on, and whether closing entries, accumulated values and the total are
/// left out.
#[derive(Debug, PartialEq, Eq)]
pub struct FinancialStatementDataCall {
    pub root_type: &'static str,
    pub balance_must_be: &'static str,
    pub ignore_closing_entries: bool,
    pub ignore_accumulated_values_for_fy: bool,
    pub total: bool,
}

impl Default for GrossNetExecutionPlan {
    fn default() -> (r: Self)
        ensures
            r.period_source@ == "erpnext.accounts.report.financial_statements.get_period_list"@,
            r.columns_source@ == "erpnext.accounts.report.financial_statements.get_columns"@,
            r.income_data_call.root_type@ == "Income"@,
            r.income_data_call.balance_must_be@ == "Credit"@,
            r.expense_data_call.root_type@ == "Expense"@,
            r.expense_data_call.balance_must_be@ == "Debit"@,
            r.income_data_call.ignore_closing_entries && r.expense_data_call.ignore_closing_entries,
            r.income_data_call.ignore_accumulated_values_for_fy && r.expense_data_call.ignore_accumulated_values_for_fy,
            !r.income_data_call.total && !r.expense_data_call.total,
    {
        GrossNetExecutionPlan {
            period_source: "erpnext.accounts.report.financial_statements.get_period_list",
            columns_source: "erpnext.accounts.report.financial_statements.get_columns",
            income_data_call: FinancialStatementDataCall {
                root_type: "Income",
                balance_must_be: "Credit",
                ignore_closing_entries: true,
                ignore_accumulated_values_for_fy: true,
                total: false,
            },
            expense_data_call: FinancialStatementDataCall {
                root_type: "Expense",
                balance_must_be: "Debit",
                ignore_closing_entries: true,
                ignore_accumulated_values_for_fy: true,
                total: false,
            },
        }
    }
}

/// What dropping childless groups reads of a row.
#[derive(Debug, PartialEq, Eq)]
pub struct GrossNetRowKeys {
    pub account: Option<String>,
    pub parent_account: String,
    pub is_group: bool,
}

pub open spec fn account_value(r: GrossNetRowKeys) -> Seq<char> {
    match r.account {
        Some(a) => a@,
        None => Seq::empty(),
    }
}

/// A group row some row names as its parent (an empty parent names none).
pub open spec fn has_child(rows: Seq<GrossNetRowKeys>, i: int) -> bool {
    exists|j: int| 0 <= j < rows.len() && rows[j].parent_account@ == account_value(rows[i])
        && rows[j].parent_account@.len() > 0
}

pub open spec fn kept_row(rows: Seq<GrossNetRowKeys>, i: int) -> bool {
    !rows[i].is_group || has_child(rows, i)
}

pub open spec fn kept_rows(rows: Seq<GrossNetRowKeys>, n: nat) -> Seq<usize>
    decreases n,
{
    if n == 0 {
        Seq::empty()
    } else {
        let before = kept_rows(rows, (n - 1) as nat);
        if kept_row(rows, n - 1) { before.push((n - 1) as usize) } else { before }
    }
}

/// The rows kept, as indices in order, dropping each group row that no row
/// names as its parent; and whether any was dropped.
pub fn remove_parent_with_no_child(data: &[GrossNetRowKeys]) -> (r: (Vec<usize>, bool))
    ensures
        r.0@ == kept_rows(data@, data@.len()),
        r.1 == exists|i: int| 0 <= i < data@.len() && !kept_row(data@, i),
{
    let mut out: Vec<usize> = Vec::new();
    let mut removed = false;
    let mut i: usize = 0;
    while i < data.len()
        invariant
            i <= data@.len(),
            out@ == kept_rows(data@, i as nat),
            removed == exists|k: int| 0 <= k < i && !kept_row(data@, k),
        decreases data@.len() - i,
    {
        let parent = &data[i];
        let mut keep = true;
        if parent.is_group {
            let value = match &parent.account {
                Some(a) => a.as_str(),
                None => "",
            };
            proof { reveal_strlit(""); }
            let mut found = false;
            let mut j: usize = 0;
            while j < data.len() && !found
                invariant
                    j <= data@.len(),
                    value@ == account_value(data@[i as int]),
                    found ==> has_child(data@, i as int),
                    !found ==> forall|q: int| 0 <= q < j ==> !(data@[q].parent_account@ == account_value(data@[i as int])
                        && data@[q].parent_account@.len() > 0),
                decreases data@.len() - j + (if found { 0int } else { 1int }),
            {
                let child = &data[j];
                if str_eq(child.parent_account.as_str(), value) && child.parent_account.as_str().unicode_len() > 0 {
                    found = true;
                } else {
                    j = j + 1;
                }
            }
            keep = found;
        }
        assert(keep == kept_row(data@, i as int));
        if keep {
            out.push(i);
        } else {
            removed = true;
        }
        proof {
            if !keep {
                assert(0 <= i < i + 1 && !kept_row(data@, i as int));
            }
        }
        i = i + 1;
    }
    (out, removed)
}


/// The rows at the places `idx`.
pub open spec fn rows_at(rows: Seq<GrossNetRowKeys>, idx: Seq<usize>) -> Seq<GrossNetRowKeys> {
    idx.map_values(|i: usize| rows[i as int])
}

/// Dropping the childless groups over and over, until a pass drops none:
/// the places, among `idx`, of the rows that stay.
pub open spec fn pruned(rows: Seq<GrossNetRowKeys>, idx: Seq<usize>) -> Seq<usize>
    decreases idx.len(),
{
    let sub = rows_at(rows, idx);
    let keep = kept_rows(sub, sub.len());
    if keep.len() < idx.len() {
        pruned(rows, keep.map_values(|p: usize| idx[p as int]))
    } else {
        idx
    }
}

/// The first `n` rows that are included in gross as asked, or are groups.
pub open spec fn revenue_candidates(rows: Seq<GrossNetRowKeys>, include_in_gross: Seq<i32>, wanted: i32, n: int)
    -> Seq<usize>
    decreases n,
{
    if n <= 0 {
        Seq::empty()
    } else {
        revenue_candidates(rows, include_in_gross, wanted, n - 1) + if include_in_gross[n - 1] == wanted
            || rows[n - 1].is_group {
            seq![(n - 1) as usize]
        } else {
            Seq::empty()
        }
    }
}

proof fn lemma_kept_len(rows: Seq<GrossNetRowKeys>, n: nat)
    requires
        n <= rows.len(),
    ensures
        kept_rows(rows, n).len() <= n,
        (exists|i: int| 0 <= i < n && !kept_row(rows, i)) ==> kept_rows(rows, n).len() < n,
        (forall|i: int| 0 <= i < n ==> kept_row(rows, i)) ==> kept_rows(rows, n).len() == n,
        forall|p: int| 0 <= p < kept_rows(rows, n).len() ==> kept_rows(rows, n)[p] < n,
    decreases n,
{
    if n > 0 {
        lemma_kept_len(rows, (n - 1) as nat);
        if exists|i: int| 0 <= i < n && !kept_row(rows, i) {
            let i = choose|i: int| 0 <= i < n && !kept_row(rows, i);
            if i < n - 1 {
                assert(exists|k: int| 0 <= k < n - 1 && !kept_row(rows, k));
            }
        }
    }
}

fn copy_keys(k: &GrossNetRowKeys) -> (r: GrossNetRowKeys)
    ensures
        r == *k,
{
    GrossNetRowKeys {
        account: match &k.account {
            Some(a) => Some(a.clone()),
            None => None,
        },
        parent_account: k.parent_account.clone(),
        is_group: k.is_group,
    }
}

/// The rows of a side of the statement that the report shows, as places in
/// order: those included in gross as asked (`wanted`), or groups, after
/// childless groups are dropped until none is left. Every group shown has a
/// child shown.
pub fn get_revenue(rows: &[GrossNetRowKeys], include_in_gross: &[i32], wanted: i32) -> (r: Vec<usize>)
    requires
        rows.len() == include_in_gross.len(),
    ensures
        r@ == pruned(rows@, revenue_candidates(rows@, include_in_gross@, wanted, rows.len() as int)),
        forall|i: int| 0 <= i < r.len() ==> #[trigger] kept_row(rows_at(rows@, r@), i),
{
    let mut idx: Vec<usize> = Vec::new();
    let mut i: usize = 0;
    while i < rows.len()
        invariant
            i <= rows.len() == include_in_gross.len(),
            idx@ == revenue_candidates(rows@, include_in_gross@, wanted, i as int),
            forall|p: int| 0 <= p < idx.len() ==> #[trigger] idx@[p] < i,
        decreases rows.len() - i,
    {
        if include_in_gross[i] == wanted || rows[i].is_group {
            idx.push(i);
        }
        assert(idx@ =~= revenue_candidates(rows@, include_in_gross@, wanted, i + 1));
        i = i + 1;
    }
    let ghost target = pruned(rows@, idx@);
    loop
        invariant
            pruned(rows@, idx@) == target,
            target == pruned(rows@, revenue_candidates(rows@, include_in_gross@, wanted, rows.len() as int)),
            forall|p: int| 0 <= p < idx.len() ==> #[trigger] idx@[p] < rows.len(),
        ensures
            idx@ == target,
            forall|i: int| 0 <= i < idx.len() ==> #[trigger] kept_row(rows_at(rows@, idx@), i),
        decreases idx.len(),
    {
        let mut sub: Vec<GrossNetRowKeys> = Vec::new();
        let mut q: usize = 0;
        while q < idx.len()
            invariant
                q <= idx.len(),
                forall|p: int| 0 <= p < idx.len() ==> #[trigger] idx@[p] < rows.len(),
                sub@ == rows_at(rows@, idx@.subrange(0, q as int)),
            decreases idx.len() - q,
        {
            let k = copy_keys(&rows[idx[q]]);
            let ghost before = sub@;
            sub.push(k);
            assert(sub@ =~= rows_at(rows@, idx@.subrange(0, q + 1)));
            q = q + 1;
        }
        assert(idx@.subrange(0, idx.len() as int) =~= idx@);
        let ghost s = sub@;
        let (keep, removed) = remove_parent_with_no_child(&sub);
        proof { lemma_kept_len(s, s.len()); }
        if !removed {
            assert(keep@.len() == idx@.len());
            assert(pruned(rows@, idx@) == idx@);
            assert(s == rows_at(rows@, idx@));
            assert forall|i: int| 0 <= i < idx.len() implies #[trigger] kept_row(rows_at(rows@, idx@), i) by {
                if !kept_row(s, i) {
                    assert(0 <= i < s.len() && !kept_row(s, i));
                }
            }
            break;
        }
        let mut next: Vec<usize> = Vec::new();
        let mut q: usize = 0;
        while q < keep.len()
            invariant
                q <= keep.len(),
                keep@ == kept_rows(s, s.len()),
                s.len() == idx.len(),
                forall|p: int| 0 <= p < keep.len() ==> #[trigger] keep@[p] < s.len(),
                next@ == keep@.subrange(0, q as int).map_values(|p: usize| idx@[p as int]),
            decreases keep.len() - q,
        {
            let ghost before = next@;
            next.push(idx[keep[q]]);
            assert(next@ =~= keep@.subrange(0, q + 1).map_values(|p: usize| idx@[p as int]));
            q = q + 1;
        }
        assert(keep@.subrange(0, keep.len() as int) =~= keep@);
        assert(keep@.len() < idx@.len());
        idx = next;
    }
    idx
}

} // verus!
