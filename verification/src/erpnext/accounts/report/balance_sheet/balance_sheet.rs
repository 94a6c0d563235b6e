//! Balance sheet: the periods the statement reports on, and those its
//! summary adds up.
use vstd::prelude::*;
use crate::text::{owned, str_eq};

verus! {

#[derive(Debug, PartialEq, Eq)]
pub struct BalanceSheetFilters {
    pub company: String,
    pub presentation_currency: Option<String>,
    pub accumulated_values: bool,
    pub selected_view: Option<String>,
    pub accumulated_in_group_company: bool,
    pub report_template: bool,
}

#[derive(Debug, PartialEq, Eq)]
pub struct BalanceSheetPeriod {
    pub key: String,
    pub label: String,
}

impl BalanceSheetPeriod {
    pub fn new(key: &str, label: &str) -> (r: Self)
        ensures
            r.key@ == key@,
            r.label@ == label@,
    {
        BalanceSheetPeriod { key: owned(key), label: owned(label) }
    }
}

/// Whether period `i` counts towards the summary: the last period alone for
/// accumulated values, else every period; for values accumulated in a group
/// company only a period whose key or label is the company.
pub open spec fn in_summary(periods: Seq<BalanceSheetPeriod>, filters: BalanceSheetFilters, i: int) -> bool {
    &&& 0 <= i < periods.len()
    &&& filters.accumulated_values ==> i == periods.len() - 1
    &&& filters.accumulated_in_group_company ==> (periods[i].key@ == filters.company@ || periods[i].label@
        == filters.company@)
}

/// The periods that the summary adds up, as indices in period order.
pub fn summary_periods(period_list: &[BalanceSheetPeriod], filters: &BalanceSheetFilters) -> (r: Vec<usize>)
    ensures
        forall|k: int| 0 <= k < r@.len() ==> in_summary(period_list@, *filters, #[trigger] r@[k] as int),
        forall|i: int| in_summary(period_list@, *filters, i) ==> r@.contains(i as usize),
        forall|a: int, b: int| 0 <= a < b < r@.len() ==> r@[a] < r@[b],
{
    let n = period_list.len();
    let mut r: Vec<usize> = Vec::new();
    let mut i: usize = if filters.accumulated_values && n > 0 { n - 1 } else { 0 };
    let start = i;
    while i < n
        invariant
            n == period_list@.len(),
            start <= i <= n,
            start == (if filters.accumulated_values && n > 0 { n - 1 } else { 0 }),
            forall|k: int| 0 <= k < r@.len() ==> start <= #[trigger] r@[k] < i && in_summary(period_list@, *filters, r@[k] as int),
            forall|j: int| start <= j < i && in_summary(period_list@, *filters, j) ==> r@.contains(j as usize),
            forall|a: int, b: int| 0 <= a < b < r@.len() ==> r@[a] < r@[b],
        decreases n - i,
    {
        let p = &period_list[i];
        let keep = !filters.accumulated_in_group_company || str_eq(p.key.as_str(), filters.company.as_str())
            || str_eq(p.label.as_str(), filters.company.as_str());
        let ghost old_r = r@;
        if keep {
            r.push(i);
            assert(r@[r@.len() - 1] == i);
        }
        assert forall|j: int| start <= j < i + 1 && in_summary(period_list@, *filters, j) implies r@.contains(
            j as usize,
        ) by {
            if j == i {
                assert(keep);
                assert(r@[r@.len() - 1] == j as usize);
            } else {
                assert(old_r.contains(j as usize));
                let k = choose|k: int| 0 <= k < old_r.len() && old_r[k] == j as usize;
                assert(r@[k] == j as usize);
            }
        }
        i = i + 1;
    }
    r
}

} // verus!
