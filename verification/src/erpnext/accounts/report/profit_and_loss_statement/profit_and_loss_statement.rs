//! Profit and loss statement: its filters and periods.
use vstd::prelude::*;
use crate::text::owned;

verus! {

#[derive(Debug, PartialEq, Eq)]
pub struct ProfitLossFilters {
    pub company: String,
    pub presentation_currency: Option<String>,
    pub accumulated_values: bool,
    pub periodicity: String,
    pub selected_view: Option<String>,
    pub accumulated_in_group_company: bool,
    pub report_template: bool,
}

#[derive(Debug, PartialEq, Eq)]
pub struct ProfitLossPeriod {
    pub key: String,
    pub label: String,
}

impl ProfitLossPeriod {
    pub fn new(key: &str, label: &str) -> (r: Self)
        ensures
            r.key@ == key@,
            r.label@ == label@,
    {
        ProfitLossPeriod { key: owned(key), label: owned(label) }
    }
}

} // verus!
