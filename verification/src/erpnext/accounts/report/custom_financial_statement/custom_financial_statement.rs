//! Custom financial statement: runs the financial report engine on a chosen
//! report template.
use vstd::prelude::*;

verus! {

pub const XLSX_STYLES_HOOK: &'static str = "get_xlsx_styles";

#[derive(Debug, Default, PartialEq, Eq)]
pub struct CustomFinancialStatementFilters {
    pub report_template: Option<String>,
}

#[derive(Debug, PartialEq, Eq)]
pub struct CustomFinancialStatementExecution {
    pub delegate: &'static str,
    pub method: &'static str,
    pub filters: CustomFinancialStatementFilters,
}

/// Runs the engine only when filters name a non-empty report template.
pub fn execute(filters: Option<CustomFinancialStatementFilters>) -> (r: Option<CustomFinancialStatementExecution>)
    ensures
        r is Some <==> (filters matches Some(f) && f.report_template matches Some(t) && t@.len() > 0),
        r matches Some(e) ==> {
            &&& e.delegate@ == "FinancialReportEngine"@
            &&& e.method@ == "execute"@
            &&& filters matches Some(f) && e.filters == f
        },
{
    let filters = match filters {
        Some(f) => f,
        None => return None,
    };
    let has_template = match &filters.report_template {
        Some(t) => t.as_str().unicode_len() > 0,
        None => false,
    };
    if !has_template {
        return None;
    }
    Some(CustomFinancialStatementExecution { delegate: "FinancialReportEngine", method: "execute", filters })
}

} // verus!
