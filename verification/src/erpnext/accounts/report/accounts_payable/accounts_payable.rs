//! Accounts payable: the receivable/payable report run for payable accounts.
use vstd::prelude::*;
use crate::erpnext::accounts::report::{DelegatedReportExecution, ReportArg, ReportFilters};

verus! {

pub fn execute(filters: Option<ReportFilters>) -> (r: DelegatedReportExecution)
    ensures
        r.delegate@ == "ReceivablePayableReport"@,
        r.filters == filters,
        r.args@.len() == 2,
        r.args@[0].0@ == "account_type"@,
        r.args@[0].1 matches ReportArg::Text(t) && t@ == "Payable"@,
        r.args@[1].0@ == "naming_by"@,
        r.args@[1].1 matches ReportArg::List(l) && l@.len() == 2 && l@[0]@ == "Buying Settings"@
            && l@[1]@ == "supp_master_name"@,
{
    let naming: &'static [&'static str] = &["Buying Settings", "supp_master_name"];
    DelegatedReportExecution {
        delegate: "ReceivablePayableReport",
        filters,
        args: vec![("account_type", ReportArg::Text("Payable")), ("naming_by", ReportArg::List(naming))],
    }
}

} // verus!
