use tokio_erp::erpnext::accounts::report::payment_ledger::payment_ledger::{init_voucher_dict, voucher_key};
use std::collections::BTreeMap;
use tokio_erp::erpnext::accounts::report::cash_flow::cash_flow::{
    get_cash_flow_accounts, get_start_date, quoted, total_period_keys, CashFlowFilters, CashFlowPeriod,
};
use tokio_erp::erpnext::accounts::report::cheques_and_deposits_incorrectly_cleared::cheques_and_deposits_incorrectly_cleared::is_receive_party;
use tokio_erp::erpnext::accounts::report::customer_ledger_summary::customer_ledger_summary::{
    balance_side, entry_bucket, get_columns as party_columns, party_order, scrub, validate_filters as party_validate,
    LedgerBucket, PartyDetail, PartyLedgerArgs, PartyLedgerError, PartyLedgerFilters, PartyType,
};
use tokio_erp::erpnext::accounts::report::deferred_revenue_and_expense::deferred_revenue_and_expense::{
    service_overlaps_periods, Period as DeferredPeriod,
};
use tokio_erp::erpnext::accounts::report::invalid_ledger_entries::invalid_ledger_entries::{
    execute as invalid_execute, identify_cancelled_vouchers, validate_filters as invalid_validate,
    InvalidLedgerEntryFilters, LedgerVoucher,
};
use tokio_erp::erpnext::accounts::report::payment_period_based_on_invoice_date::payment_period_based_on_invoice_date::{
    ageing, get_columns as payment_columns, payment_delay, validate_filters as payment_validate, PaymentPeriodError,
    PaymentPeriodFilters,
};

fn voucher(t: &str, n: &str) -> LedgerVoucher {
    LedgerVoucher::new(t, n)
}

fn pairs(vs: &[LedgerVoucher]) -> Vec<(String, String)> {
    vs.iter().map(|v| (v.voucher_type.clone(), v.voucher_no.clone())).collect()
}

#[test]
fn ageing_buckets_by_days_on_the_report_date() {
    let filters = PaymentPeriodFilters::new("Incoming", "Acme").with_report_date("2024-03-31");
    assert_eq!(ageing(&filters, "2024-03-01"), Some((30, 0)));
    assert_eq!(ageing(&filters, "2024-02-29"), Some((31, 1)));
    assert_eq!(ageing(&filters, "2023-12-01"), Some((121, 4)));
    assert_eq!(ageing(&filters, "not a date"), None);
    let custom = PaymentPeriodFilters::new("Incoming", "Acme").with_report_date("2024-01-11").with_range("5, x, 10");
    assert_eq!(ageing(&custom, "2024-01-05"), Some((6, 1)));
    assert_eq!(ageing(&PaymentPeriodFilters::new("Incoming", "Acme"), "2024-01-05"), None);
}

#[test]
fn older_payments_never_fall_in_earlier_buckets() {
    let filters = PaymentPeriodFilters::new("Incoming", "Acme").with_report_date("2024-12-31");
    let mut last = 0usize;
    for date in ["2024-12-31", "2024-12-01", "2024-11-01", "2024-10-01", "2024-09-01", "2024-01-01"] {
        let (_, bucket) = ageing(&filters, date).unwrap();
        assert!(bucket >= last);
        assert!(bucket <= 4);
        last = bucket;
    }
}

#[test]
fn payment_delay_in_days() {
    assert_eq!(payment_delay("2024-01-31", "2024-02-05"), 5);
    assert_eq!(payment_delay("2024-02-05", "2024-01-31"), -5);
    assert_eq!(payment_delay("2024-01-31", "2024-01-31"), 0);
    assert_eq!(payment_delay("2024-01-31", "bad"), 0);
    assert_eq!(payment_delay("1999-12-31", "2000-03-01"), 61);
}

#[test]
fn payment_type_must_fit_the_party_type() {
    let mut filters = PaymentPeriodFilters::new("Incoming", "Acme");
    assert!(payment_validate(&filters).is_ok());
    filters.party_type = Some("Supplier".to_string());
    assert_eq!(
        payment_validate(&filters),
        Err(PaymentPeriodError::InvalidPartyTypeForPaymentType {
            payment_type: "Incoming".to_string(),
            party_type: "Supplier".to_string(),
        })
    );
    filters.party_type = Some("Customer".to_string());
    assert!(payment_validate(&filters).is_ok());
}

#[test]
fn payment_columns_name_the_matched_invoice() {
    let out = payment_columns(&PaymentPeriodFilters::new("Outgoing", "Acme"));
    assert_eq!(out.len(), 16);
    assert_eq!(out[5].fieldname, "invoice");
    assert_eq!(out[5].options, "Purchase Invoice");
    let inc = payment_columns(&PaymentPeriodFilters::new("Incoming", "Acme"));
    assert_eq!(inc[5].options, "Sales Invoice");
    assert_eq!(inc[15].fieldname, "delay_in_payment");
}

#[test]
fn cancelled_vouchers_are_the_common_ones_sorted() {
    let active = vec![voucher("Sales Invoice", "SI-2"), voucher("Journal Entry", "JV-1"), voucher("Sales Invoice", "SI-1")];
    let cancelled = vec![voucher("Sales Invoice", "SI-1"), voucher("Sales Invoice", "SI-2"), voucher("Payment Entry", "PE-1"),
        voucher("Sales Invoice", "SI-1")];
    let found = identify_cancelled_vouchers(&active, &cancelled);
    assert_eq!(
        pairs(&found),
        vec![("Sales Invoice".to_string(), "SI-1".to_string()), ("Sales Invoice".to_string(), "SI-2".to_string())]
    );
    let swapped = identify_cancelled_vouchers(&cancelled, &active);
    assert_eq!(pairs(&swapped), pairs(&found));
    assert!(identify_cancelled_vouchers(&active, &[]).is_empty());
}

#[test]
fn invalid_ledger_filters() {
    let mut filters = InvalidLedgerEntryFilters::new("Acme", "2024-01-01", "2024-12-31");
    assert!(invalid_validate(Some(&filters)).is_ok());
    assert_eq!(invalid_validate(None).unwrap_err(), "Filters missing");
    filters.from_date = "2025-01-01".to_string();
    assert_eq!(invalid_validate(Some(&filters)).unwrap_err(), "Start Date should be lower than End Date");
    filters.company = None;
    assert_eq!(invalid_validate(Some(&filters)).unwrap_err(), "Company is mandatory");
    let report = invalid_execute(
        InvalidLedgerEntryFilters::new("Acme", "2024-01-01", "2024-12-31"),
        vec![voucher("Journal Entry", "JV-9")],
        vec![voucher("Journal Entry", "JV-9")],
    )
    .unwrap();
    assert_eq!(pairs(&report.rows), vec![("Journal Entry".to_string(), "JV-9".to_string())]);
}

#[test]
fn party_ledger_rules() {
    assert_eq!(entry_bucket("2023-12-31", "2024-01-01", "No", false, false, true), LedgerBucket::Opening);
    assert_eq!(entry_bucket("2024-01-05", "2024-01-01", "Yes", true, false, true), LedgerBucket::Opening);
    assert_eq!(entry_bucket("2024-01-05", "2024-01-01", "No", true, false, true), LedgerBucket::Return);
    assert_eq!(entry_bucket("2024-01-05", "2024-01-01", "No", false, true, true), LedgerBucket::Paid);
    assert_eq!(entry_bucket("2024-01-05", "2024-01-01", "No", false, true, false), LedgerBucket::Invoiced);
    assert_eq!(entry_bucket("2024-01-05", "2024-01-01", "No", false, false, true), LedgerBucket::Invoiced);
    assert_eq!(entry_bucket("2024-01-05", "2024-01-01", "No", false, false, false), LedgerBucket::Paid);
    assert_eq!(balance_side(PartyType::Customer, true, false).as_deref(), Some("Dr"));
    assert_eq!(balance_side(PartyType::Customer, false, true).as_deref(), Some("Cr"));
    assert_eq!(balance_side(PartyType::Supplier, true, false).as_deref(), Some("Cr"));
    assert_eq!(balance_side(PartyType::Supplier, false, false), None);
}

#[test]
fn party_order_keeps_first_appearances_of_known_parties() {
    let mut details = BTreeMap::new();
    for p in ["A", "B"] {
        details.insert(
            p.to_string(),
            PartyDetail { party: p.to_string(), party_name: p.to_string(), party_group: "G".to_string(), territory: None },
        );
    }
    let entries: Vec<String> = ["B", "X", "A", "B", "A"].iter().map(|s| s.to_string()).collect();
    assert_eq!(party_order(&entries, &details), vec!["B", "A"]);
}

#[test]
fn party_filters_and_columns() {
    let filters = PartyLedgerFilters { company: String::new(), from_date: "2024-01-01".to_string(), to_date: "2024-12-31".to_string() };
    assert_eq!(party_validate(&filters), Err(PartyLedgerError::MissingCompany));
    let filters = PartyLedgerFilters { company: "Acme".to_string(), from_date: "2025-01-01".to_string(), to_date: "2024-12-31".to_string() };
    assert_eq!(party_validate(&filters), Err(PartyLedgerError::FromDateAfterToDate));
    assert_eq!(scrub("Write Off -- Acme & Co."), "write_off_acme_co");
    let args = PartyLedgerArgs { party_type: PartyType::Customer, party_naming_by: "Naming Series".to_string() };
    let columns = party_columns(&args, &["Write Off".to_string()]);
    let names: Vec<&str> = columns.iter().map(|c| c.fieldname.as_str()).collect();
    assert_eq!(
        names,
        vec!["party", "party_name", "customer_group", "territory", "opening_balance", "invoiced_amount", "paid_amount",
            "return_amount", "adj_write_off", "closing_balance", "currency", "dr_or_cr"]
    );
    assert!(columns[8].is_adjustment);
    assert_eq!(columns[7].label, "Credit Note");
}

#[test]
fn cash_flow_sections_and_totals() {
    let sections = get_cash_flow_accounts();
    assert_eq!(sections.len(), 3);
    assert_eq!(sections[0].section_header, "Cash Flow from Operations");
    assert_eq!(sections[2].account_types[0].account_type, "Equity");
    assert_eq!(quoted("Net Change in Cash"), "'Net Change in Cash'");
    let periods = vec![
        CashFlowPeriod::new("fy_a", "Acme", "2024-01-01", "2024-12-31", "2024-01-01"),
        CashFlowPeriod::new("fy_b", "Other", "2024-01-01", "2024-12-31", "2024-01-01"),
    ];
    let mut filters = CashFlowFilters {
        company: "Acme".to_string(),
        company_currency: "USD".to_string(),
        accumulated_values: false,
        accumulated_in_group_company: false,
        show_opening_and_closing_balance: false,
        report_template: false,
    };
    assert_eq!(total_period_keys(&periods, &filters, false), vec!["fy_a", "fy_b"]);
    filters.accumulated_in_group_company = true;
    assert_eq!(total_period_keys(&periods, &filters, true), vec!["Acme"]);
    assert_eq!(get_start_date(&periods[0], false, "2023-04-01"), "2024-01-01");
    assert_eq!(get_start_date(&periods[0], true, "2023-04-01"), "2023-04-01");
}

#[test]
fn receive_payments_from_parties() {
    assert!(is_receive_party(Some("Receive"), Some("Customer")));
    assert!(is_receive_party(Some("Receive"), Some("Supplier")));
    assert!(!is_receive_party(Some("Pay"), Some("Customer")));
    assert!(!is_receive_party(Some("Receive"), None));
}

#[test]
fn service_periods_overlap() {
    let periods = vec![
        DeferredPeriod::new("jan", "Jan", "2024-01-01", "2024-01-31"),
        DeferredPeriod::new("feb", "Feb", "2024-02-01", "2024-02-29"),
    ];
    assert_eq!(service_overlaps_periods("2023-12-15", "2024-01-10", &periods), Ok(true));
    assert_eq!(service_overlaps_periods("2024-02-10", "2024-03-10", &periods), Ok(true));
    assert_eq!(service_overlaps_periods("2024-03-01", "2024-03-10", &periods), Ok(false));
    assert_eq!(service_overlaps_periods("2023-01-01", "2023-02-01", &periods), Ok(false));
    assert!(service_overlaps_periods("2024-02-30", "2024-03-10", &periods).is_err());
    assert_eq!(service_overlaps_periods("x", "y", &[]), Ok(false));
}

#[test]
fn payment_ledger_groups_by_voucher_or_party() {
    let against = |t: &str, n: &str| (Some(t.to_string()), Some(n.to_string()));
    let k1 = voucher_key(false, "Customer", "C1", &against("Sales Invoice", "SI-1").0, &against("Sales Invoice", "SI-1").1);
    assert_eq!(k1, (Some("Sales Invoice".to_string()), Some("SI-1".to_string()), Some("C1".to_string())));
    let by_party = voucher_key(true, "Customer", "C1", &None, &None);
    assert_eq!(by_party, (Some("Customer".to_string()), Some("C1".to_string()), None));
    let k2 = voucher_key(false, "Customer", "C2", &None, &None);
    let keys = vec![k1.clone(), k2.clone(), k1.clone(), by_party];
    assert_eq!(init_voucher_dict(&keys), vec![vec![0, 2], vec![1], vec![3]]);
}
