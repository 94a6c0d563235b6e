use tokio_erp::erpnext::accounts::report::bank_reconciliation_statement::bank_reconciliation_statement::{
    BankReconciliationFilters, BankReconciliationQueryPlan, BankReconciliationSource,
};
use tokio_erp::erpnext::accounts::report::general_and_payment_ledger_comparison::general_and_payment_ledger_comparison::{
    matches_common_filters, ComparisonFilters,
};
use tokio_erp::erpnext::accounts::report::payment_ledger::payment_ledger::{
    apply_filters, PaymentLedgerEntryKeys, PaymentLedgerFilters,
};

#[test]
fn bank_reconciliation_queries() {
    let mut filters = BankReconciliationFilters {
        company: "Acme".to_string(),
        account: Some("Bank".to_string()),
        report_date: "2024-12-31".to_string(),
        account_currency: "USD".to_string(),
        include_pos_transactions: false,
    };
    let plans = BankReconciliationQueryPlan::for_filters(&filters);
    let sources: Vec<BankReconciliationSource> = plans.iter().map(|p| p.source).collect();
    assert_eq!(
        sources,
        vec![BankReconciliationSource::JournalEntry, BankReconciliationSource::PaymentEntry, BankReconciliationSource::PurchaseInvoice]
    );
    assert_eq!(plans[0].base_filters.len(), 6);
    assert_eq!(plans[1].base_filters[1], "paid_from = filters.account or paid_to = filters.account");
    assert_eq!(plans[2].ordering, vec!["posting_date", "name desc"]);
    filters.include_pos_transactions = true;
    let plans = BankReconciliationQueryPlan::for_filters(&filters);
    assert_eq!(plans.len(), 4);
    assert_eq!(plans[3].source, BankReconciliationSource::SalesInvoice);
    assert_eq!(plans[3].ordering[1], "Sales Invoice Payment.name desc");
}

fn comparison() -> ComparisonFilters {
    ComparisonFilters {
        company: "Acme".to_string(),
        account: Vec::new(),
        voucher_no: None,
        period_start_date: Some("2024-01-01".to_string()),
        period_end_date: Some("2024-12-31".to_string()),
        party_type: None,
        party: None,
    }
}

#[test]
fn comparison_entries_meet_the_common_filters() {
    let accounts = vec!["Debtors".to_string()];
    let f = comparison();
    assert!(matches_common_filters(&f, "Acme", "Debtors", "SI-1", "2024-06-01", "Customer", "C1", &accounts));
    assert!(!matches_common_filters(&f, "Other", "Debtors", "SI-1", "2024-06-01", "Customer", "C1", &accounts));
    assert!(!matches_common_filters(&f, "Acme", "Creditors", "SI-1", "2024-06-01", "Customer", "C1", &accounts));
    assert!(!matches_common_filters(&f, "Acme", "Debtors", "SI-1", "2025-01-01", "Customer", "C1", &accounts));
    let mut party = comparison();
    party.party = Some("C2".to_string());
    assert!(!matches_common_filters(&party, "Acme", "Debtors", "SI-1", "2024-06-01", "Customer", "C1", &accounts));
}

fn ledger_entry(date: &str, account: &str, party: &str, delinked: bool) -> PaymentLedgerEntryKeys {
    PaymentLedgerEntryKeys {
        posting_date: date.to_string(),
        account: account.to_string(),
        party_type: "Customer".to_string(),
        party: party.to_string(),
        voucher_no: Some("SI-1".to_string()),
        against_voucher_no: None,
        company: "Acme".to_string(),
        delinked,
    }
}

#[test]
fn payment_ledger_entries_pass_the_filters() {
    let entries = vec![
        ledger_entry("2024-01-05", "Debtors", "C1", false),
        ledger_entry("2024-01-06", "Debtors", "C2", true),
        ledger_entry("2023-12-31", "Debtors", "C1", false),
        ledger_entry("2024-02-01", "Other", "C1", false),
    ];
    let mut filters = PaymentLedgerFilters::default();
    assert_eq!(apply_filters(&entries, &filters), vec![0, 2, 3]);
    filters.period_start_date = Some("2024-01-01".to_string());
    filters.account = vec!["Debtors".to_string()];
    assert_eq!(apply_filters(&entries, &filters), vec![0]);
    filters.party = vec!["C9".to_string()];
    assert!(apply_filters(&entries, &filters).is_empty());
}
