use std::collections::BTreeMap;
use tokio_erp::erpnext::accounts::report::budget_variance_report::budget_variance_report::ErpDate;
use tokio_erp::erpnext::accounts::report::consolidated_trial_balance::consolidated_trial_balance::get_fctr_root_row_index;
use tokio_erp::erpnext::accounts::report::deferred_revenue_and_expense::deferred_revenue_and_expense::parse_date as parse_service_date;
use tokio_erp::erpnext::accounts::report::bank_reconciliation_statement::bank_reconciliation_statement::get_entries as bank_entry_order;
use tokio_erp::erpnext::accounts::report::financial_statements::Period;
use tokio_erp::erpnext::accounts::report::gross_and_net_profit_report::gross_and_net_profit_report::{
    get_revenue as revenue_rows, remove_parent_with_no_child, GrossNetRowKeys,
};
use tokio_erp::erpnext::accounts::report::gross_profit::gross_profit::{
    prepare_vouchers_to_ignore, should_skip_row, GrossProfitRowTexts, StockLedgerCache, StockLedgerLookup,
};
use tokio_erp::erpnext::accounts::report::inactive_sales_items::inactive_sales_items::{
    get_sales_details_map, SalesDetailKeys,
};
use tokio_erp::erpnext::accounts::report::pos_register::pos_register::{concat_mode_of_payments, PosPaymentEntry};
use tokio_erp::erpnext::accounts::report::item_wise_sales_register::item_wise_sales_register::get_delivery_notes_against_sales_order;

fn s(x: &str) -> String {
    x.to_string()
}

#[test]
fn pos_entries_get_their_invoices_payments() {
    let mut entries = vec![
        PosPaymentEntry { pos_invoice: s("A"), mode_of_payment: Some(s("old")) },
        PosPaymentEntry { pos_invoice: s("B"), mode_of_payment: Some(s("keep")) },
    ];
    let modes = vec![(s("A"), vec![s("Cash"), s("Card")])];
    concat_mode_of_payments(&mut entries, &modes);
    assert_eq!(entries[0].mode_of_payment.as_deref(), Some("Cash, Card"));
    assert_eq!(entries[1].mode_of_payment.as_deref(), Some("keep"));
}

fn gn(account: Option<&str>, parent: &str, is_group: bool) -> GrossNetRowKeys {
    GrossNetRowKeys { account: account.map(s), parent_account: s(parent), is_group }
}

#[test]
fn childless_groups_are_dropped() {
    let rows = vec![gn(Some("Income"), "", true), gn(Some("Sales"), "Income", false), gn(Some("Empty"), "", true), gn(None, "", false)];
    assert_eq!(remove_parent_with_no_child(&rows), (vec![0, 1, 3], true));
    let rows = vec![gn(Some("Sales"), "Income", false)];
    assert_eq!(remove_parent_with_no_child(&rows), (vec![0], false));
}

#[test]
fn first_detail_of_each_territory_and_item() {
    let d = |t: &str, i: &str| SalesDetailKeys { territory: s(t), item_code: s(i) };
    let details = vec![d("EU", "X"), d("EU", "Y"), d("EU", "X"), d("US", "X")];
    assert_eq!(get_sales_details_map(&details), vec![0, 1, 3]);
}

#[test]
fn bank_entries_by_posting_date_stably() {
    let dates = vec![s("2024-02-01"), s("2024-01-01"), s("2024-02-01"), s("2023-12-31")];
    assert_eq!(bank_entry_order(&dates), vec![3, 1, 0, 2]);
}

fn row_texts() -> GrossProfitRowTexts {
    GrossProfitRowTexts {
        invoice_or_item: s("SI-1"),
        customer: s("Globex"),
        customer_group: s(""),
        customer_name: s("Globex Inc"),
        posting_date: s("2024-01-01"),
        monthly: s("Jan"),
        item_code: s("X"),
        item_name: s("Widget"),
        item_group: s(""),
        brand: s("B"),
        description: s("d"),
        warehouse: s("W"),
        project: s(""),
        cost_center: s("CC"),
        territory: s("EU"),
        sales_person: s(""),
        payment_term: s(""),
    }
}

#[test]
fn rows_with_empty_group_value_are_skipped() {
    let row = row_texts();
    assert!(should_skip_row(&row, "Item Group"));
    assert!(should_skip_row(&row, " customer group "));
    assert!(!should_skip_row(&row, "Customer"));
    assert!(!should_skip_row(&row, "Invoice"));
    assert!(!should_skip_row(&row, "Nothing"));
}

#[test]
fn vouchers_to_ignore_are_the_parents() {
    assert_eq!(prepare_vouchers_to_ignore(&[Some(s("SI-1")), None, Some(s("SI-2"))]), vec![s("SI-1"), s("SI-2")]);
}

#[test]
fn stock_ledger_cache_loads_each_pair_once() {
    let mut cache = StockLedgerCache { keys: Vec::new(), requests: Vec::new() };
    assert_eq!(cache.get_entries("", "W", "C"), StockLedgerLookup::Skip);
    assert_eq!(cache.get_entries("X", "W", "C"), StockLedgerLookup::Loaded(0));
    assert_eq!(cache.get_entries("Y", "W", "C"), StockLedgerLookup::Loaded(1));
    assert_eq!(cache.get_entries("X", "W", "C"), StockLedgerLookup::Cached(0));
    assert_eq!(cache.requests.len(), 2);
    assert_eq!(cache.requests[0].conditions[1], "stock_ledger_entry.item_code = X");
}

#[test]
fn period_year_comes_from_the_first_four_bytes() {
    let p = Period::new("k", "l", "2024-01-01", "2025-06-30");
    assert_eq!(p.year_start_date, "2024-01-01");
    assert_eq!(p.year_end_date, "2025-12-31");
    let odd = Period::new("k", "l", "äb1-01-01", "2025-06-30");
    assert_eq!(odd.year_start_date, "äb1-01-01");
}

#[test]
fn delivery_notes_of_named_order_rows() {
    let mut by = BTreeMap::new();
    by.insert(s("SO-1"), vec![s("DN-1"), s("DN-2")]);
    by.insert(s("SO-9"), vec![s("DN-9")]);
    let got = get_delivery_notes_against_sales_order(
        &[Some(s("SO-1")), None, Some(s("SO-2")), Some(s("SO-1"))],
        &by,
    );
    assert_eq!(got.len(), 1);
    assert_eq!(got["SO-1"], vec![s("DN-1"), s("DN-2")]);
}

#[test]
fn translation_reserve_row_prefers_equity_then_liability() {
    let t = |v: &[&str]| v.iter().map(|x| s(x)).collect::<Vec<String>>();
    assert_eq!(get_fctr_root_row_index(&t(&["Asset", "Liability", "Equity", "Equity"])), 2);
    assert_eq!(get_fctr_root_row_index(&t(&["Asset", "Liability", "Liability"])), 1);
    assert_eq!(get_fctr_root_row_index(&t(&["Asset", "Income"])), 0);
    assert_eq!(get_fctr_root_row_index(&[]), 0);
}

#[test]
fn erp_days_step_and_shift() {
    let d = ErpDate { year: 2024, month: 2, day: 29 };
    assert_eq!(d.next_day(), ErpDate { year: 2024, month: 3, day: 1 });
    assert_eq!(d.next_day().previous_day(), d);
    assert_eq!(ErpDate { year: 2024, month: 1, day: 1 }.previous_day(), ErpDate { year: 2023, month: 12, day: 31 });
    assert_eq!(d.add_days(0), d);
    assert_eq!(d.add_days(366).add_days(-366), d);
    assert_eq!(d.add_days(10).add_days(5), d.add_days(15));
    assert_eq!(d.add_days(-1), d.previous_day());
    assert_eq!(d.add_days(-400).add_days(400), d);
    assert_eq!(d.add_days(-400), ErpDate { year: 2023, month: 1, day: 25 });
}

#[test]
fn service_dates_read_and_write_back() {
    let d = parse_service_date("2024-02-29").unwrap();
    assert_eq!(d.format(), "2024-02-29");
    assert_eq!(parse_service_date("2023-02-29").unwrap_err(), "Invalid date: 2023-02-29");
    assert_eq!(parse_service_date("2024-13-01").unwrap_err(), "Invalid date: 2024-13-01");
    assert_eq!(parse_service_date("2024-1-5").unwrap().format(), "2024-01-05");
}

#[test]
fn revenue_rows_drop_childless_groups_until_none_is_left() {
    let rows = vec![
        gn(Some("Income"), "", true),
        gn(Some("Sales"), "Income", true),
        gn(Some("Leaf A"), "Sales", false),
        gn(Some("Other"), "Income", true),
        gn(Some("Leaf B"), "Income", false),
    ];
    assert_eq!(revenue_rows(&rows, &[0, 0, 1, 0, 0], 1), vec![0, 1, 2]);
    assert_eq!(revenue_rows(&rows, &[0, 0, 1, 0, 0], 0), vec![0, 4]);
    let chain = vec![gn(Some("Income"), "", true), gn(Some("Sales"), "Income", true), gn(Some("Leaf"), "Sales", false)];
    assert_eq!(revenue_rows(&chain, &[0, 0, 0], 1), Vec::<usize>::new());
}
