use tokio_erp::erpnext::accounts::report::bank_reconciliation_statement::bank_reconciliation_statement::payment_entry_sides;
use tokio_erp::erpnext::accounts::report::cheques_and_deposits_incorrectly_cleared::cheques_and_deposits_incorrectly_cleared::{
    voucher_kind, ChequeVoucherKind,
};
use std::collections::BTreeMap;
use tokio_erp::erpnext::accounts::report::financial_ratios::financial_ratios::{balance_role, BalanceRole, RatioAction};
use tokio_erp::erpnext::accounts::report::financial_statements::account_display_name;
use tokio_erp::erpnext::accounts::report::item_wise_purchase_register::item_wise_purchase_register::{
    expense_account_text, first_present, purchase_receipt_text,
};

fn s(x: &str) -> String {
    x.to_string()
}

#[test]
fn first_present_prefers_the_first() {
    assert_eq!(first_present(&Some(s("a")), &Some(s("b"))), Some(s("a")));
    assert_eq!(first_present(&None, &Some(s("b"))), Some(s("b")));
    assert_eq!(first_present(&None, &None), None);
}

#[test]
fn purchase_receipt_falls_back_to_order_receipts() {
    let mut map = BTreeMap::new();
    map.insert(s("POD-1"), vec![s("PR-1"), s("PR-2")]);
    assert_eq!(purchase_receipt_text(&Some(s("PR-9")), &Some(s("POD-1")), &map), "PR-9");
    assert_eq!(purchase_receipt_text(&None, &Some(s("POD-1")), &map), "PR-1, PR-2");
    assert_eq!(purchase_receipt_text(&None, &Some(s("POD-2")), &map), "");
    assert_eq!(purchase_receipt_text(&None, &None, &map), "");
}

#[test]
fn expense_account_falls_back_in_order() {
    let mut map = BTreeMap::new();
    map.insert(s("Acme"), s("SRBNB - A"));
    assert_eq!(expense_account_text(&Some(s("UPL")), &Some(s("EXP")), "Acme", &map), "UPL");
    assert_eq!(expense_account_text(&None, &Some(s("EXP")), "Acme", &map), "EXP");
    assert_eq!(expense_account_text(&None, &None, "Acme", &map), "SRBNB - A");
    assert_eq!(expense_account_text(&None, &None, "Other", &map), "");
}

#[test]
fn account_names_carry_their_number() {
    assert_eq!(account_display_name(&Some(s("1100")), "Cash"), "1100 - Cash");
    assert_eq!(account_display_name(&None, "Cash"), "Cash");
}

#[test]
fn balance_roles_follow_the_root_type() {
    let bank = Some(s("Bank"));
    assert_eq!(
        balance_role(true, false, &bank, "Current Asset", "Asset"),
        BalanceRole { sets_total: false, negate_total: false, action: RatioAction::AddToNet }
    );
    let current = Some(s("Current Asset"));
    assert_eq!(
        balance_role(false, true, &current, "Current Asset", "Asset"),
        BalanceRole { sets_total: true, negate_total: false, action: RatioAction::SetRatio }
    );
    let income = Some(s("Direct Income"));
    assert_eq!(
        balance_role(true, true, &income, "Direct Income", "Income").action,
        RatioAction::AddToRatio
    );
    let cogs = Some(s("Cost of Goods Sold"));
    assert_eq!(
        balance_role(true, false, &cogs, "Cost of Goods Sold", "Expense").action,
        RatioAction::AddToRatio
    );
    let direct = Some(s("Direct Expense"));
    assert_eq!(
        balance_role(false, true, &direct, "Direct Expense", "Expense"),
        BalanceRole { sets_total: true, negate_total: true, action: RatioAction::SetRatio }
    );
    assert_eq!(balance_role(true, true, &None, "Direct Expense", "Expense").action, RatioAction::Ignore);
}

#[test]
fn cheque_vouchers_by_document_type() {
    assert_eq!(voucher_kind("Payment Entry"), Some(ChequeVoucherKind::PaymentEntry));
    assert_eq!(voucher_kind("Journal Entry"), Some(ChequeVoucherKind::JournalEntry));
    assert_eq!(voucher_kind("Sales Invoice"), None);
}

#[test]
fn payment_entries_show_the_side_of_the_bank_account() {
    let sides = payment_entry_sides("Bank", "Debtors", None, "EUR", "USD", "Bank");
    assert!(!sides.debit_side && sides.credit_side);
    assert_eq!(sides.against_account, "Debtors");
    assert_eq!(sides.account_currency, "USD");
    let sides = payment_entry_sides("Debtors", "Bank", Some("Cust"), "EUR", "USD", "Bank");
    assert!(sides.debit_side && !sides.credit_side);
    assert_eq!(sides.against_account, "Cust");
    assert_eq!(sides.account_currency, "EUR");
}
