use std::collections::BTreeMap;
use tokio_erp::erpnext::accounts::report::general_ledger::general_ledger::{
    account_filter_with_children, cost_center_filter_with_children, get_gl_entries, get_group_by_field, set_account_currency,
    consolidated_key, entry_period, gle_group_order, GlEntryPeriod, validate_party, AccountDetail, CostCenterDetail, GeneralLedgerFilters, GlEntryKeys, PartyCurrencyEntry,
};

fn filters() -> GeneralLedgerFilters {
    GeneralLedgerFilters {
        company: "Acme".to_string(),
        from_date: "2024-01-01".to_string(),
        to_date: "2024-12-31".to_string(),
        account: Vec::new(),
        party_type: None,
        party: Vec::new(),
        voucher_no: None,
        against_voucher_no: None,
        project: Vec::new(),
        cost_center: Vec::new(),
        finance_book: None,
        company_fb: None,
        include_default_book_entries: false,
        categorize_by: None,
        group_by: None,
        show_cancelled_entries: false,
        disable_opening_balance_calculation: false,
        show_opening_entries: false,
        include_dimensions: false,
        show_remarks: false,
        add_values_in_transaction_currency: false,
        print_in_account_currency: false,
        presentation_currency: None,
        account_currency: None,
        company_currency: None,
        show_amount_in_company_currency: false,
        show_net_values_in_party_account: false,
    }
}

fn account(is_group: bool, lft: i32, rgt: i32) -> AccountDetail {
    AccountDetail { is_group, account_currency: "USD".to_string(), account_type: None, parent_account: None, lft, rgt }
}

fn accounts() -> BTreeMap<String, AccountDetail> {
    let mut m = BTreeMap::new();
    m.insert("Assets".to_string(), account(true, 1, 10));
    m.insert("Cash".to_string(), account(false, 2, 3));
    m.insert("Bank".to_string(), account(true, 4, 9));
    m.insert("Bank A".to_string(), account(false, 5, 6));
    m.insert("Bank B".to_string(), account(false, 7, 8));
    m.insert("Income".to_string(), account(true, 11, 12));
    m
}

fn entry(date: &str, account: &str, creation: &str) -> GlEntryKeys {
    GlEntryKeys {
        posting_date: Some(date.to_string()),
        account: Some(account.to_string()),
        party_type: None,
        party: None,
        voucher_type: Some("Journal Entry".to_string()),
        voucher_no: Some(format!("JV-{creation}")),
        cost_center: None,
        project: None,
        against_voucher: None,
        creation: Some(creation.to_string()),
        finance_book: None,
        is_cancelled: false,
    }
}

#[test]
fn group_accounts_bring_their_children_in_name_order() {
    let names = vec!["Bank".to_string(), "Cash".to_string(), "Bank".to_string()];
    assert_eq!(account_filter_with_children(&names, &accounts()), vec!["Bank", "Bank A", "Bank B", "Cash"]);
    let names = vec!["Cash".to_string(), "Assets".to_string(), "Nowhere".to_string()];
    assert_eq!(
        account_filter_with_children(&names, &accounts()),
        vec!["Cash", "Assets", "Bank", "Bank A", "Bank B", "Nowhere"]
    );
    let mut centers = BTreeMap::new();
    centers.insert("Main".to_string(), CostCenterDetail { lft: 1, rgt: 6 });
    centers.insert("East".to_string(), CostCenterDetail { lft: 2, rgt: 3 });
    centers.insert("West".to_string(), CostCenterDetail { lft: 4, rgt: 5 });
    assert_eq!(cost_center_filter_with_children(&["Main".to_string()], &centers), vec!["Main", "East", "West"]);
    assert_eq!(cost_center_filter_with_children(&["East".to_string()], &centers), vec!["East"]);
}

#[test]
fn ledger_entries_are_filtered_and_ordered() {
    let entries = vec![
        entry("2024-02-01", "Cash", "3"),
        entry("2024-01-01", "Bank A", "2"),
        entry("2024-01-01", "Income", "1"),
        entry("2024-01-01", "Bank A", "0"),
    ];
    let centers = BTreeMap::new();
    assert_eq!(get_gl_entries(&filters(), &entries, &accounts(), &centers), vec![3, 1, 2, 0]);
    let mut by_account = filters();
    by_account.categorize_by = Some("Categorize by Account".to_string());
    by_account.account = vec!["Bank".to_string(), "Cash".to_string()];
    assert_eq!(get_gl_entries(&by_account, &entries, &accounts(), &centers), vec![3, 1, 0]);
    let mut cancelled = entries;
    cancelled[0].is_cancelled = true;
    cancelled[1].finance_book = Some("Tax".to_string());
    assert_eq!(get_gl_entries(&filters(), &cancelled, &accounts(), &centers), vec![3, 2]);
    let mut books = filters();
    books.finance_book = Some("Tax".to_string());
    assert_eq!(get_gl_entries(&books, &cancelled, &accounts(), &centers), vec![3, 1, 2]);
}

#[test]
fn group_by_fields_and_parties() {
    assert_eq!(get_group_by_field(Some("Categorize by Party")), "party");
    assert_eq!(get_group_by_field(None), "voucher_no");
    let mut f = filters();
    f.party_type = Some("Customer".to_string());
    f.party = vec!["C1".to_string(), "C9".to_string()];
    let mut valid = BTreeMap::new();
    valid.insert("Customer".to_string(), vec!["C1".to_string(), "C2".to_string()]);
    assert_eq!(validate_party(&f, &valid).unwrap_err(), "Invalid Customer: C9");
    f.party = vec!["C2".to_string()];
    assert!(validate_party(&f, &valid).is_ok());
}

fn currency_accounts() -> BTreeMap<String, AccountDetail> {
    let mut m = BTreeMap::new();
    let mut eur = account(false, 2, 3);
    eur.account_currency = "EUR".to_string();
    m.insert("Euro Bank".to_string(), eur);
    let mut eur2 = account(false, 4, 5);
    eur2.account_currency = "EUR".to_string();
    m.insert("Euro Cash".to_string(), eur2);
    m.insert("Cash".to_string(), account(false, 6, 7));
    m
}

fn party_currencies() -> BTreeMap<String, BTreeMap<String, String>> {
    let mut customers = BTreeMap::new();
    customers.insert("Globex".to_string(), "GBP".to_string());
    let mut employees = BTreeMap::new();
    employees.insert("Ann".to_string(), "JPY".to_string());
    let mut m = BTreeMap::new();
    m.insert("Customer".to_string(), customers);
    m.insert("Employee".to_string(), employees);
    m
}

fn party_entry(party_type: &str, party: &str, currency: Option<&str>) -> PartyCurrencyEntry {
    PartyCurrencyEntry {
        party_type: Some(party_type.to_string()),
        party: Some(party.to_string()),
        account_currency: currency.map(|c| c.to_string()),
    }
}

#[test]
fn account_currency_from_accounts_sharing_one() {
    let mut f = filters();
    f.account = vec!["Euro Bank".to_string(), "Euro Cash".to_string()];
    let g = set_account_currency(f, "USD", &currency_accounts(), &[], &party_currencies()).unwrap();
    assert_eq!(g.company_currency.as_deref(), Some("USD"));
    assert_eq!(g.account_currency.as_deref(), Some("EUR"));
    assert_eq!(g.presentation_currency.as_deref(), Some("EUR"));

    let mut f = filters();
    f.account = vec!["Euro Bank".to_string(), "Cash".to_string()];
    f.presentation_currency = Some("CHF".to_string());
    let g = set_account_currency(f, "USD", &currency_accounts(), &[], &party_currencies()).unwrap();
    assert_eq!(g.account_currency.as_deref(), Some("USD"));
    assert_eq!(g.presentation_currency.as_deref(), Some("CHF"));
}

#[test]
fn account_currency_from_the_party() {
    let entries = vec![party_entry("Customer", "Globex", None), party_entry("Customer", "Initech", Some("CAD"))];
    let mut f = filters();
    f.party_type = Some("Customer".to_string());
    f.party = vec!["Initech".to_string()];
    let g = set_account_currency(f, "USD", &currency_accounts(), &entries, &party_currencies()).unwrap();
    assert_eq!(g.account_currency.as_deref(), Some("CAD"));

    let mut f = filters();
    f.party_type = Some("Customer".to_string());
    f.party = vec!["Globex".to_string()];
    let g = set_account_currency(f, "USD", &currency_accounts(), &entries, &party_currencies()).unwrap();
    assert_eq!(g.account_currency.as_deref(), Some("GBP"));
    assert_eq!(g.presentation_currency.as_deref(), Some("GBP"));

    let mut f = filters();
    f.party_type = Some("Employee".to_string());
    f.party = vec!["Ann".to_string()];
    let g = set_account_currency(f, "USD", &currency_accounts(), &[], &party_currencies()).unwrap();
    assert_eq!(g.account_currency.as_deref(), Some("USD"));
    assert_eq!(g.presentation_currency, None);
}

#[test]
fn account_currency_left_alone_without_accounts_or_one_party() {
    let mut f = filters();
    f.party_type = Some("Customer".to_string());
    f.party = vec!["Globex".to_string(), "Initech".to_string()];
    let g = set_account_currency(f, "USD", &currency_accounts(), &[], &party_currencies()).unwrap();
    assert_eq!(g.company_currency, None);
    assert_eq!(g.account_currency, None);
    assert_eq!(g.presentation_currency, None);
}

#[test]
fn entries_count_in_opening_period_or_nowhere() {
    let f = filters();
    let d = |s: &str| Some(s.to_string());
    assert_eq!(entry_period(&d("2023-12-31"), "No", &f), GlEntryPeriod::Opening);
    assert_eq!(entry_period(&None, "No", &f), GlEntryPeriod::Opening);
    assert_eq!(entry_period(&d("2024-01-01"), "No", &f), GlEntryPeriod::InPeriod);
    assert_eq!(entry_period(&d("2024-12-31"), "No", &f), GlEntryPeriod::InPeriod);
    assert_eq!(entry_period(&d("2025-01-01"), "No", &f), GlEntryPeriod::Outside);
    assert_eq!(entry_period(&d("2024-06-01"), "Yes", &f), GlEntryPeriod::Opening);
    let mut shown = filters();
    shown.show_opening_entries = true;
    assert_eq!(entry_period(&d("2025-06-01"), "Yes", &shown), GlEntryPeriod::InPeriod);
    let mut kept = filters();
    kept.disable_opening_balance_calculation = true;
    assert_eq!(entry_period(&d("2025-06-01"), "Yes", &kept), GlEntryPeriod::Outside);
}

#[test]
fn groups_in_order_of_first_entry() {
    let values: Vec<String> = ["b", "a", "b", "", "a", "c"].iter().map(|s| s.to_string()).collect();
    assert_eq!(gle_group_order(&values), vec!["b", "a", "", "c"]);
}

#[test]
fn consolidated_key_joins_six_fields() {
    let mut e = entry("2024-02-01", "Cash", "c1");
    e.voucher_no = Some("JV-1".to_string());
    e.party = Some("Globex".to_string());
    assert_eq!(consolidated_key(&e), "2024-02-01|Journal Entry|JV-1|Cash||Globex");
}
