use tokio_erp::erpnext::accounts::report::consolidated_financial_statement::consolidated_financial_statement::{
    account_key, filter_accounts, get_root_account_name, update_parent_account_names, ConsolidatedAccountKeys,
};

fn account(name: &str, number: Option<&str>, account_name: &str, parent: Option<&str>, root_type: &str) -> ConsolidatedAccountKeys {
    ConsolidatedAccountKeys {
        name: name.to_string(),
        company: "Acme".to_string(),
        parent_account: parent.map(|p| p.to_string()),
        root_type: root_type.to_string(),
        report_type: if root_type == "Income" || root_type == "Expense" {
            "Profit and Loss".to_string()
        } else {
            "Balance Sheet".to_string()
        },
        account_name: account_name.to_string(),
        account_number: number.map(|n| n.to_string()),
        is_group: parent.is_none(),
        account_key: String::new(),
        parent_account_name: None,
    }
}

#[test]
fn account_key_joins_number_and_name() {
    assert_eq!(account_key(&account("a", Some("1000"), "Cash", None, "Asset")), "1000 - Cash");
    assert_eq!(account_key(&account("a", None, "Cash", None, "Asset")), "Cash");
}

#[test]
fn parent_keys_are_looked_up_by_parent_name() {
    let mut stale = account("Assets - A", Some("1000"), "Assets", None, "Asset");
    stale.parent_account_name = Some("stale".to_string());
    let mut accounts = vec![
        stale,
        account("Cash - A", None, "Cash", Some("Assets - A"), "Asset"),
        account("Lost - A", None, "Lost", Some("Missing - A"), "Asset"),
        account("Dup - A", Some("1"), "First", None, "Asset"),
        account("Dup - A", Some("2"), "Second", None, "Asset"),
        account("Child - A", None, "Child", Some("Dup - A"), "Asset"),
    ];
    update_parent_account_names(&mut accounts);
    let keys: Vec<&str> = accounts.iter().map(|a| a.account_key.as_str()).collect();
    assert_eq!(keys, vec!["1000 - Assets", "Cash", "Lost", "1 - First", "2 - Second", "Child"]);
    let parents: Vec<Option<&str>> = accounts.iter().map(|a| a.parent_account_name.as_deref()).collect();
    assert_eq!(parents, vec![Some("stale"), Some("1000 - Assets"), None, None, None, Some("2 - Second")]);
}

#[test]
fn consolidated_listing_keeps_first_of_each_key() {
    let mut accounts = vec![
        account("Income - A", None, "Income", None, "Income"),
        account("Assets - A", None, "Assets", None, "Asset"),
        account("Bank - A", None, "Bank", Some("Assets - A"), "Asset"),
        account("Bank - B", None, "Bank", Some("Assets - A"), "Asset"),
        account("Cash - A", None, "Cash", Some("Assets - A"), "Asset"),
        account("Sales - A", None, "Sales", Some("Income - A"), "Income"),
    ];
    update_parent_account_names(&mut accounts);
    assert_eq!(filter_accounts(&accounts), vec![(1, 0), (2, 1), (4, 1), (0, 0), (5, 1)]);
}

#[test]
fn root_account_name_is_first_matching_root_group() {
    let accounts = vec![
        account("Cash - A", None, "Cash", Some("Assets - A"), "Asset"),
        account("Assets - A", None, "Application of Funds", None, "Asset"),
        account("Other - A", None, "Other Assets", None, "Asset"),
    ];
    assert_eq!(get_root_account_name("Asset", "Acme", &accounts), Some("Application of Funds".to_string()));
    assert_eq!(get_root_account_name("Asset", "Other Co", &accounts), None);
    assert_eq!(get_root_account_name("Liability", "Acme", &accounts), None);
}
