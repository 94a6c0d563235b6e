use tokio_erp::erpnext::accounts::report::asset_depreciations_and_balances::asset_depreciations_and_balances::{
    assemble_rows, combine_depreciation_rows,
};
use tokio_erp::erpnext::accounts::report::consolidated_trial_balance::consolidated_trial_balance::{
    company_suffix, first_company_reaches_root_check, gle_placement, row_belongs_to_company, CompanyNode, GlePlacement,
};

fn strings(items: &[&str]) -> Vec<String> {
    items.iter().map(|s| s.to_string()).collect()
}

#[test]
fn company_suffixes_are_initials() {
    assert_eq!(company_suffix("Acme Trading  Company"), "ATC");
    assert_eq!(company_suffix("  Solo"), "S");
    assert_eq!(company_suffix(""), "");
}

#[test]
fn rows_belong_by_company_or_suffix() {
    assert!(row_belongs_to_company(&Some("Acme Ltd".to_string()), "Cash - X", "Acme Ltd"));
    assert!(!row_belongs_to_company(&Some("Other".to_string()), "Cash - AL", "Acme Ltd"));
    assert!(row_belongs_to_company(&None, "Cash - AL", "Acme Ltd"));
    assert!(!row_belongs_to_company(&None, "Cash - X", "Acme Ltd"));
}

#[test]
fn consolidated_rows_merge_or_go_under_their_parent() {
    let names = strings(&["Assets", "Cash"]);
    let tb_accounts = strings(&["Assets - B", "Bank - B"]);
    let tb_names = strings(&["Assets", "Bank"]);
    assert_eq!(gle_placement(&names, "Cash", &None, &tb_accounts, &tb_names), GlePlacement::Merge(1));
    assert_eq!(
        gle_placement(&names, "Bank", &Some("Assets - B".to_string()), &tb_accounts, &tb_names),
        GlePlacement::InsertAfter(0)
    );
    assert_eq!(gle_placement(&names, "Bank", &Some("Nowhere".to_string()), &tb_accounts, &tb_names), GlePlacement::Append);
    assert_eq!(gle_placement(&names, "Bank", &None, &tb_accounts, &tb_names), GlePlacement::Append);
}

#[test]
fn company_chains_reach_a_root_unless_they_cycle() {
    let tree = vec![
        CompanyNode::new("Group", None, 1, 6, "USD", None),
        CompanyNode::new("Sub", Some("Group"), 2, 3, "EUR", None),
    ];
    assert!(first_company_reaches_root_check(&strings(&["Sub"]), &tree));
    assert!(first_company_reaches_root_check(&strings(&["Unknown"]), &tree));
    assert!(first_company_reaches_root_check(&[], &tree));
    let cycle = vec![
        CompanyNode::new("A", Some("B"), 1, 2, "USD", None),
        CompanyNode::new("B", Some("A"), 3, 4, "USD", None),
    ];
    assert!(!first_company_reaches_root_check(&strings(&["A"]), &cycle));
}

#[test]
fn opening_depreciation_rows_merge_by_key() {
    let gl = strings(&["Cars", "Tools"]);
    let opening = strings(&["Tools", "Land", "Land", "Cars"]);
    assert_eq!(combine_depreciation_rows(&gl, &opening), vec![1, 2, 2, 0]);
    assert_eq!(combine_depreciation_rows(&[], &strings(&["A", "A"])), vec![0, 0]);
}

#[test]
fn report_rows_take_the_last_row_of_each_key() {
    let values = strings(&["Cars", "Tools", "Land"]);
    let depreciation = strings(&["Tools", "Cars", "Tools"]);
    let adjustments = strings(&["Cars", "Cars"]);
    assert_eq!(
        assemble_rows(&values, &depreciation, &adjustments),
        vec![(0, 1, Some(1)), (1, 2, None)]
    );
}
