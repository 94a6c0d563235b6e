use tokio_erp::erpnext::accounts::report::balance_sheet::balance_sheet::{
    summary_periods, BalanceSheetFilters, BalanceSheetPeriod,
};
use std::collections::BTreeMap;
use tokio_erp::erpnext::accounts::report::budget_variance_report::budget_variance_report::{
    fiscal_years_fit_check, get_columns as budget_columns, BudgetVarianceFilters, FiscalYear,
};
use tokio_erp::erpnext::accounts::report::calculated_discount_mismatch::calculated_discount_mismatch::{
    find_mismatches, parse_discount_change, select_mismatches, DiscountTransactionKey, VersionRecord,
};
use tokio_erp::erpnext::accounts::report::consolidated_financial_statement::consolidated_financial_statement::{
    get_companies, get_subsidiary_companies, CompanyNode, ConsolidatedFilters,
};
use tokio_erp::erpnext::accounts::report::gross_profit::gross_profit::{
    get_columns as gross_columns, get_group_wise_columns, GrossProfitFilters, MasterNameSettings,
};
use tokio_erp::erpnext::accounts::report::item_wise_sales_register::item_wise_sales_register::{
    get_display_value as sales_display_value, group_by_field as sales_group_field, string_for_group as sales_group_value,
    item_matches, select_items, ItemWiseSalesFilters, SalesItemKeys,
};

fn node(name: &str, lft: i32, rgt: i32) -> CompanyNode {
    CompanyNode { name: name.to_string(), parent_company: None, lft, rgt, default_currency: "USD".to_string() }
}

fn tree() -> Vec<CompanyNode> {
    vec![node("Branch B", 4, 5), node("Group", 1, 8), node("Branch A", 2, 3), node("Branch C", 6, 7)]
}

fn consolidated_filters(company: &str) -> ConsolidatedFilters {
    ConsolidatedFilters {
        company: company.to_string(),
        report: "Balance Sheet".to_string(),
        from_fiscal_year: "FY2024".to_string(),
        to_fiscal_year: "FY2024".to_string(),
        filter_based_on: "Fiscal Year".to_string(),
        period_start_date: None,
        period_end_date: None,
        presentation_currency: None,
        accumulated_in_group_company: false,
        show_zero_values: false,
    }
}

#[test]
fn subsidiaries_in_tree_order() {
    assert_eq!(get_subsidiary_companies("Group", &tree()).unwrap(), vec!["Group", "Branch A", "Branch B", "Branch C"]);
    assert_eq!(get_subsidiary_companies("Branch B", &tree()).unwrap(), vec!["Branch B"]);
    assert_eq!(get_subsidiary_companies("Nowhere", &tree()).unwrap_err(), "Company Nowhere not found");
}

#[test]
fn companies_map_each_to_its_subsidiaries() {
    let (all, map) = get_companies(&consolidated_filters("Group"), &tree()).unwrap();
    assert_eq!(all, vec!["Group", "Branch A", "Branch B", "Branch C"]);
    assert_eq!(map.len(), 4);
    assert_eq!(map["Group"], all);
    assert_eq!(map["Branch A"], vec!["Branch A"]);
    assert_eq!(map["Branch C"], vec!["Branch C"]);
    assert_eq!(get_companies(&consolidated_filters("Nowhere"), &tree()).unwrap_err(), "Company Nowhere not found");
}

#[test]
fn discount_changes_are_read_from_version_data() {
    let data = r#"{"changed": [["rate", "1", "2"], ["discount_amount", "10", "12.5"]]}"#;
    assert_eq!(parse_discount_change(data), Some(("10".to_string(), "12.5".to_string())));
    assert_eq!(parse_discount_change(r#"{"changed": [["rate", "1", "2"]]}"#), None);
    assert_eq!(parse_discount_change(r#"{"changed": [["discount_amount", 10, "12"]]}"#), None);
    assert_eq!(parse_discount_change("not json"), None);
    assert_eq!(parse_discount_change(r#"{"added": []}"#), None);
}

fn gross_filters(group_by: &str) -> GrossProfitFilters {
    GrossProfitFilters {
        company: "Acme".to_string(),
        from_date: "2024-01-01".to_string(),
        to_date: "2024-12-31".to_string(),
        group_by: group_by.to_string(),
        currency: "USD".to_string(),
        currency_precision: 2,
        float_precision: 3,
        include_returned_invoices: true,
        item_group: None,
        sales_person: None,
        sales_invoice: None,
        item_code: None,
        cost_center: Vec::new(),
        project: Vec::new(),
        warehouse: None,
        accounting_dimensions: Vec::new(),
    }
}

#[test]
fn gross_profit_columns_per_grouping() {
    let settings = MasterNameSettings {
        supplier_master_name: "Naming Series".to_string(),
        customer_master_name: "Naming Series".to_string(),
    };
    let columns = gross_columns(&gross_filters("Item Code"), &settings);
    let names: Vec<&str> = columns.iter().map(|c| c.fieldname).collect();
    assert_eq!(names.first(), Some(&"item_code"));
    assert_eq!(names.last(), Some(&"currency"));
    assert!(columns.last().unwrap().hidden);
    let groups = get_group_wise_columns();
    let item_code_keys = &groups["item_code"];
    assert_eq!(groups.len(), 13);
    assert_eq!(groups.keys().next().map(|k| k.as_str()), Some("brand"));
    assert_eq!(groups["cost_center"], vec!["cost_center", "base_amount", "buying_amount", "gross_profit", "gross_profit_percent"]);
    assert_eq!(columns.len(), item_code_keys.len() + 1);
    let unknown = gross_columns(&gross_filters("Nothing Like This"), &settings);
    assert_eq!(unknown.len(), 1);
}

fn budget_filters(period: &str) -> BudgetVarianceFilters {
    BudgetVarianceFilters {
        company: "Acme".to_string(),
        budget_against: "Cost Center".to_string(),
        from_fiscal_year: "FY2024".to_string(),
        to_fiscal_year: "FY2024".to_string(),
        period: period.to_string(),
        show_cumulative: false,
        budget_against_filter: None,
    }
}

#[test]
fn budget_columns_per_period() {
    let years = vec![FiscalYear {
        name: "FY2024".to_string(),
        year_start_date: "2024-01-01".to_string(),
        year_end_date: "2024-12-31".to_string(),
    }];
    let yearly = budget_columns(&budget_filters("Yearly"), &years);
    let names: Vec<&str> = yearly.iter().map(|c| c.fieldname.as_str()).collect();
    assert_eq!(names, vec!["budget_against", "account", "budget_fy2024", "actual_fy2024", "variance_fy2024"]);
    let quarterly = budget_columns(&budget_filters("Quarterly"), &years);
    assert_eq!(quarterly.len(), 2 + 4 * 3 + 3);
    assert_eq!(quarterly[2].label, "Budget (Jan-Mar) FY2024");
    assert_eq!(quarterly[2].fieldname, "budget_jan_mar_fy2024");
    assert_eq!(quarterly[13].label, "Variance (Oct-Dec) FY2024");
    assert_eq!(quarterly[16].fieldname, "total_variance");
    let monthly = budget_columns(&budget_filters("Monthly"), &years);
    assert_eq!(monthly[5].label, "Budget (Feb) FY2024");
}

#[test]
fn budget_columns_for_split_fiscal_year() {
    let mut f = budget_filters("Yearly");
    f.company = "C".to_string();
    f.from_fiscal_year = "2024-2025".to_string();
    f.to_fiscal_year = "2024-2025".to_string();
    let years = vec![FiscalYear {
        name: "2024-2025".to_string(),
        year_start_date: "2024-04-01".to_string(),
        year_end_date: "2025-03-31".to_string(),
    }];
    assert!(fiscal_years_fit_check(&f, &years));
    let r = budget_columns(&f, &years);
    let names: Vec<&str> = r.iter().map(|c| c.fieldname.as_str()).collect();
    assert_eq!(names, vec!["budget_against", "account", "budget_2024_2025", "actual_2024_2025", "variance_2024_2025"]);
    assert_eq!(r[0].label, "Cost Center");
    assert!(r[2..].iter().all(|c| c.fieldtype == "Float" && c.width == 150));
    let far = vec![FiscalYear {
        name: "far".to_string(),
        year_start_date: "2147483647-01-01".to_string(),
        year_end_date: "2147483647-12-31".to_string(),
    }];
    assert!(!fiscal_years_fit_check(&f, &far));
}

fn sales_item() -> SalesItemKeys {
    SalesItemKeys {
        docstatus: 1,
        parenttype: "Sales Invoice".to_string(),
        parent: "SINV-1".to_string(),
        company: "Acme".to_string(),
        customer: "Cust".to_string(),
        customer_group: "Retail".to_string(),
        territory: "North".to_string(),
        posting_date: "2024-05-01".to_string(),
        warehouse: Some("Main".to_string()),
        brand: None,
        item_code: "ITEM-1".to_string(),
        si_item_group: None,
        i_item_group: Some("Goods".to_string()),
        income_account: Some("Sales".to_string()),
        deferred_revenue_account: None,
        unrealized_profit_loss_account: None,
    }
}

fn no_sales_filters() -> ItemWiseSalesFilters {
    ItemWiseSalesFilters {
        company: None,
        customer: None,
        customer_group: None,
        mode_of_payment: None,
        from_date: None,
        to_date: None,
        warehouse: None,
        brand: None,
        item_code: None,
        item_group: None,
        income_account: None,
        group_by: None,
    }
}

#[test]
fn sales_items_meet_the_filters() {
    let row = sales_item();
    assert!(item_matches(&no_sales_filters(), &row, None));
    let mut f = no_sales_filters();
    f.from_date = Some("2024-05-01".to_string());
    f.to_date = Some("2024-05-31".to_string());
    f.item_group = Some("Goods".to_string());
    assert!(item_matches(&f, &row, None));
    f.brand = Some("Any".to_string());
    assert!(!item_matches(&f, &row, None));
    let mut f = no_sales_filters();
    f.mode_of_payment = Some("Cash".to_string());
    assert!(!item_matches(&f, &row, None));
    assert!(item_matches(&f, &row, Some(&vec!["Card".to_string(), "Cash".to_string()])));
    let mut draft = sales_item();
    draft.docstatus = 0;
    assert!(!item_matches(&no_sales_filters(), &draft, None));
    let mut late = no_sales_filters();
    late.to_date = Some("2024-04-30".to_string());
    assert!(!item_matches(&late, &row, None));
}

fn dated(parent: &str, date: &str, group: Option<&str>, code: &str) -> SalesItemKeys {
    SalesItemKeys {
        parent: parent.to_string(),
        posting_date: date.to_string(),
        si_item_group: group.map(|g| g.to_string()),
        item_code: code.to_string(),
        ..sales_item()
    }
}

#[test]
fn selected_items_come_in_report_order() {
    let rows = vec![
        dated("A", "2024-01-02", Some("X"), "I-3"),
        dated("B", "2024-01-03", None, "I-1"),
        dated("C", "2024-01-02", Some("Y"), "I-2"),
        dated("D", "2024-01-01", Some("X"), "I-1"),
    ];
    let mut modes = BTreeMap::new();
    modes.insert("B".to_string(), vec!["Cash".to_string()]);
    assert_eq!(select_items(&no_sales_filters(), &rows, &modes), vec![1, 2, 0, 3]);
    let mut by_item = no_sales_filters();
    by_item.group_by = Some("Item".to_string());
    assert_eq!(select_items(&by_item, &rows, &modes), vec![1, 3, 2, 0]);
    let mut by_other = no_sales_filters();
    by_other.group_by = Some("Something".to_string());
    assert_eq!(select_items(&by_other, &rows, &modes), vec![0, 1, 2, 3]);
    let mut cash = no_sales_filters();
    cash.mode_of_payment = Some("Cash".to_string());
    assert_eq!(select_items(&cash, &rows, &modes), vec![1]);
}

fn tx(doctype: &str, name: &str, amount: &str) -> DiscountTransactionKey {
    DiscountTransactionKey { doctype: doctype.to_string(), name: name.to_string(), formatted_discount_amount: amount.to_string() }
}

#[test]
fn discount_mismatches_follow_the_first_change() {
    let txs = vec![tx("Sales Invoice", "SI-1", "12.5"), tx("Sales Order", "SO-1", "5")];
    let versions = vec![
        VersionRecord::new("Sales Invoice", "SI-1", r#"{"changed": [["rate", "1", "2"]]}"#),
        VersionRecord::new("Quotation", "Q-1", r#"{"changed": [["discount_amount", "1", "2"]]}"#),
        VersionRecord::new("Sales Invoice", "SI-1", r#"{"changed": [["discount_amount", "10", "12.5"]]}"#),
        VersionRecord::new("Sales Order", "SO-1", r#"{"changed": [["additional_discount_percentage", "1", "2"]]}"#),
        VersionRecord::new("Sales Order", "SO-1", r#"{"changed": [["discount_amount", "4", "5"]]}"#),
    ];
    let found = find_mismatches(&txs, &versions);
    assert_eq!(found.len(), 1);
    assert_eq!(found[0].transaction, 0);
    assert_eq!(found[0].actual_discount_amount, "12.5");
    assert_eq!(found[0].suspected_discount_amount, "10");
    let changes = vec![None, None, Some(("3".to_string(), "7".to_string())), None, Some(("4".to_string(), "5".to_string()))];
    let picked = select_mismatches(&txs, &versions, &changes);
    assert_eq!(picked.len(), 0);
    let changes = vec![Some(("9".to_string(), "12.5".to_string())), None, None, None, None];
    let picked = select_mismatches(&txs, &versions, &changes);
    assert_eq!(picked.len(), 1);
    assert_eq!(picked[0].suspected_discount_amount, "9");
}

fn balance_filters(company: &str, accumulated_values: bool, in_group: bool) -> BalanceSheetFilters {
    BalanceSheetFilters {
        company: company.to_string(),
        presentation_currency: None,
        accumulated_values,
        selected_view: None,
        accumulated_in_group_company: in_group,
        report_template: false,
    }
}

#[test]
fn balance_sheet_summary_periods() {
    let periods = vec![
        BalanceSheetPeriod::new("jan", "Jan"),
        BalanceSheetPeriod::new("Acme", "Feb"),
        BalanceSheetPeriod::new("mar", "Acme"),
    ];
    assert_eq!(summary_periods(&periods, &balance_filters("Acme", false, false)), vec![0, 1, 2]);
    assert_eq!(summary_periods(&periods, &balance_filters("Acme", true, false)), vec![2]);
    assert_eq!(summary_periods(&periods, &balance_filters("Acme", false, true)), vec![1, 2]);
    assert_eq!(summary_periods(&periods[..2], &balance_filters("Acme", true, true)), vec![1]);
    assert_eq!(summary_periods(&periods[..1], &balance_filters("Acme", true, true)), Vec::<usize>::new());
    assert_eq!(summary_periods(&[], &balance_filters("Acme", true, false)), Vec::<usize>::new());
}

#[test]
fn sales_grouping_values_and_labels() {
    let row = sales_item();
    assert_eq!(sales_group_field("Customer Group"), "customer_group");
    assert_eq!(sales_group_field("Supplier"), "");
    assert_eq!(sales_group_value(&row, "customer_group"), "Retail");
    assert_eq!(sales_group_value(&row, "item_group"), "");
    assert_eq!(sales_display_value("Item", "item_code", &row, "Widget", "Customer"), "ITEM-1: Widget");
    assert_eq!(sales_display_value("Customer", "customer", &row, "Widget", "Cust"), "Cust");
    assert_eq!(sales_display_value("Territory", "territory", &row, "Widget", "Cust"), "North");
}
