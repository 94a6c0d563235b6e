use std::collections::BTreeMap;
use tokio_erp::erpnext::accounts::report::financial_statements::{
    get_columns, get_filtered_list_for_consolidated_report, get_fiscal_year_data, get_label, get_months,
    get_period_list, validate_dates, validate_fiscal_year, FiscalYearData, Period, counts_as_opening, entry_periods,
    filter_accounts, filter_out_zero_value_rows, parent_children_map, AccountNodeKeys,
};

fn fiscal_years() -> BTreeMap<String, FiscalYearData> {
    let mut years = BTreeMap::new();
    years.insert(
        "FY2023".to_string(),
        FiscalYearData { year_start_date: "2023-01-01".to_string(), year_end_date: "2023-12-31".to_string() },
    );
    years.insert(
        "FY2024".to_string(),
        FiscalYearData { year_start_date: "2024-01-01".to_string(), year_end_date: "2024-12-31".to_string() },
    );
    years
}

fn summary(periods: &[Period]) -> Vec<(String, String, String, String)> {
    periods
        .iter()
        .map(|p| (p.key.clone(), p.label.clone(), p.from_date.clone(), p.to_date.clone()))
        .collect()
}

fn row(key: &str, label: &str, from: &str, to: &str) -> (String, String, String, String) {
    (key.to_string(), label.to_string(), from.to_string(), to.to_string())
}

#[test]
fn quarterly_periods_of_a_fiscal_year() {
    let periods = get_period_list(
        "FY2024", "FY2024", None, None, "Fiscal Year", "Quarterly", false, false, false, false, &fiscal_years(),
    )
    .unwrap();
    assert_eq!(
        summary(&periods),
        vec![
            row("mar_2024", "Jan 24-Mar 24", "2024-01-01", "2024-03-31"),
            row("jun_2024", "Apr 24-Jun 24", "2024-04-01", "2024-06-30"),
            row("sep_2024", "Jul 24-Sep 24", "2024-07-01", "2024-09-30"),
            row("dec_2024", "Oct 24-Dec 24", "2024-10-01", "2024-12-31"),
        ]
    );
    assert_eq!(periods[0].year_start_date, "2024-01-01");
    assert_eq!(periods[0].year_end_date, "2024-12-31");
    assert_eq!(periods[0].to_date_fiscal_year.as_deref(), Some("FY2024"));
    assert_eq!(periods[2].from_date_fiscal_year_start_date.as_deref(), Some("2024-01-01"));
}

#[test]
fn monthly_date_range_periods_run_to_the_last_date() {
    let periods = get_period_list(
        "", "", Some("2024-01-15"), Some("2024-05-10"), "Date Range", "Monthly", false, false, true, false,
        &BTreeMap::new(),
    )
    .unwrap();
    assert_eq!(
        summary(&periods),
        vec![
            row("jan_2024", "Jan 2024", "2024-01-15", "2024-01-31"),
            row("feb_2024", "Feb 2024", "2024-02-01", "2024-02-29"),
            row("mar_2024", "Mar 2024", "2024-03-01", "2024-03-31"),
            row("apr_2024", "Apr 2024", "2024-04-01", "2024-04-30"),
            row("may_2024", "May 2024", "2024-05-01", "2024-05-10"),
        ]
    );
    assert_eq!(periods[0].to_date_fiscal_year, None);
    assert_eq!(periods[0].from_date_fiscal_year_start_date, None);
}

#[test]
fn accumulated_yearly_labels_span_from_the_first_period() {
    let periods = get_period_list(
        "FY2023", "FY2024", None, None, "Fiscal Year", "Yearly", true, false, false, false, &fiscal_years(),
    )
    .unwrap();
    assert_eq!(
        summary(&periods),
        vec![
            row("dec_2023", "2023", "2023-01-01", "2023-12-31"),
            row("dec_2024", "2023-2024", "2024-01-01", "2024-12-31"),
        ]
    );
}

#[test]
fn period_list_errors() {
    let years = fiscal_years();
    assert_eq!(
        get_period_list("FY2020", "FY2024", None, None, "Fiscal Year", "Yearly", false, false, false, false, &years)
            .unwrap_err(),
        "Start Year and End Year are mandatory"
    );
    assert_eq!(
        get_period_list("", "", Some("2024-01-01"), None, "Date Range", "Yearly", false, false, false, false, &years)
            .unwrap_err(),
        "From Date and To Date are mandatory"
    );
    assert_eq!(
        get_period_list("FY2024", "FY2024", None, None, "Fiscal Year", "Weekly", false, false, false, false, &years)
            .unwrap_err(),
        "Unsupported periodicity Weekly"
    );
    assert_eq!(
        get_period_list("FY2024", "FY2023", None, None, "Fiscal Year", "Yearly", false, false, false, false, &years)
            .unwrap_err(),
        "End Year cannot be before Start Year"
    );
}

#[test]
fn fiscal_year_data_joins_two_years() {
    let fy = get_fiscal_year_data("FY2023", "FY2024", &fiscal_years()).unwrap();
    assert_eq!(fy.year_start_date, "2023-01-01");
    assert_eq!(fy.year_end_date, "2024-12-31");
    assert!(get_fiscal_year_data("FY2023", "FY1999", &fiscal_years()).is_err());
    assert!(validate_fiscal_year(&fy).is_ok());
    let empty = FiscalYearData { year_start_date: String::new(), year_end_date: "2024-12-31".to_string() };
    assert_eq!(validate_fiscal_year(&empty).unwrap_err(), "Start Year and End Year are mandatory");
}

#[test]
fn dates_are_checked_in_order() {
    assert!(validate_dates("2024-01-01", "2024-01-31").is_ok());
    assert_eq!(validate_dates("", "2024-01-31").unwrap_err(), "From Date and To Date are mandatory");
    assert_eq!(validate_dates("2024-02-01", "2024-01-31").unwrap_err(), "To Date cannot be less than From Date");
}

#[test]
fn months_and_labels() {
    assert_eq!(get_months("2024-01-15", "2024-03-01"), Ok(3));
    assert_eq!(get_months("2023-11-01", "2024-02-29"), Ok(4));
    assert_eq!(get_label("Yearly", "2024-01-01", "2024-12-31").unwrap(), "2024");
    assert_eq!(get_label("Yearly", "2023-04-01", "2024-03-31").unwrap(), "2023-2024");
    assert_eq!(get_label("Quarterly", "2023-11-01", "2024-01-31").unwrap(), "Nov 23-Jan 24");
    assert!(get_label("Monthly", "2024-13", "2024-01-01").is_err());
}

#[test]
fn statement_columns() {
    let periods = get_period_list(
        "FY2024", "FY2024", None, None, "Fiscal Year", "Half-Yearly", false, false, false, false, &fiscal_years(),
    )
    .unwrap();
    let columns = get_columns("Half-Yearly", &periods, false, Some("Acme"), false);
    let names: Vec<(&str, &str, &str)> =
        columns.iter().map(|c| (c.fieldname.as_str(), c.label.as_str(), c.fieldtype)).collect();
    assert_eq!(
        names,
        vec![
            ("account", "Account", "Link"),
            ("acc_name", "Account Name", "Data"),
            ("acc_number", "Account Number", "Data"),
            ("currency", "Currency", "Link"),
            ("jun_2024", "Jan 24-Jun 24", "Currency"),
            ("dec_2024", "Jul 24-Dec 24", "Currency"),
            ("total", "Total", "Currency"),
        ]
    );
    assert!(columns[1].hidden);
    let cash = get_columns("Yearly", &periods, true, None, true);
    assert_eq!(cash.len(), 3);
    assert_eq!(cash[0].fieldname, "section");
}

#[test]
fn consolidated_filter_keeps_the_company_period() {
    let mut filters = BTreeMap::new();
    filters.insert("company".to_string(), "Acme".to_string());
    let list = vec!["Acme".to_string(), "Other".to_string(), "Acme".to_string()];
    assert_eq!(get_filtered_list_for_consolidated_report(&filters, &list), vec!["Acme", "Acme"]);
    assert!(get_filtered_list_for_consolidated_report(&BTreeMap::new(), &list).is_empty());
}

#[test]
fn entries_count_toward_periods_up_to_their_end() {
    let periods = get_period_list(
        "FY2023", "FY2024", None, None, "Fiscal Year", "Half-Yearly", false, false, false, false, &fiscal_years(),
    )
    .unwrap();
    assert_eq!(entry_periods("2023-08-15", "FY2023", &periods, false, false), vec![1]);
    assert_eq!(entry_periods("2023-08-15", "FY2023", &periods, true, false), vec![1, 2, 3]);
    assert_eq!(entry_periods("2023-08-15", "FY2023", &periods, true, true), vec![1]);
    assert_eq!(entry_periods("2025-01-01", "FY2025", &periods, true, false), Vec::<usize>::new());
    assert!(counts_as_opening("2022-12-31", &periods));
    assert!(!counts_as_opening("2023-01-01", &periods));
    assert!(!counts_as_opening("2022-12-31", &[]));
}

fn node(name: &str, parent: Option<&str>, lft: i32, root_type: &str, report_type: &str) -> AccountNodeKeys {
    AccountNodeKeys {
        name: name.to_string(),
        parent_account: parent.map(|p| p.to_string()),
        lft,
        root_type: root_type.to_string(),
        report_type: report_type.to_string(),
    }
}

#[test]
fn filter_accounts_orders_roots_children_and_depths() {
    let accounts = vec![
        node("Income", None, 10, "Income", "Profit and Loss"),
        node("Assets", None, 1, "Asset", "Balance Sheet"),
        node("Cash", Some("Assets"), 2, "Asset", "Balance Sheet"),
        node("Bank", Some("Assets"), 3, "Asset", "Balance Sheet"),
        node("Sales", Some("Income"), 11, "Income", "Profit and Loss"),
        node("Bank", Some("Assets"), 5, "Asset", "Balance Sheet"),
        node("Orphan", Some("Missing"), 20, "Asset", "Balance Sheet"),
        node("Liabilities", None, 30, "Liability", "Balance Sheet"),
    ];
    let listing = filter_accounts(&accounts);
    assert_eq!(listing, vec![(1, 0), (5, 1), (2, 1), (7, 0), (0, 0), (4, 1)]);
}

#[test]
fn filter_accounts_nested_depths_and_empty() {
    assert_eq!(filter_accounts(&[]), Vec::<(usize, i32)>::new());
    let accounts = vec![
        node("C", Some("B"), 3, "Expense", "Profit and Loss"),
        node("B", Some("A"), 2, "Expense", "Profit and Loss"),
        node("A", None, 1, "Expense", "Profit and Loss"),
    ];
    assert_eq!(filter_accounts(&accounts), vec![(2, 0), (1, 1), (0, 2)]);
}

fn value_row(account: Option<&str>, has_value: bool) -> (Option<String>, bool) {
    (account.map(|a| a.to_string()), has_value)
}

fn children(parent: Option<&str>, kids: &[&str]) -> (Option<String>, Vec<String>) {
    (parent.map(|p| p.to_string()), kids.iter().map(|k| k.to_string()).collect())
}

#[test]
fn zero_value_rows_are_dropped_but_ancestors_kept() {
    let rows = vec![
        value_row(Some("Assets"), false),
        value_row(Some("Current"), false),
        value_row(Some("Cash"), true),
        value_row(Some("Fixed"), false),
        value_row(None, true),
        value_row(Some("Income"), false),
    ];
    let links = vec![
        children(None, &["Assets", "Income"]),
        children(Some("Assets"), &["Current", "Fixed"]),
        children(Some("Current"), &["Cash"]),
    ];
    assert_eq!(filter_out_zero_value_rows(&rows, &links, false), vec![0, 1, 2]);
    assert_eq!(filter_out_zero_value_rows(&rows, &links, true), vec![0, 1, 2, 3, 5]);
    assert_eq!(filter_out_zero_value_rows(&rows, &[], false), vec![2]);
}

#[test]
fn parent_children_map_by_parent_then_name() {
    let accounts = vec![
        node("Income", None, 10, "Income", "Profit and Loss"),
        node("Assets", None, 1, "Asset", "Balance Sheet"),
        node("Cash", Some("Assets"), 2, "Asset", "Balance Sheet"),
        node("Bank", Some("Assets"), 3, "Asset", "Balance Sheet"),
        node("Sales", Some("Income"), 11, "Income", "Profit and Loss"),
        node("Orphan", Some("Missing"), 20, "Asset", "Balance Sheet"),
    ];
    let s = |x: &str| x.to_string();
    assert_eq!(
        parent_children_map(&accounts),
        vec![
            (None, vec![s("Assets"), s("Income")]),
            (Some(s("Assets")), vec![s("Bank"), s("Cash")]),
            (Some(s("Income")), vec![s("Sales")]),
            (Some(s("Missing")), vec![s("Orphan")]),
        ]
    );
}

#[test]
fn unsupported_periodicity_is_refused_for_any_dates() {
    let r = get_period_list(
        "", "", Some("2000000000-01-01"), Some("2100000000-12-31"), "Date Range", "Weekly", false, false, true, false,
        &BTreeMap::new(),
    );
    assert_eq!(r.unwrap_err(), "Unsupported periodicity Weekly");
}
