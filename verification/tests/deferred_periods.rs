use tokio_erp::erpnext::accounts::report::deferred_revenue_and_expense::deferred_revenue_and_expense::{
    future_periods, Period,
};

fn summary(periods: &[Period]) -> Vec<(String, String, String, String)> {
    periods
        .iter()
        .map(|p| (p.key.clone(), p.label.clone(), p.from_date.clone(), p.to_date.clone()))
        .collect()
}

fn row(key: &str, label: &str, from: &str, to: &str) -> (String, String, String, String) {
    (key.to_string(), label.to_string(), from.to_string(), to.to_string())
}

#[test]
fn future_periods_run_month_by_month_to_the_service_end() {
    let periods = future_periods("2024-01-01", "2024-03-31", "2024-01-15").unwrap();
    assert_eq!(
        summary(&periods),
        vec![
            row("2024_01", "Jan 2024", "2024-01-16", "2024-01-31"),
            row("2024_02", "Feb 2024", "2024-02-01", "2024-02-29"),
            row("2024_03", "Mar 2024", "2024-03-01", "2024-03-31"),
        ]
    );
}

#[test]
fn future_periods_cross_the_year_and_end_mid_month() {
    let periods = future_periods("2023-06-01", "2024-01-10", "2023-11-30").unwrap();
    assert_eq!(
        summary(&periods),
        vec![
            row("2023_12", "Dec 2023", "2023-12-01", "2023-12-31"),
            row("2024_01", "Jan 2024", "2024-01-01", "2024-01-10"),
        ]
    );
}

#[test]
fn no_future_periods_for_one_day_service_or_nothing_left() {
    assert!(future_periods("2024-01-01", "2024-01-01", "2023-12-01").unwrap().is_empty());
    assert!(future_periods("2024-01-01", "2024-03-31", "2024-03-30").unwrap().is_empty());
    assert!(future_periods("2024-01-01", "2024-03-31", "2024-03-31").unwrap().is_empty());
}

#[test]
fn future_periods_name_the_first_unreadable_date() {
    assert_eq!(future_periods("2024-13-01", "x", "y").unwrap_err(), "Invalid date: 2024-13-01");
    assert_eq!(future_periods("2024-01-01", "2023-02-29", "y").unwrap_err(), "Invalid date: 2023-02-29");
    assert_eq!(future_periods("2024-01-01", "2024-02-01", "2024-1").unwrap_err(), "Invalid date: 2024-1");
}
