use tokio_erp::erpnext::accounts::report::deferred_revenue_and_expense::deferred_revenue_and_expense::{
    add_days, date_diff, day_range_check, first_day, group_entries_by_doc, last_day, SimpleDate,
};
use tokio_erp::erpnext::accounts::report::deferred_revenue_and_expense::deferred_revenue_and_expense::{
    plan_deferred_invoice, DeferredInvoicePlan, DeferredItemPlan, DeferredType, InvoiceEntryKeys,
};

fn entry(item: &str, revenue: bool, expense: bool) -> InvoiceEntryKeys {
    InvoiceEntryKeys {
        item: item.to_string(),
        deferred_revenue_account: if revenue { Some("Deferred Revenue".to_string()) } else { None },
        deferred_expense_account: if expense { Some("Deferred Expense".to_string()) } else { None },
    }
}

#[test]
fn an_invoice_needs_an_entry() {
    assert_eq!(plan_deferred_invoice(&[]), Err("Deferred invoice requires at least one item.".to_string()));
}

#[test]
fn an_invoice_needs_a_deferred_account() {
    assert_eq!(plan_deferred_invoice(&[entry("A", false, false)]), Err("Deferred account is required.".to_string()));
    assert_eq!(
        plan_deferred_invoice(&[entry("B", true, false), entry("A", false, false)]),
        Err("Deferred account is required.".to_string())
    );
}

#[test]
fn items_come_in_name_order_with_their_entries() {
    let plan = plan_deferred_invoice(&[entry("B", true, false), entry("A", true, false), entry("B", false, false)]);
    assert_eq!(
        plan,
        Ok(DeferredInvoicePlan {
            invoice_type: DeferredType::Revenue,
            items: vec![
                DeferredItemPlan { item: "A".to_string(), item_type: DeferredType::Revenue, entries: vec![1] },
                DeferredItemPlan { item: "B".to_string(), item_type: DeferredType::Revenue, entries: vec![0, 2] },
            ],
        })
    );
}

#[test]
fn each_item_takes_the_type_of_its_first_entry() {
    let plan = plan_deferred_invoice(&[entry("B", false, true), entry("A", true, true)]);
    assert_eq!(
        plan,
        Ok(DeferredInvoicePlan {
            invoice_type: DeferredType::Expense,
            items: vec![
                DeferredItemPlan { item: "A".to_string(), item_type: DeferredType::Revenue, entries: vec![1] },
                DeferredItemPlan { item: "B".to_string(), item_type: DeferredType::Expense, entries: vec![0] },
            ],
        })
    );
}

fn date(year: i32, month: u32, day: u32) -> SimpleDate {
    SimpleDate { year, month, day }
}

#[test]
fn service_date_arithmetic() {
    assert_eq!(date_diff(date(2024, 3, 1), date(2024, 2, 1)), 29);
    assert_eq!(date_diff(date(2023, 3, 1), date(2023, 2, 1)), 28);
    assert_eq!(date_diff(date(2024, 1, 1), date(2024, 12, 31)), -365);
    assert_eq!(add_days(date(2024, 2, 28), 2), date(2024, 3, 1));
    assert_eq!(add_days(date(2024, 1, 1), -1), date(2023, 12, 31));
    assert_eq!(first_day(date(2024, 5, 17)), date(2024, 5, 1));
    assert_eq!(last_day(date(2023, 2, 10)), date(2023, 2, 28));
    assert_eq!(last_day(date(2024, 2, 10)), date(2024, 2, 29));
}

#[test]
fn invoices_are_the_documents_with_kept_entries() {
    let docs: Vec<String> = ["B", "A", "B", "C"].iter().map(|d| d.to_string()).collect();
    assert_eq!(group_entries_by_doc(&docs, &[true, false, true, false]), vec![("B".to_string(), vec![0, 2])]);
    assert_eq!(
        group_entries_by_doc(&docs, &[true, true, true, true]),
        vec![("A".to_string(), vec![1]), ("B".to_string(), vec![0, 2]), ("C".to_string(), vec![3])]
    );
}

#[test]
fn day_range_bounds() {
    assert!(day_range_check(date(2024, 2, 29)));
    assert!(!day_range_check(date(6_000_000, 1, 1)));
    assert!(!day_range_check(date(2024, 13, 1)));
}
