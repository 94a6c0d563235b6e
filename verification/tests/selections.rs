use std::collections::BTreeMap;
use tokio_erp::erpnext::accounts::report::asset_depreciation_ledger::asset_depreciation_ledger::{
    filtered_gl_entries, AssetDepreciationFilterPlan, AssetDepreciationFilters, DepreciationEntryKeys, FinanceBookSelection,
};
use tokio_erp::erpnext::accounts::report::deferred_revenue_and_expense::deferred_revenue_and_expense::{
    entry_matches_filters, BookingBasis, DeferredEntryKeys, DeferredFilters, DeferredType, Period,
};
use tokio_erp::erpnext::accounts::report::gross_profit::gross_profit::format_month_year;
use tokio_erp::erpnext::accounts::report::item_wise_purchase_register::item_wise_purchase_register::{
    get_items as get_purchase_items, ItemWisePurchaseFilters, PurchaseItemKeys,
};
use tokio_erp::erpnext::accounts::report::pos_register::pos_register::mode_of_payment_text;
use tokio_erp::erpnext::accounts::report::non_billed_report::{
    document_matches_filters, sort_rows_like_orderby, NonBilledArgs, NonBilledDocumentKeys, NonBilledFilters, NonBilledRowKeys,
};

fn dep(asset: &str, date: &str, book: Option<&str>) -> DepreciationEntryKeys {
    DepreciationEntryKeys {
        against_voucher: asset.to_string(),
        posting_date: date.to_string(),
        finance_book: book.map(|b| b.to_string()),
        company: "Acme".to_string(),
        against_voucher_type: "Asset".to_string(),
        account: "Depreciation".to_string(),
        is_cancelled: false,
    }
}

#[test]
fn depreciation_entries_by_asset_then_date() {
    let filters = AssetDepreciationFilters {
        company: "Acme".to_string(),
        from_date: "2024-01-01".to_string(),
        to_date: "2024-12-31".to_string(),
        ..AssetDepreciationFilters::default()
    };
    let plan = AssetDepreciationFilterPlan {
        filters: Vec::new(),
        or_filters: Vec::new(),
        finance_book: FinanceBookSelection::EmptyOnly,
        asset_category_query: None,
    };
    let entries = vec![
        dep("B", "2024-03-01", None),
        dep("A", "2024-05-01", None),
        dep("A", "2024-02-01", Some("")),
        dep("A", "2023-12-31", None),
        dep("C", "2024-01-15", Some("Tax")),
    ];
    let accounts = vec!["Depreciation".to_string()];
    assert_eq!(filtered_gl_entries(&entries, &filters, &plan, &accounts, &[]), vec![2, 1, 0]);
    let taxed = AssetDepreciationFilterPlan { finance_book: FinanceBookSelection::Selected("Tax".to_string()), ..plan };
    assert_eq!(filtered_gl_entries(&entries, &filters, &taxed, &accounts, &[]), vec![2, 1, 0, 4]);
    assert!(filtered_gl_entries(&entries, &filters, &taxed, &[], &[]).is_empty());
}

#[test]
fn month_and_year_labels() {
    assert_eq!(format_month_year("2024-03-15"), "Mar 2024");
    assert_eq!(format_month_year("2024-12"), "Dec 2024");
    assert_eq!(format_month_year("2024-13-01"), "");
    assert_eq!(format_month_year("2024"), "");
    assert_eq!(format_month_year("-03-01"), "");
}

fn deferred_filters(kind: DeferredType) -> DeferredFilters {
    DeferredFilters {
        company: "Acme".to_string(),
        filter_based_on: "Date Range".to_string(),
        period_start_date: "2024-01-01".to_string(),
        period_end_date: "2024-02-29".to_string(),
        from_fiscal_year: String::new(),
        to_fiscal_year: String::new(),
        periodicity: "Monthly".to_string(),
        deferred_type: kind,
        with_upcoming_postings: false,
        book_deferred_entries_based_on: BookingBasis::Months,
    }
}

fn deferred_entry(start: &str, end: &str) -> DeferredEntryKeys {
    DeferredEntryKeys {
        company: "Acme".to_string(),
        docstatus: 1,
        is_cancelled: false,
        enable_deferred_revenue: true,
        enable_deferred_expense: false,
        service_start_date: start.to_string(),
        service_end_date: end.to_string(),
        deferred_revenue_account: Some("Deferred Revenue".to_string()),
        deferred_expense_account: None,
    }
}

#[test]
fn deferred_entries_overlap_the_report() {
    let periods = vec![
        Period::new("2024_01", "Jan 2024", "2024-01-01", "2024-01-31"),
        Period::new("2024_02", "Feb 2024", "2024-02-01", "2024-02-29"),
    ];
    let revenue = deferred_filters(DeferredType::Revenue);
    assert!(entry_matches_filters(&revenue, &periods, &deferred_entry("2023-12-01", "2024-05-31")));
    assert!(!entry_matches_filters(&revenue, &periods, &deferred_entry("2024-03-01", "2024-05-31")));
    assert!(!entry_matches_filters(&revenue, &periods, &deferred_entry("bad", "2024-05-31")));
    assert!(!entry_matches_filters(&deferred_filters(DeferredType::Expense), &periods, &deferred_entry("2024-01-01", "2024-05-31")));
}

#[test]
fn non_billed_documents_and_row_order() {
    let filters = NonBilledFilters { company: "Acme".to_string(), posting_date: "2024-06-30".to_string(), references: BTreeMap::new() };
    let doc = NonBilledDocumentKeys {
        name: "DN-1".to_string(),
        status: "To Bill".to_string(),
        docstatus: 1,
        company: "Acme".to_string(),
        posting_date: "2024-06-01".to_string(),
    };
    assert!(document_matches_filters(&doc, &filters, None));
    assert!(document_matches_filters(&doc, &filters, Some("DN-1")));
    assert!(!document_matches_filters(&doc, &filters, Some("DN-2")));
    let closed = NonBilledDocumentKeys { status: "Closed".to_string(), ..doc };
    assert!(!document_matches_filters(&closed, &filters, None));
    let row = |name: &str, date: &str| NonBilledRowKeys { name: name.to_string(), company: "Acme".to_string(), date: date.to_string() };
    let rows = vec![row("B", "2024-02-01"), row("A", "2024-02-01"), row("C", "2024-01-01")];
    let mut args = NonBilledArgs {
        doctype: "Delivery Note".to_string(),
        party: "customer".to_string(),
        date: "posting_date".to_string(),
        reference_field: "delivery_note".to_string(),
        order: "posting_date".to_string(),
        order_by: "asc".to_string(),
    };
    assert_eq!(sort_rows_like_orderby(&rows, &args), vec![2, 1, 0]);
    args.order_by = "DESC".to_string();
    assert_eq!(sort_rows_like_orderby(&rows, &args), vec![0, 1, 2]);
    args.order = "name".to_string();
    assert_eq!(sort_rows_like_orderby(&rows, &args), vec![2, 0, 1]);
}

fn purchase_row(parent: &str, date: &str, supplier: &str, code: &str) -> PurchaseItemKeys {
    PurchaseItemKeys {
        docstatus: 1,
        parenttype: "Purchase Invoice".to_string(),
        parent: parent.to_string(),
        company: "Acme".to_string(),
        supplier: supplier.to_string(),
        mode_of_payment: None,
        posting_date: date.to_string(),
        item_code: code.to_string(),
        pi_item_group: None,
        i_item_group: Some("Raw".to_string()),
    }
}

#[test]
fn purchase_items_in_register_order() {
    let rows = vec![
        purchase_row("PI-1", "2024-01-02", "S2", "I-2"),
        purchase_row("PI-2", "2024-01-03", "S1", "I-1"),
        PurchaseItemKeys { docstatus: 2, ..purchase_row("PI-3", "2024-01-04", "S1", "I-3") },
        purchase_row("PI-4", "2024-01-01", "S3", "I-1"),
    ];
    let mut filters = ItemWisePurchaseFilters {
        company: None,
        supplier: None,
        mode_of_payment: None,
        from_date: None,
        to_date: None,
        item_code: None,
        item_group: None,
        group_by: None,
    };
    assert_eq!(get_purchase_items(&filters, &rows), vec![1, 0, 3]);
    filters.group_by = Some("Supplier".to_string());
    assert_eq!(get_purchase_items(&filters, &rows), vec![3, 0, 1]);
    filters.group_by = Some("Item".to_string());
    filters.item_group = Some("Raw".to_string());
    assert_eq!(get_purchase_items(&filters, &rows), vec![1, 3, 0]);
    filters.mode_of_payment = Some("Cash".to_string());
    assert!(get_purchase_items(&filters, &rows).is_empty());
}

#[test]
fn modes_of_payment_are_joined() {
    let modes = vec![
        ("POS-1".to_string(), vec!["Cash".to_string(), "Card".to_string()]),
        ("POS-2".to_string(), Vec::new()),
        ("POS-1".to_string(), vec!["Later".to_string()]),
    ];
    assert_eq!(mode_of_payment_text("POS-1", &modes).as_deref(), Some("Cash, Card"));
    assert_eq!(mode_of_payment_text("POS-2", &modes).as_deref(), Some(""));
    assert_eq!(mode_of_payment_text("POS-9", &modes), None);
}
