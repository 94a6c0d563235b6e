use tokio_erp::erpnext::accounts::report::gross_profit::gross_profit::{group_items_by_invoice, InvoiceStep};

fn s(x: &str) -> String {
    x.to_string()
}

#[test]
fn items_are_grouped_under_their_invoices() {
    let rows = vec![
        (Some(s("A")), Some(s("X"))),
        (Some(s("B")), Some(s("Y"))),
        (Some(s("A")), Some(s("Z"))),
        (None, Some(s("W"))),
    ];
    let bundles = vec![(s("A"), s("Z"), 2), (s("B"), s("X"), 1), (s("A"), s("Z"), 1)];
    assert_eq!(
        group_items_by_invoice(&rows, &bundles),
        vec![
            InvoiceStep::Invoice(0),
            InvoiceStep::Item(0),
            InvoiceStep::Item(2),
            InvoiceStep::Bundle(2, 0, 0),
            InvoiceStep::Bundle(2, 0, 1),
            InvoiceStep::Bundle(2, 2, 0),
            InvoiceStep::Invoice(1),
            InvoiceStep::Item(1),
            InvoiceStep::Invoice(3),
            InvoiceStep::Item(3),
        ]
    );
}

#[test]
fn no_rows_give_no_invoices() {
    assert_eq!(group_items_by_invoice(&[], &[(s("A"), s("X"), 3)]), vec![]);
}
