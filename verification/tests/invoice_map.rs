use tokio_erp::erpnext::accounts::report::payment_period_based_on_invoice_date::payment_period_based_on_invoice_date::{
    get_invoice_posting_date_map, PaymentInvoice, PaymentPeriodFilters,
};

fn invoice(doctype: &str, name: &str, company: &str, posting: &str, submitted: bool) -> PaymentInvoice {
    PaymentInvoice {
        doctype: doctype.to_string(),
        name: name.to_string(),
        company: company.to_string(),
        posting_date: posting.to_string(),
        due_date: posting.to_string(),
        submitted,
    }
}

#[test]
fn invoice_map_keeps_candidates_by_name_in_key_order() {
    let filters = PaymentPeriodFilters {
        payment_type: "Incoming".to_string(),
        company: "Acme".to_string(),
        party_type: None,
        party: None,
        from_date: None,
        to_date: None,
        report_date: None,
        range: None,
    };
    let invoices = vec![
        invoice("Sales Invoice", "SI-2", "Acme", "2024-01-02", true),
        invoice("Sales Invoice", "SI-1", "Acme", "2024-01-01", true),
        invoice("Purchase Invoice", "PI-1", "Acme", "2024-01-01", true),
        invoice("Sales Invoice", "SI-3", "Other", "2024-01-01", true),
        invoice("Sales Invoice", "SI-4", "Acme", "2024-01-01", false),
        invoice("Sales Invoice", "SI-2", "Acme", "2024-02-02", true),
    ];
    let map = get_invoice_posting_date_map(&filters, &invoices);
    let keys: Vec<&str> = map.keys().map(|k| k.as_str()).collect();
    assert_eq!(keys, vec!["SI-1", "SI-2"]);
    assert_eq!(map["SI-2"].posting_date, "2024-02-02");
}
