pub mod payment_period_based_on_invoice_date;
