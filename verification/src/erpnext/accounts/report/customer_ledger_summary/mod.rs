pub mod customer_ledger_summary;
