pub mod bank_reconciliation_statement;
