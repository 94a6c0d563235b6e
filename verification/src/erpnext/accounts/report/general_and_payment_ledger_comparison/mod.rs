pub mod general_and_payment_ledger_comparison;
