pub mod general_ledger;
