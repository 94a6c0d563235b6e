pub mod payment_ledger;
