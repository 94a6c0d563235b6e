pub mod invalid_ledger_entries;
