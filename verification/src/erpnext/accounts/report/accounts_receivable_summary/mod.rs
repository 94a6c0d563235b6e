pub mod accounts_receivable_summary;
