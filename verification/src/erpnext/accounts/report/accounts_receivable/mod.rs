pub mod accounts_receivable;
