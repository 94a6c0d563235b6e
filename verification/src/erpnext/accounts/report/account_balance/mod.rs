pub mod account_balance;
