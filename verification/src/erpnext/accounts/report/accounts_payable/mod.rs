pub mod accounts_payable;
