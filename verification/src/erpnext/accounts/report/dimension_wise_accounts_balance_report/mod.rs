pub mod dimension_wise_accounts_balance_report;
