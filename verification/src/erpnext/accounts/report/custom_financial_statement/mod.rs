pub mod custom_financial_statement;
