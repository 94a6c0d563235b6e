pub mod consolidated_financial_statement;
