pub mod cash_flow;
