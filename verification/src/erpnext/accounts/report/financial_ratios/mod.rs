pub mod financial_ratios;
