pub mod gross_profit;
