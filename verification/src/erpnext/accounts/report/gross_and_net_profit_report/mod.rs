pub mod gross_and_net_profit_report;
