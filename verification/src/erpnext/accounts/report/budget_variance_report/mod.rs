pub mod budget_variance_report;
