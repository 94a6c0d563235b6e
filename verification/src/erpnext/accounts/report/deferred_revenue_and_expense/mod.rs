pub mod deferred_revenue_and_expense;
