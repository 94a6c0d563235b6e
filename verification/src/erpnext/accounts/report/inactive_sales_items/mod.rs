pub mod inactive_sales_items;
