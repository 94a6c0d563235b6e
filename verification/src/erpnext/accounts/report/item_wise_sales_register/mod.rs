pub mod item_wise_sales_register;
