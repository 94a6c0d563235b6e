pub mod item_wise_purchase_register;
