pub mod billed_items_to_be_received;
