pub mod calculated_discount_mismatch;
