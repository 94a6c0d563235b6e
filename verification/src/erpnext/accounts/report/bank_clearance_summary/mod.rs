pub mod bank_clearance_summary;
