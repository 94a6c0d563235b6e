//! Report-shaping logic of an ERP accounting suite: column layouts, filter and
//! query plans, calendar arithmetic and validations, with their contracts.
pub mod erpnext;
pub mod text;
pub mod calendar;
pub mod order;
