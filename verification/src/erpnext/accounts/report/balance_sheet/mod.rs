pub mod balance_sheet;
