pub mod asset_depreciation_ledger;
