pub mod asset_depreciations_and_balances;
