pub mod consolidated_trial_balance;
