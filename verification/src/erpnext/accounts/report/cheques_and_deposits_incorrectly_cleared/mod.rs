pub mod cheques_and_deposits_incorrectly_cleared;
