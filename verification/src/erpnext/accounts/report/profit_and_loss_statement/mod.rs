pub mod profit_and_loss_statement;
