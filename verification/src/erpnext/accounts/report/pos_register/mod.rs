pub mod pos_register;
