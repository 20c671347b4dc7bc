pub mod command;
pub mod message;
pub mod table;
