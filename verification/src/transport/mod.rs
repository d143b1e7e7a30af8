pub mod kind;
pub mod connection;
