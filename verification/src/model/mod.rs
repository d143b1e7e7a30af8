pub mod common;
pub mod control;
pub mod data;
pub mod error;
pub mod extension_header;
pub mod filter;
pub mod parameter;
pub mod property;
