pub mod grease;
pub mod location;
pub mod pair;
pub mod tuple;
pub mod varint;
pub mod join;
pub mod text;
pub mod redirect;
