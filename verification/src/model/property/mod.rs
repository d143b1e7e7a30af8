pub mod constant;
pub mod track_property;
pub mod loc;
