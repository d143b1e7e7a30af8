pub mod constant;
pub mod immutable;
pub mod object_extension;
pub mod track_extension;
