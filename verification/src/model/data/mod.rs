pub mod constant;
pub mod full_track_name;
pub mod fetch_object;
pub mod datagram;
pub mod subgroup_header;
pub mod padding;
