pub mod constant;
pub mod control_message;
pub mod goaway;
pub mod publish_blocked;
pub mod subscribe_tracks;
pub mod track_status;
pub mod request_update;
pub mod publish_ok;
pub mod request_ok;
pub mod subscribe_ok;
pub mod publish;
pub mod fetch;
pub mod switch;
pub mod setup;
