pub mod constant;
pub mod authorization_token;
pub mod message_parameter;
pub mod setup_option;
