pub mod buf;
pub mod error;
pub mod model;
pub mod transport;
pub mod conformance;
