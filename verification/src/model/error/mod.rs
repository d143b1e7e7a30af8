pub mod request_error;
pub mod stream_reset;
pub mod termination;
