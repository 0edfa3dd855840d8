pub mod error;
pub mod stream;
