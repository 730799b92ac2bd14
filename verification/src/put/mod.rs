//! The service's interface: requests and what the library does with replies.
pub mod files;
pub mod oob;
pub mod request;
pub mod tus;
pub mod zips;
