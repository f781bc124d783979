pub mod client;
pub mod datetime;
pub mod json;
pub mod sl;
