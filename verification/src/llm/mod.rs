pub mod client;
pub mod decimal;
pub mod providers;
pub mod types;
