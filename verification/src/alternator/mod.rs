//! Everything that speaks the DynamoDB protocol of Alternator.
pub mod alternator_error;
pub mod config;
pub mod laws;
pub mod types;
