//! Everything that speaks CQL: column types, values, binding, decoding and query execution.
pub mod agreement;
pub mod bind;
pub mod cass_error;
pub mod collections;
pub mod column;
pub mod connect;
pub mod context;
pub mod convert;
pub mod cql_types;
pub mod cql_value;
pub mod deserialize;
pub mod driver;
pub mod execution;
pub mod laws;
pub mod layout;
pub mod natives;
pub mod paging;
pub mod statement;
pub mod wire;
