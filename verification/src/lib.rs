use vstd::prelude::*;

pub mod alternator;
pub mod attempt;
pub mod config;
pub mod cql;
pub mod decimal;
pub mod executor;
pub mod numeral;
pub mod retry_error;
pub mod stats;
pub mod terminal;
pub mod text;
pub mod text_order;
pub mod text_set;
pub mod value;

verus! {

} // verus!
