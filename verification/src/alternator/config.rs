//! Connection settings of Alternator.
use vstd::prelude::*;

verus! {

/// The connection settings that only Alternator has: none so far.
#[derive(Debug, Clone, Copy, PartialEq, Eq, Structural)]
pub struct DbConnectionConf {}

impl Default for DbConnectionConf {
    fn default() -> (r: DbConnectionConf)
        ensures
            r == (DbConnectionConf {  }),
    {
        DbConnectionConf {  }
    }
}

} // verus!
