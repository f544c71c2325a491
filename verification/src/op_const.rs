//! Op codes of the supported operations. This closed table is the single
//! extension point for new operations.

use vstd::prelude::*;

verus! {

pub const QUERY_SQL: i16 = 2;

pub const QUERY_SQL_FIELDS: i16 = 4;

} // verus!
