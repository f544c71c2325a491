//! Byte widths of the fixed-size request fields, and the on-wire size of a
//! general string field.

use vstd::prelude::*;
use vstd::string::StringSliceAdditionalSpecFns;

verus! {

pub const CACHE_ID: usize = 4;

pub const COLLOCATED: usize = 1;

pub const CURSOR_PAGE_SIZE: usize = 4;

pub const DISTRIBUTED_JOIN: usize = 1;

pub const ENFORCE_JOIN_ORDER: usize = 1;

pub const INCLUDE_FIELD_NAMES: usize = 1;

pub const LAZY: usize = 1;

pub const LOCAL_QUERY: usize = 1;

pub const MAX_ROWS: usize = 4;

pub const QUERY_ARG_COUNT: usize = 4;

pub const REPLICATED_ONLY: usize = 1;

pub const STATEMENT_TYPE: usize = 1;

pub const TIMEOUT: usize = 8;

/// On-wire size of a general string field: one type-marker byte, a 4-byte
/// length, then the string's UTF-8 bytes.
pub fn str(s: &str) -> (r: usize)
    requires
        s.spec_bytes().len() + 5 <= usize::MAX,
    ensures
        r == 5 + s.spec_bytes().len(),
{
    1 + 4 + s.len()
}

} // verus!
