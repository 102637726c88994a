//! Parser for the Session Description Protocol (SDP) text format of RFC 8866.
//!
//! The parser ingests a textual SDP blob, given as bytes, and yields a
//! structured `SessionDescription`, enforcing the ordering, optionality and
//! cardinality rules of RFC 8866 section 5.

use vstd::prelude::*;

pub mod addr;
pub mod error;
pub mod fields;
pub mod origin;
pub mod prim;
pub mod session;
pub mod session_name;
pub mod version;

verus! {

pub fn add(left: usize, right: usize) -> (r: usize)
    requires
        left + right <= usize::MAX,
    ensures
        r == left + right,
{
    left + right
}

} // verus!
