//! The identity of the caller of a query.

use vstd::prelude::*;

verus! {

/// The caller's uid, written as an SQL value (quoted where it is a string), or
/// nothing for a caller who is not logged in.
pub struct Uid {
    pub uid_sql_val_str: Option<String>,
}

} // verus!
