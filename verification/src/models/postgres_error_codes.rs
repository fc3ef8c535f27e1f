//! SQLSTATE codes of the relational engine that the stores tell apart.

use vstd::prelude::*;

verus! {

/// SQLSTATE of a foreign-key violation: a row refers to a row that is not
/// stored.
pub const FOREIGN_KEY_VIOLATION: &'static str = "23503";

/// SQLSTATE of a unique violation: a key is already in use.
pub const UNIQUE_VIOLATION: &'static str = "23505";

} // verus!
