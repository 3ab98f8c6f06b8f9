//! The ways in which an operation on the table can be refused.

use vstd::prelude::*;

verus! {

/// Why the table refused an operation. Each of them leaves the table as it
/// was.
#[derive(Debug, Clone, Copy, PartialEq, Eq, Structural)]
pub enum TableError {
    /// The row number asked for is not one of `1..=num_rows`.
    TableIndexError,
    /// The table already holds `TABLE_MAX_ROWS` rows.
    TableFull,
    /// A text of the row takes more bytes than its column has.
    ByteOverflow,
}

} // verus!
