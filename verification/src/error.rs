//! What can be wrong with a field's configuration.

use vstd::prelude::*;

verus! {

/// A configuration from which no field can be laid out.
#[derive(Clone, Copy, Debug, PartialEq, Eq, Structural)]
pub enum ConfigurationError {
    /// The field would have no rows or no columns.
    InvalidExtent,
}

} // verus!
