//! The error taxonomy of registry construction and registry lookup.

use vstd::prelude::*;

verus! {

/// Every failure that the registry core can report.
///
/// The first three variants are construction-time errors: they abort the
/// entire registry build. The last two are lookup-time errors: they are
/// returned to the caller of the lookup and are not fatal.
#[derive(Debug, PartialEq, Eq)]
pub enum DbError {
    /// A configured instance of the named backend kind has an empty
    /// instance name; names are the registry keys and must be non-empty.
    ConfigValidation { db_type: String },
    /// Two or more instances of one backend kind carry the default flag;
    /// `names` lists the flagged instance names in declaration order.
    MultipleDefault { db_type: String, names: Vec<String> },
    /// The underlying pooling library rejected the configuration of the
    /// named instance (for example a malformed connection URI).
    BackendInit { name: String, cause: String },
    /// No data source is registered under the given name (for default
    /// lookups: the kind's label, when the kind has no configured instance).
    DataSourceNotFound(String),
    /// A data source exists under the requested name, but it is not of the
    /// backend kind the caller asked for.
    KindMismatch,
}

} // verus!
