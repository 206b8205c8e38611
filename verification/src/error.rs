use vstd::prelude::*;

verus! {

/// The one locally raised failure of this library.
///
/// It is returned when a key holds a character outside ASCII alphanumerics
/// and underscore, when a value holds a record separator (`\n` or `\r`),
/// or when a string cannot stand as a null-terminated entry because it
/// holds an embedded null byte. Lookup of an absent key is not an error.
#[derive(Debug, Clone, Copy, PartialEq, Eq, Structural)]
pub enum CplError {
    InvalidArgument,
}

} // verus!
