//! A verified string list of `KEY=VALUE` entries.
//!
//! `CslStringList` is an ordered, mutable list of entry strings, most of
//! which have the form `KEY=VALUE`; raw tokens without a separator may be
//! appended as well. Keys are matched ASCII case-insensitively while the
//! stored entry keeps the case it was written with. The list is queried by
//! key, walked by a borrowing iterator that snapshots the length at
//! creation, and duplicated into a fully independent copy.
//!
//! The module [`model`] defines the mathematical model every operation is
//! specified against, [`text`] the character-level predicates on keys and
//! values, and [`laws`] the proved laws of the model.

mod error;
mod iter;
pub mod laws;
mod list;
pub mod model;
pub mod text;

pub use error::CplError;
pub use iter::CslStringListIterator;
pub use list::CslStringList;
