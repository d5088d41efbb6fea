//! Names of the storage schema that the rest of the service refers to.

use vstd::prelude::*;

verus! {

/// The type of the search document column of the video table. The column is
/// derived from title and description when a record is written and is never
/// selected, so the type has no value to hold.
#[derive(Clone, Copy, Debug, PartialEq, Eq, Structural)]
pub struct Tsvector;

} // verus!
