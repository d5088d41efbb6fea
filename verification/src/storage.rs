//! Decisions about the two stores at the edge of the service: whether the
//! bucket has to be created when the process starts, and what a liveness
//! probe of the database answers.

use crate::errors::{internal_error, ApiError, ErrorKind};
use vstd::prelude::*;

verus! {

/// What to do about the bucket at startup.
#[derive(Clone, Copy, Debug, PartialEq, Eq, Structural)]
pub enum BucketSetup {
    /// The bucket is there: use it.
    UseExisting,
    /// The bucket is absent: create it, then use it.
    Create,
}

/// The bucket is created when, and only when, it does not exist yet.
pub fn bucket_setup(present: bool) -> (setup: BucketSetup)
    ensures
        present ==> setup == BucketSetup::UseExisting,
        !present ==> setup == BucketSetup::Create,
{
    if present {
        BucketSetup::UseExisting
    } else {
        BucketSetup::Create
    }
}

/// The answer to a liveness probe: the greeting where the database answered,
/// an `InternalError` with the database's message where it did not.
pub fn health(ping: Result<(), String>) -> (res: Result<&'static str, ApiError>)
    ensures
        match ping {
            Ok(_) => res matches Ok(text) && text@ == "I'm alive!"@,
            Err(message) => res matches Err(e) && e.kind == ErrorKind::InternalError && e.message@ == message@,
        },
{
    match ping {
        Ok(_) => Ok("I'm alive!"),
        Err(message) => Err(internal_error(message)),
    }
}

} // verus!
