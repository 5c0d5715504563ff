//! What happens before the first request: the unique index on the username
//! is asked for, and the service starts only once it is there.

use vstd::prelude::*;
use crate::store::{StoreErrorView, StoreView, UserStore};

verus! {

/// The field that identifies a user record.
pub const USERNAME: &'static str = "username";

/// The definition of an index on one field.
#[derive(Debug, PartialEq, Eq)]
pub struct IndexSpec {
    /// The indexed field.
    pub field: String,
    /// Whether the index runs in ascending order.
    pub ascending: bool,
    /// Whether the index refuses a second record with the same value.
    pub unique: bool,
}

/// The index that the service asks for: ascending on the username, unique.
pub fn username_index() -> (index: IndexSpec)
    ensures
        index.field@ == USERNAME@,
        index.ascending,
        index.unique,
{
    IndexSpec { field: String::from_str(USERNAME), ascending: true, unique: true }
}

/// The two phases of the process. There is no way back from `Serving`.
#[derive(Clone, Copy, Debug, PartialEq, Eq, Structural)]
pub enum Phase {
    /// The index is not known to exist; no request is taken.
    Initializing,
    /// The index exists; requests are taken.
    Serving,
}

impl Phase {
    /// Whether requests are taken in this phase.
    pub open spec fn spec_accepts_requests(self) -> bool {
        self == Phase::Serving
    }

    /// Whether requests are taken in this phase.
    #[verifier::when_used_as_spec(spec_accepts_requests)]
    pub fn accepts_requests(self) -> (accepts: bool)
        ensures
            accepts == self.spec_accepts_requests(),
    {
        match self {
            Phase::Initializing => false,
            Phase::Serving => true,
        }
    }
}

/// A failure that ends the process before it serves anything.
#[derive(Debug, PartialEq, Eq)]
pub struct Fatal {
    /// What is reported as the process ends.
    pub message: String,
}

/// The report of an index that could not be created.
pub open spec fn index_failure_message(description: Seq<char>) -> Seq<char> {
    "creating an index should succeed: "@ + description
}

/// The phase that follows `Initializing`, given what the request for the
/// index came to: `Serving` if and only if the index was created; every
/// failure is fatal and is reported with its description.
pub fn after_index(outcome: Result<(), String>) -> (next: Result<Phase, Fatal>)
    ensures
        match outcome {
            Ok(_) => next == Ok::<Phase, Fatal>(Phase::Serving),
            Err(description) => next.is_err() && next.unwrap_err().message@
                == index_failure_message(description@),
        },
{
    match outcome {
        Ok(_) => Ok(Phase::Serving),
        Err(description) => Err(
            Fatal {
                message: String::from_str("creating an index should succeed: ").concat(
                    description.as_str(),
                ),
            },
        ),
    }
}

/// Asks the collection for the unique index on the username and says which
/// phase follows. The process serves if and only if the collection is indexed
/// afterwards; where two records share a username the collection stays as it
/// was and the failure is fatal.
pub fn create_username_index(store: &mut UserStore) -> (next: Result<Phase, Fatal>)
    requires
        old(store)@.wf(),
    ensures
        final(store)@ == old(store)@.create_unique_index(),
        final(store)@.wf(),
        old(store)@.distinct() ==> next == Ok::<Phase, Fatal>(Phase::Serving),
        old(store)@.distinct() ==> final(store)@.unique_usernames,
        !old(store)@.distinct() ==> next.is_err() && next.unwrap_err().message@
            == index_failure_message(
            StoreErrorView::DuplicateKey(old(store)@.first_repeated()).message(),
        ),
{
    match store.create_unique_index() {
        Ok(_) => after_index(Ok(())),
        Err(error) => after_index(Err(error.message())),
    }
}

} // verus!
