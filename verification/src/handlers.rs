//! The two request handlers: what each asks of the collection, and which
//! reply it makes of the answer.

use vstd::prelude::*;
use crate::reply::{Reply, ReplyView, Status};
use crate::startup::USERNAME;
use crate::store::{StoreErrorView, StoreView, UserStore};
use crate::user::{User, UserView};

verus! {

/// The condition by which a record is looked up: the record's value of
/// `field` is exactly `value`.
#[derive(Debug, PartialEq, Eq)]
pub struct Filter {
    pub field: String,
    pub value: String,
}

/// The filter of a get-user request: the username is exactly the one asked
/// for, as it came, letter for letter.
pub fn by_username(username: &str) -> (filter: Filter)
    ensures
        filter.field@ == USERNAME@,
        filter.value@ == username@,
{
    Filter { field: String::from_str(USERNAME), value: String::from_str(username) }
}

/// The body of the reply to a user that was stored.
pub open spec fn added_message() -> Seq<char> {
    "user added"@
}

/// The body of the reply to a lookup that found nothing.
pub open spec fn not_found_message(username: Seq<char>) -> Seq<char> {
    "No user found with username "@ + username
}

/// The reply to a create-user request, given what the insert came to:
/// success with a fixed confirmation, or a server error that carries the
/// description of the failure, whatever the failure was.
pub open spec fn add_user_reply_spec(outcome: Result<(), Seq<char>>) -> ReplyView {
    match outcome {
        Ok(_) => ReplyView::text(Status::Success, added_message()),
        Err(description) => ReplyView::text(Status::ServerError, description),
    }
}

/// The reply to a get-user request for `username`, given what the lookup
/// came to: the record where one was found, a not-found reply that names the
/// username where none was, a server error with the description of the
/// failure where the lookup failed.
pub open spec fn get_user_reply_spec(
    username: Seq<char>,
    outcome: Result<Option<UserView>, Seq<char>>,
) -> ReplyView {
    match outcome {
        Ok(Some(user)) => ReplyView::record(user),
        Ok(None) => ReplyView::text(Status::NotFound, not_found_message(username)),
        Err(description) => ReplyView::text(Status::ServerError, description),
    }
}

/// Makes the reply to a create-user request from the outcome of the insert.
/// An error is given as its description.
pub fn add_user_reply(outcome: Result<(), String>) -> (reply: Reply)
    ensures
        reply@ == add_user_reply_spec(
            match outcome {
                Ok(_) => Ok(()),
                Err(description) => Err(description@),
            },
        ),
{
    match outcome {
        Ok(_) => Reply::text(Status::Success, String::from_str("user added")),
        Err(description) => Reply::text(Status::ServerError, description),
    }
}

/// Makes the reply to a get-user request for `username` from the outcome of
/// the lookup. An error is given as its description.
pub fn get_user_reply(username: &str, outcome: Result<Option<User>, String>) -> (reply: Reply)
    ensures
        reply@ == get_user_reply_spec(
            username@,
            match outcome {
                Ok(Some(user)) => Ok(Some(user@)),
                Ok(None) => Ok(None),
                Err(description) => Err(description@),
            },
        ),
{
    match outcome {
        Ok(Some(user)) => Reply::record(user),
        Ok(None) => Reply::text(
            Status::NotFound,
            String::from_str("No user found with username ").concat(username),
        ),
        Err(description) => Reply::text(Status::ServerError, description),
    }
}

/// What a create-user request for `user` is answered with on the collection
/// `store`.
pub open spec fn add_user_spec(store: StoreView, user: UserView) -> ReplyView {
    add_user_reply_spec(
        if store.admits(user) {
            Ok(())
        } else {
            Err(StoreErrorView::DuplicateKey(user.username).message())
        },
    )
}

/// What a get-user request for `username` is answered with on the collection
/// `store`.
pub open spec fn get_user_spec(store: StoreView, username: Seq<char>) -> ReplyView {
    get_user_reply_spec(username, Ok(store.find_one(username)))
}

/// Handles a create-user request: inserts the submitted record, without
/// looking first whether the username is taken, and replies by the outcome.
pub fn add_user(store: &mut UserStore, form: User) -> (reply: Reply)
    requires
        old(store)@.wf(),
    ensures
        final(store)@ == old(store)@.insert_one(form@),
        final(store)@.wf(),
        reply@ == add_user_spec(old(store)@, form@),
{
    match store.insert_one(form) {
        Ok(_) => add_user_reply(Ok(())),
        Err(error) => add_user_reply(Err(error.message())),
    }
}

/// Handles a get-user request: looks the record up by the exact username and
/// replies by the outcome. The collection is only read.
pub fn get_user(store: &UserStore, username: &str) -> (reply: Reply)
    ensures
        reply@ == get_user_spec(store@, username@),
{
    get_user_reply(username, Ok(store.find_one(username)))
}

/// A request to the service.
#[derive(Debug, PartialEq, Eq)]
pub enum Request {
    /// Store the submitted record.
    AddUser(User),
    /// Hand out the record with this username.
    GetUser(String),
}

/// A `Request` as specifications see it.
pub enum RequestView {
    AddUser(UserView),
    GetUser(Seq<char>),
}

impl View for Request {
    type V = RequestView;

    open spec fn view(&self) -> RequestView {
        match self {
            Request::AddUser(user) => RequestView::AddUser(user@),
            Request::GetUser(username) => RequestView::GetUser(username@),
        }
    }
}

/// The collection after a request, and the reply to it. Only a create-user
/// request can change the collection.
pub open spec fn serve_spec(store: StoreView, request: RequestView) -> (StoreView, ReplyView) {
    match request {
        RequestView::AddUser(user) => (store.insert_one(user), add_user_spec(store, user)),
        RequestView::GetUser(username) => (store, get_user_spec(store, username)),
    }
}

/// Hands a request to its handler.
pub fn serve(store: &mut UserStore, request: Request) -> (reply: Reply)
    requires
        old(store)@.wf(),
    ensures
        (final(store)@, reply@) == serve_spec(old(store)@, request@),
        final(store)@.wf(),
{
    match request {
        Request::AddUser(user) => add_user(store, user),
        Request::GetUser(username) => get_user(store, username.as_str()),
    }
}

} // verus!
