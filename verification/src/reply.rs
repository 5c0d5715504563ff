//! The replies that the service gives to its HTTP callers.

use vstd::prelude::*;
use crate::user::{User, UserView};

verus! {

/// The status of a reply.
#[derive(Clone, Copy, Debug, PartialEq, Eq, Structural)]
pub enum Status {
    /// The request was carried out.
    Success,
    /// No record answers the request.
    NotFound,
    /// The database did not carry the request out.
    ServerError,
}

impl Status {
    /// The HTTP status code, as a number.
    pub open spec fn spec_code(self) -> u16 {
        match self {
            Status::Success => 200,
            Status::NotFound => 404,
            Status::ServerError => 500,
        }
    }

    /// The HTTP status code, as a number.
    #[verifier::when_used_as_spec(spec_code)]
    pub fn code(self) -> (code: u16)
        ensures
            code == self.spec_code(),
    {
        match self {
            Status::Success => 200,
            Status::NotFound => 404,
            Status::ServerError => 500,
        }
    }
}

/// The body of a reply: plain text, or a user record that is sent as a JSON
/// object with one member per field.
#[derive(Debug, PartialEq, Eq)]
pub enum Body {
    Text(String),
    Record(User),
}

/// A `Body` as specifications see it.
pub enum BodyView {
    Text(Seq<char>),
    Record(UserView),
}

impl View for Body {
    type V = BodyView;

    open spec fn view(&self) -> BodyView {
        match self {
            Body::Text(text) => BodyView::Text(text@),
            Body::Record(user) => BodyView::Record(user@),
        }
    }
}

/// A reply: a status and a body.
#[derive(Debug, PartialEq, Eq)]
pub struct Reply {
    pub status: Status,
    pub body: Body,
}

/// A `Reply` as specifications see it.
pub struct ReplyView {
    pub status: Status,
    pub body: BodyView,
}

impl View for Reply {
    type V = ReplyView;

    open spec fn view(&self) -> ReplyView {
        ReplyView { status: self.status, body: self.body@ }
    }
}

impl ReplyView {
    /// A reply of plain text.
    pub open spec fn text(status: Status, text: Seq<char>) -> ReplyView {
        ReplyView { status, body: BodyView::Text(text) }
    }

    /// The reply that hands a record out.
    pub open spec fn record(user: UserView) -> ReplyView {
        ReplyView { status: Status::Success, body: BodyView::Record(user) }
    }
}

impl Reply {
    /// A reply of plain text.
    pub fn text(status: Status, text: String) -> (reply: Reply)
        ensures
            reply@ == ReplyView::text(status, text@),
    {
        Reply { status, body: Body::Text(text) }
    }

    /// The reply that hands a record out.
    pub fn record(user: User) -> (reply: Reply)
        ensures
            reply@ == ReplyView::record(user@),
    {
        Reply { status: Status::Success, body: Body::Record(user) }
    }
}

} // verus!
