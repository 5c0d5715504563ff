//! What holds of the service over a whole history of requests.

use vstd::prelude::*;
use crate::handlers::{
    add_user_spec, added_message, get_user_spec, not_found_message, serve_spec, RequestView,
};
use crate::reply::{ReplyView, Status};
use crate::store::{lemma_find_one_at, StoreView};
use crate::user::UserView;

verus! {

/// The collection after a history of requests, served one after another.
pub open spec fn after(store: StoreView, requests: Seq<RequestView>) -> StoreView
    decreases requests.len(),
{
    if requests.len() == 0 {
        store
    } else {
        serve_spec(after(store, requests.drop_last()), requests.last()).0
    }
}

/// The reply to the request at position `i` of a history.
pub open spec fn reply_at(store: StoreView, requests: Seq<RequestView>, i: int) -> ReplyView {
    serve_spec(after(store, requests.take(i)), requests[i]).1
}

/// The request asks to store a record under `name`.
pub open spec fn adds_name(request: RequestView, name: Seq<char>) -> bool {
    match request {
        RequestView::AddUser(user) => user.username == name,
        RequestView::GetUser(_) => false,
    }
}

/// The create-user requests for `users`, in their order.
pub open spec fn add_requests(users: Seq<UserView>) -> Seq<RequestView> {
    Seq::new(users.len(), |i: int| RequestView::AddUser(users[i]))
}

/// No two of `users` share a username.
pub open spec fn distinct_usernames(users: Seq<UserView>) -> bool {
    forall|i: int, j: int|
        0 <= i < j < users.len() ==> #[trigger] users[i].username != #[trigger] users[j].username
}

/// Serving one request more extends the history by one step.
pub proof fn lemma_after_step(store: StoreView, requests: Seq<RequestView>, k: int)
    requires
        0 <= k < requests.len(),
    ensures
        after(store, requests.take(k + 1)) == serve_spec(
            after(store, requests.take(k)),
            requests[k],
        ).0,
{
    let longer = requests.take(k + 1);
    assert(longer.drop_last() =~= requests.take(k));
    assert(longer.last() == requests[k]);
}

/// One request keeps the collection well formed and its index in place,
/// removes no username, and brings in at most the username it stores.
pub proof fn lemma_serve_keeps(store: StoreView, request: RequestView, name: Seq<char>)
    requires
        store.wf(),
    ensures
        serve_spec(store, request).0.wf(),
        serve_spec(store, request).0.unique_usernames == store.unique_usernames,
        store.holds(name) ==> serve_spec(store, request).0.holds(name),
        serve_spec(store, request).0.holds(name) ==> store.holds(name) || adds_name(
            request,
            name,
        ),
{
    let next = serve_spec(store, request).0;
    match request {
        RequestView::AddUser(user) => {
            if store.admits(user) {
                let n = store.users.len() as int;
                assert(next.users == store.users.push(user));
                if store.unique_usernames {
                    assert forall|i: int, j: int| 0 <= i < j < next.users.len() implies
                        #[trigger] next.users[i].username != #[trigger] next.users[j].username by {
                        if j == n {
                            assert(store.users[i].username != user.username);
                        } else {
                            assert(store.users[i].username != store.users[j].username);
                        }
                    }
                }
                if store.holds(name) {
                    let i = choose|i: int|
                        0 <= i < store.users.len() && #[trigger] store.users[i].username == name;
                    assert(next.users[i].username == name);
                }
                if next.holds(name) {
                    let i = choose|i: int|
                        0 <= i < next.users.len() && #[trigger] next.users[i].username == name;
                    if i < n {
                        assert(store.users[i].username == name);
                    }
                }
            }
        },
        RequestView::GetUser(_) => {},
    }
}

/// A history keeps the collection well formed and its index in place.
pub proof fn lemma_after_keeps(store: StoreView, requests: Seq<RequestView>)
    requires
        store.wf(),
    ensures
        after(store, requests).wf(),
        after(store, requests).unique_usernames == store.unique_usernames,
    decreases requests.len(),
{
    if requests.len() > 0 {
        lemma_after_keeps(store, requests.drop_last());
        lemma_serve_keeps(after(store, requests.drop_last()), requests.last(), Seq::empty());
    }
}

/// Once the unique index exists, no two records share a username, whatever
/// requests are served.
pub proof fn lemma_usernames_stay_unique(store: StoreView, requests: Seq<RequestView>)
    requires
        store.wf(),
        store.unique_usernames,
    ensures
        after(store, requests).unique_usernames,
        after(store, requests).distinct(),
{
    lemma_after_keeps(store, requests);
}

/// A username that the collection holds at one point of a history is held
/// at every later point: nothing removes a record.
pub proof fn lemma_holds_persists(
    store: StoreView,
    requests: Seq<RequestView>,
    from: int,
    to: int,
    name: Seq<char>,
)
    requires
        store.wf(),
        0 <= from <= to <= requests.len(),
        after(store, requests.take(from)).holds(name),
    ensures
        after(store, requests.take(to)).holds(name),
    decreases to - from,
{
    if from < to {
        lemma_holds_persists(store, requests, from, to - 1, name);
        lemma_after_keeps(store, requests.take(to - 1));
        lemma_serve_keeps(after(store, requests.take(to - 1)), requests[to - 1], name);
        lemma_after_step(store, requests, to - 1);
    }
}

/// Create-user requests for distinct usernames, none of which the collection
/// holds yet, all succeed, and each record can then be had by its username,
/// field for field.
pub proof fn lemma_distinct_users_are_stored(store: StoreView, users: Seq<UserView>)
    requires
        store.wf(),
        distinct_usernames(users),
        forall|i: int| 0 <= i < users.len() ==> !store.holds(#[trigger] users[i].username),
    ensures
        after(store, add_requests(users)).users == store.users + users,
        forall|i: int|
            0 <= i < users.len() ==> #[trigger] reply_at(store, add_requests(users), i)
                == ReplyView::text(Status::Success, added_message()),
        forall|i: int|
            0 <= i < users.len() ==> get_user_spec(
                after(store, add_requests(users)),
                #[trigger] users[i].username,
            ) == ReplyView::record(users[i]),
{
    let requests = add_requests(users);
    lemma_adds_append(store, users, users.len() as int);
    assert(requests.take(users.len() as int) =~= requests);
    assert(users.take(users.len() as int) =~= users);
    let end = after(store, requests);
    assert forall|i: int| 0 <= i < users.len() implies #[trigger] reply_at(store, requests, i)
        == ReplyView::text(Status::Success, added_message()) by {
        lemma_adds_append(store, users, i);
        lemma_fresh_is_admitted(store, users, i);
    }
    assert forall|i: int| 0 <= i < users.len() implies get_user_spec(
        end,
        #[trigger] users[i].username,
    ) == ReplyView::record(users[i]) by {
        let name = users[i].username;
        let at = store.users.len() + i;
        assert(end.users[at] == users[i]);
        assert forall|k: int| 0 <= k < at implies #[trigger] end.users[k].username != name by {
            if k < store.users.len() {
                assert(end.users[k] == store.users[k]);
                if store.users[k].username == name {
                    assert(store.holds(name));
                }
            } else {
                assert(end.users[k] == users[k - store.users.len()]);
            }
        }
        lemma_find_one_at(end, name, at);
    }
}

/// After the first `k` of the create-user requests for `users` the collection
/// holds the first `k` of them behind what it held before.
proof fn lemma_adds_append(store: StoreView, users: Seq<UserView>, k: int)
    requires
        store.wf(),
        distinct_usernames(users),
        forall|i: int| 0 <= i < users.len() ==> !store.holds(#[trigger] users[i].username),
        0 <= k <= users.len(),
    ensures
        after(store, add_requests(users).take(k)).users == store.users + users.take(k),
        after(store, add_requests(users).take(k)).unique_usernames == store.unique_usernames,
    decreases k,
{
    let requests = add_requests(users);
    if k == 0 {
        assert(requests.take(0) =~= Seq::empty());
        assert(store.users + users.take(0) =~= store.users);
    } else {
        lemma_adds_append(store, users, k - 1);
        lemma_after_step(store, requests, k - 1);
        lemma_fresh_is_admitted(store, users, k - 1);
        assert(store.users + users.take(k) =~= (store.users + users.take(k - 1)).push(
            users[k - 1],
        ));
    }
}

/// Behind the first `k` of `users` the collection admits the next of them.
proof fn lemma_fresh_is_admitted(store: StoreView, users: Seq<UserView>, k: int)
    requires
        store.wf(),
        distinct_usernames(users),
        forall|i: int| 0 <= i < users.len() ==> !store.holds(#[trigger] users[i].username),
        0 <= k < users.len(),
        after(store, add_requests(users).take(k)).users == store.users + users.take(k),
    ensures
        after(store, add_requests(users).take(k)).admits(users[k]),
        reply_at(store, add_requests(users), k) == ReplyView::text(
            Status::Success,
            added_message(),
        ),
{
    let before = after(store, add_requests(users).take(k));
    let name = users[k].username;
    if before.holds(name) {
        let i = choose|i: int|
            0 <= i < before.users.len() && #[trigger] before.users[i].username == name;
        if i < store.users.len() {
            assert(store.users[i].username == name);
            assert(store.holds(name));
        } else {
            assert(before.users[i] == users[i - store.users.len()]);
        }
    }
}

/// Under the unique index, of two create-user requests of one history that
/// carry the same username at most one succeeds: the later one is answered
/// with a server error, and the earlier one with success or a server error.
pub proof fn lemma_same_username_one_success(
    store: StoreView,
    requests: Seq<RequestView>,
    i: int,
    j: int,
)
    requires
        store.wf(),
        store.unique_usernames,
        0 <= i < j < requests.len(),
        requests[i] is AddUser,
        requests[j] is AddUser,
        requests[i]->AddUser_0.username == requests[j]->AddUser_0.username,
    ensures
        reply_at(store, requests, j).status == Status::ServerError,
        reply_at(store, requests, i).status == Status::Success || reply_at(
            store,
            requests,
            i,
        ).status == Status::ServerError,
        !(reply_at(store, requests, i).status == Status::Success && reply_at(
            store,
            requests,
            j,
        ).status == Status::Success),
{
    let first = requests[i]->AddUser_0;
    let name = first.username;
    let before = after(store, requests.take(i));
    lemma_after_keeps(store, requests.take(i));
    lemma_after_step(store, requests, i);
    let behind = after(store, requests.take(i + 1));
    if before.admits(first) {
        assert(behind.users == before.users.push(first));
        assert(behind.users[before.users.len() as int].username == name);
    }
    assert(behind.holds(name));
    lemma_holds_persists(store, requests, i + 1, j, name);
    lemma_after_keeps(store, requests.take(j));
}

/// A username under which no request of the history stored a record, and
/// which the collection did not hold before, is not found: the reply is the
/// not-found reply, whose message ends with the username, and never the
/// record.
pub proof fn lemma_never_inserted_not_found(
    store: StoreView,
    requests: Seq<RequestView>,
    name: Seq<char>,
)
    requires
        store.wf(),
        !store.holds(name),
        forall|i: int| 0 <= i < requests.len() ==> !adds_name(#[trigger] requests[i], name),
    ensures
        !after(store, requests).holds(name),
        get_user_spec(after(store, requests), name) == ReplyView::text(
            Status::NotFound,
            not_found_message(name),
        ),
        not_found_message(name).subrange(
            not_found_message(name).len() - name.len(),
            not_found_message(name).len() as int,
        ) == name,
    decreases requests.len(),
{
    if requests.len() > 0 {
        let earlier = requests.drop_last();
        lemma_never_inserted_not_found(store, earlier, name);
        lemma_after_keeps(store, earlier);
        lemma_serve_keeps(after(store, earlier), requests.last(), name);
    }
    let message = not_found_message(name);
    assert(message.subrange(message.len() - name.len(), message.len() as int) =~= name);
}

/// A get-user request leaves the collection as it was, so asking again is
/// answered as before.
pub proof fn lemma_get_user_reads_only(store: StoreView, name: Seq<char>)
    ensures
        serve_spec(store, RequestView::GetUser(name)).0 == store,
        serve_spec(serve_spec(store, RequestView::GetUser(name)).0, RequestView::GetUser(name))
            == serve_spec(store, RequestView::GetUser(name)),
{
}

/// Two get-user requests of one history for the same username, with no
/// create-user request between them, are answered alike.
pub proof fn lemma_repeated_get_user_same_reply(
    store: StoreView,
    requests: Seq<RequestView>,
    i: int,
    j: int,
)
    requires
        0 <= i <= j < requests.len(),
        forall|k: int| i <= k <= j ==> #[trigger] requests[k] is GetUser,
        requests[i] == requests[j],
    ensures
        after(store, requests.take(j)) == after(store, requests.take(i)),
        reply_at(store, requests, j) == reply_at(store, requests, i),
{
    lemma_gets_keep_store(store, requests, i, j);
}

/// Get-user requests in a row leave the collection as it was.
proof fn lemma_gets_keep_store(store: StoreView, requests: Seq<RequestView>, i: int, j: int)
    requires
        0 <= i <= j <= requests.len(),
        forall|k: int| i <= k < j ==> #[trigger] requests[k] is GetUser,
    ensures
        after(store, requests.take(j)) == after(store, requests.take(i)),
    decreases j - i,
{
    if i < j {
        lemma_gets_keep_store(store, requests, i, j - 1);
        lemma_after_step(store, requests, j - 1);
    }
}

} // verus!
