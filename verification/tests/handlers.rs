use user_service::handlers::{
    add_user, add_user_reply, by_username, get_user, get_user_reply, serve, Filter, Request,
};
use user_service::reply::{Body, Reply, Status};
use user_service::startup::{create_username_index, Phase};
use user_service::store::UserStore;
use user_service::user::{Field, FieldValue, User};

fn serving_store() -> UserStore {
    let mut store = UserStore::new();
    assert_eq!(create_username_index(&mut store), Ok(Phase::Serving));
    store
}

fn plain_user(username: &str) -> User {
    User { username: username.to_string(), profile: Vec::new() }
}

fn user_with_age(username: &str, age: i64) -> User {
    User {
        username: username.to_string(),
        profile: vec![Field { name: "age".to_string(), value: FieldValue::Integer(age) }],
    }
}

fn text(status: Status, body: &str) -> Reply {
    Reply { status, body: Body::Text(body.to_string()) }
}

#[test]
fn added_user_is_confirmed_and_then_found() {
    let mut store = serving_store();
    let reply = add_user(&mut store, user_with_age("alice", 30));
    assert_eq!(reply.status.code(), 200);
    assert_eq!(reply.body, Body::Text("user added".to_string()));

    let found = get_user(&store, "alice");
    assert_eq!(found.status.code(), 200);
    assert_eq!(found.body, Body::Record(user_with_age("alice", 30)));
}

#[test]
fn unknown_user_is_not_found() {
    let store = serving_store();
    let reply = get_user(&store, "bob");
    assert_eq!(reply.status.code(), 404);
    assert_eq!(reply.body, Body::Text("No user found with username bob".to_string()));
}

#[test]
fn lookup_is_by_the_exact_username() {
    assert_eq!(
        by_username("bob"),
        Filter { field: "username".to_string(), value: "bob".to_string() }
    );
    assert_eq!(by_username(" Bob%20").value, " Bob%20");
    assert_eq!(by_username("").value, "");
}

#[test]
fn same_username_in_either_order_succeeds_once() {
    for first_age in [1, 2] {
        let second_age = 3 - first_age;
        let mut store = serving_store();
        let first = add_user(&mut store, user_with_age("carol", first_age));
        let second = add_user(&mut store, user_with_age("carol", second_age));
        assert_eq!((first.status.code(), second.status.code()), (200, 500));
        assert_eq!(get_user(&store, "carol").body, Body::Record(user_with_age("carol", first_age)));
    }
}

#[test]
fn same_username_twice_succeeds_once() {
    let mut store = serving_store();
    let first = add_user(&mut store, plain_user("carol"));
    let second = add_user(&mut store, plain_user("carol"));
    let codes = [first.status.code(), second.status.code()];
    assert_eq!(codes.iter().filter(|code| **code == 200).count(), 1);
    assert_eq!(codes.iter().filter(|code| **code == 500).count(), 1);
    assert_eq!(store.len(), 1);
}

#[test]
fn refused_user_gets_the_error_text_as_body() {
    let mut store = serving_store();
    assert_eq!(add_user(&mut store, user_with_age("carol", 41)), text(Status::Success, "user added"));
    let refused = add_user(&mut store, user_with_age("carol", 52));
    assert_eq!(refused, text(Status::ServerError, "duplicate key error: username carol"));
    // The record that came first is the one that stays.
    assert_eq!(get_user(&store, "carol").body, Body::Record(user_with_age("carol", 41)));
}

#[test]
fn distinct_usernames_all_succeed_and_are_found() {
    let mut store = serving_store();
    let names = ["alice", "bob", "carol", "dave"];
    let mut age = 20;
    for name in names {
        let reply = add_user(&mut store, user_with_age(name, age));
        assert_eq!(reply, text(Status::Success, "user added"));
        age += 1;
    }
    assert_eq!(store.len(), 4);
    let mut age = 20;
    for name in names {
        let reply = get_user(&store, name);
        assert_eq!(reply.status, Status::Success);
        assert_eq!(reply.body, Body::Record(user_with_age(name, age)));
        age += 1;
    }
}

#[test]
fn never_inserted_username_is_never_a_success() {
    let mut store = serving_store();
    add_user(&mut store, plain_user("alice"));
    add_user(&mut store, plain_user("bob"));
    let reply = get_user(&store, "mallory");
    assert_eq!(reply.status, Status::NotFound);
    assert_ne!(reply.status, Status::Success);
    match reply.body {
        Body::Text(message) => {
            assert!(message.contains("mallory"));
            assert_eq!(message, "No user found with username mallory");
        },
        Body::Record(_) => panic!("a record was handed out"),
    }
}

#[test]
fn repeated_get_user_gives_identical_replies() {
    let mut store = serving_store();
    add_user(&mut store, user_with_age("alice", 30));
    let first = get_user(&store, "alice");
    let second = get_user(&store, "alice");
    assert_eq!(first, second);
    let missing_first = get_user(&store, "bob");
    let missing_second = get_user(&store, "bob");
    assert_eq!(missing_first, missing_second);
    assert_eq!(store.len(), 1);
    assert!(store.has_unique_index());
}

#[test]
fn username_is_matched_exactly() {
    let mut store = serving_store();
    add_user(&mut store, plain_user("alice"));
    assert_eq!(get_user(&store, "Alice").status, Status::NotFound);
    assert_eq!(get_user(&store, "alice ").status, Status::NotFound);
    assert_eq!(get_user(&store, "alic").status, Status::NotFound);
    assert_eq!(get_user(&store, "").status, Status::NotFound);
    assert_eq!(get_user(&store, "alice").status, Status::Success);
    // Names that differ only in case are different names.
    assert_eq!(add_user(&mut store, plain_user("Alice")).status, Status::Success);
}

#[test]
fn empty_username_is_a_username() {
    let mut store = serving_store();
    assert_eq!(add_user(&mut store, plain_user("")).status, Status::Success);
    assert_eq!(add_user(&mut store, plain_user("")).status, Status::ServerError);
    assert_eq!(get_user(&store, "").body, Body::Record(plain_user("")));
}

#[test]
fn not_found_message_for_empty_username() {
    let store = serving_store();
    assert_eq!(get_user(&store, ""), text(Status::NotFound, "No user found with username "));
}

#[test]
fn profile_comes_back_field_for_field() {
    let mut store = serving_store();
    let user = User {
        username: "erin".to_string(),
        profile: vec![
            Field { name: "email".to_string(), value: FieldValue::Text("erin@example.org".to_string()) },
            Field { name: "age".to_string(), value: FieldValue::Integer(-3) },
            Field { name: "admin".to_string(), value: FieldValue::Boolean(true) },
            Field { name: "age".to_string(), value: FieldValue::Text("30".to_string()) },
        ],
    };
    add_user(&mut store, user.clone());
    match get_user(&store, "erin").body {
        Body::Record(found) => {
            assert_eq!(found.username, "erin");
            assert_eq!(found.profile.len(), 4);
            assert_eq!(found.profile[1].value, FieldValue::Integer(-3));
            assert_eq!(found.profile[3].value, FieldValue::Text("30".to_string()));
            assert_eq!(found, user);
        },
        Body::Text(_) => panic!("no record was handed out"),
    }
}

#[test]
fn add_user_reply_of_success() {
    assert_eq!(add_user_reply(Ok(())), text(Status::Success, "user added"));
}

#[test]
fn add_user_reply_of_any_failure_is_a_server_error() {
    let duplicate = "E11000 duplicate key error collection: test.users index: username_1";
    assert_eq!(add_user_reply(Err(duplicate.to_string())), text(Status::ServerError, duplicate));
    let lost = "Kind: I/O error: connection refused";
    assert_eq!(add_user_reply(Err(lost.to_string())), text(Status::ServerError, lost));
    assert_eq!(add_user_reply(Err(String::new())), text(Status::ServerError, ""));
}

#[test]
fn get_user_reply_of_a_found_record() {
    let reply = get_user_reply("alice", Ok(Some(user_with_age("alice", 30))));
    assert_eq!(
        reply,
        Reply { status: Status::Success, body: Body::Record(user_with_age("alice", 30)) }
    );
}

#[test]
fn get_user_reply_of_no_record() {
    assert_eq!(
        get_user_reply("bob", Ok(None)),
        text(Status::NotFound, "No user found with username bob")
    );
}

#[test]
fn get_user_reply_of_a_failed_lookup() {
    assert_eq!(
        get_user_reply("bob", Err("server selection timeout".to_string())),
        text(Status::ServerError, "server selection timeout")
    );
}

#[test]
fn serve_hands_each_request_to_its_handler() {
    let mut store = serving_store();
    let added = serve(&mut store, Request::AddUser(user_with_age("alice", 30)));
    assert_eq!(added, text(Status::Success, "user added"));
    let found = serve(&mut store, Request::GetUser("alice".to_string()));
    assert_eq!(found.body, Body::Record(user_with_age("alice", 30)));
    let missing = serve(&mut store, Request::GetUser("bob".to_string()));
    assert_eq!(missing, text(Status::NotFound, "No user found with username bob"));
    let again = serve(&mut store, Request::AddUser(plain_user("alice")));
    assert_eq!(again.status.code(), 500);
    assert_eq!(store.len(), 1);
}

#[test]
fn status_codes() {
    assert_eq!(Status::Success.code(), 200);
    assert_eq!(Status::NotFound.code(), 404);
    assert_eq!(Status::ServerError.code(), 500);
}

#[test]
fn reply_constructors() {
    assert_eq!(Reply::text(Status::NotFound, "gone".to_string()), text(Status::NotFound, "gone"));
    assert_eq!(
        Reply::record(plain_user("alice")),
        Reply { status: Status::Success, body: Body::Record(plain_user("alice")) }
    );
}
