use user_service::config::{
    database_name, database_uri, ConfigError, DEFAULT_URI, LISTEN_HOST, LISTEN_PORT,
    NAME_VARIABLE, URI_VARIABLE,
};
use user_service::handlers::add_user;
use user_service::reply::Status;
use user_service::startup::{
    after_index, create_username_index, username_index, Fatal, IndexSpec, Phase, USERNAME,
};
use user_service::store::UserStore;
use user_service::user::User;

fn plain_user(username: &str) -> User {
    User { username: username.to_string(), profile: Vec::new() }
}

#[test]
fn the_index_is_ascending_and_unique_on_username() {
    assert_eq!(
        username_index(),
        IndexSpec { field: "username".to_string(), ascending: true, unique: true }
    );
    assert_eq!(USERNAME, "username");
}

#[test]
fn only_serving_accepts_requests() {
    assert!(!Phase::Initializing.accepts_requests());
    assert!(Phase::Serving.accepts_requests());
}

#[test]
fn created_index_leads_to_serving() {
    assert_eq!(after_index(Ok(())), Ok(Phase::Serving));
}

#[test]
fn failed_index_is_fatal() {
    assert_eq!(
        after_index(Err("connection refused".to_string())),
        Err(Fatal { message: "creating an index should succeed: connection refused".to_string() })
    );
    assert_eq!(
        after_index(Err(String::new())),
        Err(Fatal { message: "creating an index should succeed: ".to_string() })
    );
}

#[test]
fn bootstrap_of_an_empty_store() {
    let mut store = UserStore::new();
    assert_eq!(create_username_index(&mut store), Ok(Phase::Serving));
    assert!(store.has_unique_index());
    assert_eq!(store.len(), 0);
}

#[test]
fn bootstrap_is_idempotent() {
    let mut store = UserStore::new();
    store.insert_one(plain_user("alice")).unwrap();
    assert_eq!(create_username_index(&mut store), Ok(Phase::Serving));
    assert_eq!(create_username_index(&mut store), Ok(Phase::Serving));
    assert!(store.has_unique_index());
    assert_eq!(store.len(), 1);
}

#[test]
fn bootstrap_over_duplicates_is_fatal() {
    let mut store = UserStore::new();
    store.insert_one(plain_user("alice")).unwrap();
    store.insert_one(plain_user("alice")).unwrap();
    assert_eq!(
        create_username_index(&mut store),
        Err(Fatal {
            message: "creating an index should succeed: duplicate key error: username alice"
                .to_string(),
        })
    );
    assert!(!store.has_unique_index());
    assert_eq!(store.len(), 2);
}

#[test]
fn uniqueness_is_enforced_once_serving() {
    let mut store = UserStore::new();
    // Before the index exists nothing stops a second record.
    assert_eq!(add_user(&mut store, plain_user("alice")).status, Status::Success);
    assert_eq!(add_user(&mut store, plain_user("bob")).status, Status::Success);
    assert_eq!(create_username_index(&mut store), Ok(Phase::Serving));
    assert_eq!(add_user(&mut store, plain_user("alice")).status, Status::ServerError);
    assert_eq!(add_user(&mut store, plain_user("bob")).status, Status::ServerError);
    assert_eq!(add_user(&mut store, plain_user("carol")).status, Status::Success);
    assert_eq!(store.len(), 3);
}

#[test]
fn uri_defaults_to_the_local_endpoint() {
    assert_eq!(database_uri(None), "mongodb://localhost:27017");
    assert_eq!(DEFAULT_URI, "mongodb://localhost:27017");
}

#[test]
fn configured_uri_is_taken_as_it_is() {
    assert_eq!(
        database_uri(Some("mongodb://db.example.org:27018".to_string())),
        "mongodb://db.example.org:27018"
    );
    assert_eq!(database_uri(Some(String::new())), "");
}

#[test]
fn database_name_has_no_default() {
    assert_eq!(database_name(None), Err(ConfigError::MissingDatabaseName));
    assert_eq!(ConfigError::MissingDatabaseName.message(), "MONGODB_NAME must be set");
}

#[test]
fn configured_database_name_is_taken_as_it_is() {
    assert_eq!(database_name(Some("accounts".to_string())), Ok("accounts".to_string()));
    assert_eq!(database_name(Some(String::new())), Ok(String::new()));
}

#[test]
fn environment_and_listening_address() {
    assert_eq!(URI_VARIABLE, "MONGODB_URI");
    assert_eq!(NAME_VARIABLE, "MONGODB_NAME");
    assert_eq!(LISTEN_HOST, "127.0.0.1");
    assert_eq!(LISTEN_PORT, 8080);
}
