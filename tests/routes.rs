use kvstore::models::hasher::Hasher;
use kvstore::models::keyvalue::{KeyValueStore, NewKeyValue};
use kvstore::models::request::Request;
use kvstore::models::user::{bootstrap, NewUser, Role, User, UserDirectory};
use kvstore::routes::{keyvalue, user};

fn with_token(token: &str) -> Request {
    Request::new(vec![("x-api-token".to_string(), token.to_string())])
}

fn admin_directory() -> (UserDirectory, String) {
    let mut dir = UserDirectory::new(Hasher::with_defaults());
    let admin = NewUser { username: "admin".to_string(), password: "pw".to_string() };
    bootstrap(&mut dir, &admin, 0).unwrap();
    let token = dir.users[0].token.clone();
    (dir, token)
}

#[test]
fn bootstrap_then_user_then_private_entry() {
    let mut dir = UserDirectory::new(Hasher::with_defaults());
    let admin = NewUser { username: "admin".to_string(), password: "pw".to_string() };
    bootstrap(&mut dir, &admin, 0).unwrap();
    assert_eq!(dir.len(), 1);
    assert_eq!(dir.users[0].role, Role::Admin);
    let t0 = dir.users[0].token.clone();

    let alice = NewUser { username: "alice".to_string(), password: "p".to_string() };
    let created = user::create(&with_token(&t0), &mut dir, &alice, 5);
    assert_eq!(created.status, 201);
    let t1 = created.body.unwrap().token;
    assert_ne!(t1, t0);

    let mut store = KeyValueStore::new();
    let kv = NewKeyValue { key: "k".to_string(), value: "v".to_string() };
    let stored = keyvalue::create(&with_token(&t1), &dir, &mut store, &kv, 7);
    assert_eq!(stored.status, 201);
    assert_eq!(stored.body.unwrap().value, "v");

    let mine = keyvalue::read(&with_token(&t1), &dir, &store, "k");
    assert_eq!(mine.status, 200);
    assert_eq!(mine.body.unwrap(), "v");

    let theirs = keyvalue::read(&with_token(&t0), &dir, &store, "k");
    assert_eq!(theirs.status, 404);
    assert!(theirs.body.is_none());
}

#[test]
fn non_admin_cannot_delete_users() {
    let (mut dir, t0) = admin_directory();
    let bob = NewUser { username: "bob".to_string(), password: "b".to_string() };
    let t1 = user::create(&with_token(&t0), &mut dir, &bob, 5).body.unwrap().token;
    let r = user::delete(&with_token(&t1), &mut dir, "admin");
    assert_eq!(r.status, 401);
    assert_eq!(dir.len(), 2);
    assert_eq!(dir.users[0].username, "admin");
    assert_eq!(dir.users[1].username, "bob");
}

#[test]
fn admin_deletes_users() {
    let (mut dir, t0) = admin_directory();
    let bob = NewUser { username: "bob".to_string(), password: "b".to_string() };
    user::create(&with_token(&t0), &mut dir, &bob, 5);
    assert_eq!(user::delete(&with_token(&t0), &mut dir, "bob").status, 200);
    assert_eq!(dir.len(), 1);
    assert_eq!(user::delete(&with_token(&t0), &mut dir, "bob").status, 404);
    assert_eq!(user::delete(&with_token("bad"), &mut dir, "admin").status, 401);
    assert_eq!(user::delete(&Request::new(vec![]), &mut dir, "admin").status, 401);
    assert_eq!(dir.len(), 1);
}

#[test]
fn user_creation_needs_an_admin() {
    let (mut dir, t0) = admin_directory();
    let bob = NewUser { username: "bob".to_string(), password: "b".to_string() };
    let t1 = user::create(&with_token(&t0), &mut dir, &bob, 5).body.unwrap().token;
    let carol = NewUser { username: "carol".to_string(), password: "c".to_string() };
    let by_user = user::create(&with_token(&t1), &mut dir, &carol, 5);
    assert_eq!(by_user.status, 401);
    assert!(by_user.body.is_none());
    assert_eq!(user::create(&Request::new(vec![]), &mut dir, &carol, 5).status, 401);
    assert_eq!(dir.len(), 2);
    let duplicate = user::create(&with_token(&t0), &mut dir, &bob, 5);
    assert_eq!(duplicate.status, 422);
    assert_eq!(dir.len(), 2);
    let created = User::read(&dir, &t1).unwrap();
    assert_eq!(created.role, Role::User);
}

#[test]
fn reading_own_record() {
    let (dir, t0) = admin_directory();
    let r = user::read(&with_token(&t0), &dir);
    assert_eq!(r.status, 200);
    assert_eq!(r.body.unwrap().username, "admin");
    let bad = user::read(&with_token("bad"), &dir);
    assert_eq!(bad.status, 422);
    assert!(bad.body.is_none());
}

#[test]
fn key_value_routes_need_a_valid_token() {
    let (dir, _) = admin_directory();
    let mut store = KeyValueStore::new();
    let kv = NewKeyValue { key: "k".to_string(), value: "v".to_string() };
    let bad = with_token("bad");
    assert_eq!(keyvalue::create(&bad, &dir, &mut store, &kv, 7).status, 403);
    assert_eq!(keyvalue::read(&bad, &dir, &store, "k").status, 403);
    assert_eq!(keyvalue::update(&bad, &dir, &mut store, &kv, 7).status, 403);
    assert_eq!(keyvalue::delete(&bad, &dir, &mut store, "k").status, 403);
    assert_eq!(store.len(), 0);
}

#[test]
fn key_value_route_round_trip() {
    let (dir, t0) = admin_directory();
    let mut store = KeyValueStore::new();
    let req = with_token(&t0);
    let kv = NewKeyValue { key: "k".to_string(), value: "v".to_string() };
    assert_eq!(keyvalue::create(&req, &dir, &mut store, &kv, 7).status, 201);
    assert_eq!(keyvalue::create(&req, &dir, &mut store, &kv, 7).status, 422);
    let kv2 = NewKeyValue { key: "k".to_string(), value: "w".to_string() };
    let up = keyvalue::update(&req, &dir, &mut store, &kv2, 7);
    assert_eq!(up.status, 200);
    assert_eq!(up.body.unwrap().value, "w");
    let missing = NewKeyValue { key: "m".to_string(), value: "x".to_string() };
    assert_eq!(keyvalue::update(&req, &dir, &mut store, &missing, 7).status, 422);
    assert_eq!(store.len(), 1);
    let del = keyvalue::delete(&req, &dir, &mut store, "k");
    assert_eq!(del.status, 200);
    assert_eq!(del.body.unwrap().value, "w");
    assert_eq!(keyvalue::delete(&req, &dir, &mut store, "k").status, 422);
    assert_eq!(keyvalue::read(&req, &dir, &store, "k").status, 404);
}

#[test]
fn route_timestamps_are_the_given_time() {
    let (dir, t0) = admin_directory();
    let mut store = KeyValueStore::new();
    let kv = NewKeyValue { key: "k".to_string(), value: "v".to_string() };
    let e = keyvalue::create(&with_token(&t0), &dir, &mut store, &kv, 1_700_000_000).body.unwrap();
    assert_eq!(e.created_at, 1_700_000_000);
    assert_eq!(e.updated_at, 1_700_000_000);
    let kv2 = NewKeyValue { key: "k".to_string(), value: "w".to_string() };
    let u = keyvalue::update(&with_token(&t0), &dir, &mut store, &kv2, 1_700_000_060).body.unwrap();
    assert_eq!(u.created_at, 1_700_000_000);
    assert_eq!(u.updated_at, 1_700_000_060);
}

#[test]
fn last_admin_cannot_be_deleted() {
    let (mut dir, t0) = admin_directory();
    assert_eq!(user::delete(&with_token(&t0), &mut dir, "admin").status, 422);
    assert_eq!(dir.len(), 1);
    assert_eq!(dir.users[0].role, Role::Admin);
}
