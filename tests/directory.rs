use kvstore::models::error::ServiceError;
use kvstore::models::hasher::{decimal_text, Hasher};
use kvstore::models::request::Request;
use kvstore::models::user::{
    authorize, authorize_admin, bootstrap, NewUser, Role, User, UserDirectory,
};

fn new_user(username: &str, password: &str) -> NewUser {
    NewUser { username: username.to_string(), password: password.to_string() }
}

fn request_with_token(token: &str) -> Request {
    Request::new(vec![("x-api-token".to_string(), token.to_string())])
}

#[test]
fn digest_joins_pepper_secret_and_salt() {
    let hasher = Hasher::with_defaults();
    assert_eq!(hasher.digest("secret"), "d9ca9b3cd16bd3d22d0c36b1a3c2ab24");
    let other = Hasher::new("x".to_string(), "y".to_string());
    assert_eq!(other.digest("a"), "55fb8a18d1a5462a8e84d9909ba5765f");
}

#[test]
fn digest_is_deterministic_and_hex() {
    let hasher = Hasher::with_defaults();
    let d = hasher.digest("anything");
    assert_eq!(d, hasher.digest("anything"));
    assert_eq!(d.len(), 32);
    assert!(d.chars().all(|c| c.is_ascii_digit() || ('a'..='f').contains(&c)));
    assert_ne!(d, hasher.digest("anything else"));
}

#[test]
fn role_names() {
    assert_eq!(Role::Admin.as_str(), "admin");
    assert_eq!(Role::User.as_str(), "user");
}

#[test]
fn create_derives_password_digest_and_token_from_id() {
    let mut dir = UserDirectory::new(Hasher::with_defaults());
    let u = User::create(&mut dir, Role::User, &new_user("alice", "p"), 100).unwrap();
    assert_eq!(u.id, 1);
    assert_eq!(u.username, "alice");
    assert_eq!(u.hashed_password, "20d673292c79d85f003cef2988bac746");
    assert_eq!(u.token, "6ef93a314a565a8905fcfd4991d171db");
    assert_eq!(u.role, Role::User);
    assert_eq!(u.created_at, 100);
    assert_eq!(u.updated_at, 100);
    let v = User::create(&mut dir, Role::Admin, &new_user("bob", "q"), 200).unwrap();
    assert_eq!(v.id, 2);
    assert_eq!(v.token, "025e83f3119fcbccb69a20ebeabd85a7");
    assert!(v.is_admin());
    assert!(!u.is_admin());
    assert_eq!(dir.len(), 2);
}

#[test]
fn created_user_resolves_by_token() {
    let mut dir = UserDirectory::new(Hasher::with_defaults());
    User::create(&mut dir, Role::Admin, &new_user("root", "r"), 1).unwrap();
    let u = User::create(&mut dir, Role::User, &new_user("carol", "c"), 2).unwrap();
    let found = User::read(&dir, &u.token).unwrap();
    assert_eq!(found.username, "carol");
    assert_eq!(found.role, Role::User);
    assert_eq!(found.id, u.id);
}

#[test]
fn unknown_token_is_not_found() {
    let mut dir = UserDirectory::new(Hasher::with_defaults());
    User::create(&mut dir, Role::User, &new_user("dave", "d"), 1).unwrap();
    assert_eq!(User::read(&dir, "nope").unwrap_err(), ServiceError::NotFound);
    assert_eq!(User::read(&dir, "").unwrap_err(), ServiceError::NotFound);
}

#[test]
fn duplicate_username_conflicts() {
    let mut dir = UserDirectory::new(Hasher::with_defaults());
    assert!(User::create(&mut dir, Role::User, &new_user("erin", "a"), 1).is_ok());
    let second = User::create(&mut dir, Role::User, &new_user("erin", "b"), 2);
    assert_eq!(second.unwrap_err(), ServiceError::Conflict);
    assert_eq!(dir.len(), 1);
}

#[test]
fn exhausted_ids_are_a_storage_error() {
    let mut dir = UserDirectory::new(Hasher::with_defaults());
    dir.next_id = i64::MAX;
    assert_eq!(User::next_id(&dir), Err(ServiceError::StorageError));
    let r = User::create(&mut dir, Role::User, &new_user("heidi", "h"), 1);
    assert_eq!(r.unwrap_err(), ServiceError::StorageError);
    assert_eq!(dir.len(), 0);
}

#[test]
fn next_id_of_empty_directory_is_one() {
    let dir = UserDirectory::new(Hasher::with_defaults());
    assert_eq!(User::next_id(&dir), Ok(1));
}

#[test]
fn delete_user_by_username() {
    let mut dir = UserDirectory::new(Hasher::with_defaults());
    User::create(&mut dir, Role::User, &new_user("ivan", "i"), 1).unwrap();
    let j = User::create(&mut dir, Role::User, &new_user("judy", "j"), 2).unwrap();
    let removed = User::delete(&mut dir, "ivan").unwrap();
    assert_eq!(removed.username, "ivan");
    assert_eq!(dir.len(), 1);
    assert_eq!(User::delete(&mut dir, "ivan").unwrap_err(), ServiceError::NotFound);
    assert_eq!(User::read(&dir, &j.token).unwrap().username, "judy");
    // Identifiers are never reused, so a new user gets a fresh token.
    let k = User::create(&mut dir, Role::User, &new_user("ivan", "i"), 3).unwrap();
    assert_eq!(k.id, 3);
}

#[test]
fn exists_admin_tracks_roles() {
    let mut dir = UserDirectory::new(Hasher::with_defaults());
    assert!(!User::exists_admin(&dir));
    User::create(&mut dir, Role::User, &new_user("ken", "k"), 1).unwrap();
    assert!(!User::exists_admin(&dir));
    User::create(&mut dir, Role::Admin, &new_user("root", "r"), 2).unwrap();
    assert!(User::exists_admin(&dir));
}

#[test]
fn bootstrap_creates_one_admin_once() {
    let mut dir = UserDirectory::new(Hasher::with_defaults());
    assert_eq!(bootstrap(&mut dir, &new_user("admin", "pw"), 10), Ok(()));
    assert_eq!(dir.len(), 1);
    let admin = &dir.users[0];
    assert_eq!(admin.role, Role::Admin);
    assert_eq!(admin.hashed_password, "52023d43878c23dfb2af74ea77cf25d4");
    assert_eq!(admin.token, "6ef93a314a565a8905fcfd4991d171db");
    assert_eq!(bootstrap(&mut dir, &new_user("other", "x"), 11), Ok(()));
    assert_eq!(dir.len(), 1);
}

#[test]
fn bootstrap_failure_is_reported() {
    let mut dir = UserDirectory::new(Hasher::with_defaults());
    dir.next_id = i64::MAX;
    assert_eq!(bootstrap(&mut dir, &new_user("admin", "pw"), 10), Err(ServiceError::StorageError));
    assert_eq!(dir.len(), 0);
}

#[test]
fn from_request_reads_the_token_header() {
    let mut dir = UserDirectory::new(Hasher::with_defaults());
    let u = User::create(&mut dir, Role::User, &new_user("leo", "l"), 1).unwrap();
    let found = User::from_request(&request_with_token(&u.token), &dir).unwrap();
    assert_eq!(found.username, "leo");
    assert!(User::from_request(&request_with_token("bad"), &dir).is_none());
    assert!(User::from_request(&Request::new(vec![]), &dir).is_none());
    let other_header = Request::new(vec![("x-other".to_string(), u.token.clone())]);
    assert!(User::from_request(&other_header, &dir).is_none());
}

#[test]
fn first_token_header_wins() {
    let mut dir = UserDirectory::new(Hasher::with_defaults());
    let u = User::create(&mut dir, Role::User, &new_user("mia", "m"), 1).unwrap();
    let req = Request::new(vec![
        ("accept".to_string(), "*/*".to_string()),
        ("x-api-token".to_string(), u.token.clone()),
        ("x-api-token".to_string(), "other".to_string()),
    ]);
    assert_eq!(req.header("x-api-token"), Some(u.token.as_str()));
    assert_eq!(req.header("missing"), None);
    assert!(User::from_request(&req, &dir).is_some());
}

#[test]
fn authorizer_tells_missing_identity_from_missing_role() {
    let mut dir = UserDirectory::new(Hasher::with_defaults());
    let admin = User::create(&mut dir, Role::Admin, &new_user("root", "r"), 1).unwrap();
    let plain = User::create(&mut dir, Role::User, &new_user("nina", "n"), 2).unwrap();
    let none = Request::new(vec![]);
    assert_eq!(authorize(&none, &dir).unwrap_err(), ServiceError::Unauthenticated);
    assert_eq!(authorize(&request_with_token("bad"), &dir).unwrap_err(), ServiceError::Unauthenticated);
    assert_eq!(authorize(&request_with_token(&plain.token), &dir).unwrap().username, "nina");
    assert_eq!(authorize_admin(&none, &dir).unwrap_err(), ServiceError::Unauthenticated);
    assert_eq!(
        authorize_admin(&request_with_token(&plain.token), &dir).unwrap_err(),
        ServiceError::Unauthorized
    );
    assert_eq!(authorize_admin(&request_with_token(&admin.token), &dir).unwrap().username, "root");
}

#[test]
fn decimal_text_of_numbers() {
    assert_eq!(decimal_text(0), "0");
    assert_eq!(decimal_text(7), "7");
    assert_eq!(decimal_text(10), "10");
    assert_eq!(decimal_text(1234567890), "1234567890");
    assert_eq!(decimal_text(u64::MAX), u64::MAX.to_string());
}

#[test]
fn admin_deletion_keeps_an_admin() {
    let mut dir = UserDirectory::new(Hasher::with_defaults());
    User::create(&mut dir, Role::Admin, &new_user("root", "r"), 1).unwrap();
    assert_eq!(User::delete(&mut dir, "root").unwrap_err(), ServiceError::Conflict);
    User::create(&mut dir, Role::Admin, &new_user("root2", "r"), 2).unwrap();
    assert_eq!(User::delete(&mut dir, "root").unwrap().username, "root");
    assert_eq!(User::delete(&mut dir, "root2").unwrap_err(), ServiceError::Conflict);
    assert!(User::exists_admin(&dir));
}
