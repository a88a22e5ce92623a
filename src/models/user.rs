use vstd::prelude::*;
use crate::models::error::ServiceError;
use crate::models::hasher::{decimal, decimal_text, digest_of, is_hex_digest, Hasher};
use crate::models::request::{header_spec, Request, TOKEN_HEADER};

verus! {

/// The role of a user: administrators may create and delete users.
#[derive(Clone, Copy, Debug, PartialEq, Eq, Structural)]
pub enum Role {
    Admin,
    User,
}

pub open spec fn role_name(role: Role) -> Seq<char> {
    match role {
        Role::Admin => "admin"@,
        Role::User => "user"@,
    }
}

impl Role {
    /// The role's name as stored and shown: `admin` or `user`.
    pub fn as_str(&self) -> (r: &'static str)
        ensures
            r@ == role_name(*self),
    {
        match self {
            Role::Admin => "admin",
            Role::User => "user",
        }
    }
}

/// A user record. Timestamps are seconds since the Unix epoch.
#[derive(Clone, Debug)]
pub struct User {
    pub id: i64,
    pub username: String,
    pub hashed_password: String,
    pub role: Role,
    pub token: String,
    pub created_at: i64,
    pub updated_at: i64,
}

/// The mathematical value of a user record.
pub struct UserModel {
    pub id: i64,
    pub username: Seq<char>,
    pub hashed_password: Seq<char>,
    pub role: Role,
    pub token: Seq<char>,
    pub created_at: i64,
    pub updated_at: i64,
}

impl View for User {
    type V = UserModel;

    open spec fn view(&self) -> UserModel {
        UserModel {
            id: self.id,
            username: self.username@,
            hashed_password: self.hashed_password@,
            role: self.role,
            token: self.token@,
            created_at: self.created_at,
            updated_at: self.updated_at,
        }
    }
}

/// The credentials of a user to be created.
#[derive(Clone, Debug)]
pub struct NewUser {
    pub username: String,
    pub password: String,
}

/// The token handed to a newly created user.
#[derive(Clone, Debug)]
pub struct Token {
    pub token: String,
}

/// The users, in order of creation, and the identifier the next one receives.
pub struct DirectoryModel {
    pub users: Seq<UserModel>,
    pub next_id: i64,
}

/// The user directory: the user records and the hasher that derives their
/// password digests and tokens.
pub struct UserDirectory {
    pub users: Vec<User>,
    pub next_id: i64,
    pub hasher: Hasher,
}

impl View for UserDirectory {
    type V = DirectoryModel;

    open spec fn view(&self) -> DirectoryModel {
        DirectoryModel { users: self.users@.map_values(|u: User| u@), next_id: self.next_id }
    }
}

/// Identifiers are positive, increase in order of creation and stay below the
/// next one; usernames and tokens are unique; tokens and password digests are
/// 32 lowercase hexadecimal digits.
pub open spec fn users_wf(m: DirectoryModel) -> bool {
    &&& 1 <= m.next_id
    &&& forall|i: int|
        0 <= i < m.users.len() ==> is_hex_digest(#[trigger] m.users[i].token) && is_hex_digest(
            m.users[i].hashed_password,
        )
    &&& forall|i: int| 0 <= i < m.users.len() ==> 1 <= #[trigger] m.users[i].id < m.next_id
    &&& forall|i: int, j: int|
        0 <= i < j < m.users.len() ==> #[trigger] m.users[i].id < #[trigger] m.users[j].id
    &&& forall|i: int, j: int|
        0 <= i < m.users.len() && 0 <= j < m.users.len() && i != j
            ==> #[trigger] m.users[i].username != #[trigger] m.users[j].username
    &&& forall|i: int, j: int|
        0 <= i < m.users.len() && 0 <= j < m.users.len() && i != j
            ==> #[trigger] m.users[i].token != #[trigger] m.users[j].token
}

pub open spec fn has_username(users: Seq<UserModel>, name: Seq<char>) -> bool {
    exists|i: int| 0 <= i < users.len() && #[trigger] users[i].username == name
}

pub open spec fn username_index(users: Seq<UserModel>, name: Seq<char>) -> int {
    choose|i: int| 0 <= i < users.len() && #[trigger] users[i].username == name
}

pub open spec fn has_token(users: Seq<UserModel>, token: Seq<char>) -> bool {
    exists|i: int| 0 <= i < users.len() && #[trigger] users[i].token == token
}

pub open spec fn token_index(users: Seq<UserModel>, token: Seq<char>) -> int {
    choose|i: int| 0 <= i < users.len() && #[trigger] users[i].token == token
}

pub open spec fn has_admin(users: Seq<UserModel>) -> bool {
    exists|i: int| 0 <= i < users.len() && #[trigger] users[i].role == Role::Admin
}

/// The user that a token resolves to.
pub open spec fn resolve_spec(m: DirectoryModel, token: Seq<char>) -> Result<UserModel, ServiceError> {
    if has_token(m.users, token) {
        Ok(m.users[token_index(m.users, token)])
    } else {
        Err(ServiceError::NotFound)
    }
}

/// The record of a new user with identifier `id`: its password is stored as a
/// digest and its token is the digest of the identifier's decimal text.
pub open spec fn new_user_model(
    id: i64,
    role: Role,
    username: Seq<char>,
    password: Seq<char>,
    pepper: Seq<char>,
    salt: Seq<char>,
    now: i64,
) -> UserModel {
    UserModel {
        id,
        username,
        hashed_password: digest_of(pepper, password, salt),
        role,
        token: digest_of(pepper, decimal(id as nat), salt),
        created_at: now,
        updated_at: now,
    }
}

/// Creating a user: a taken username is a conflict; an exhausted identifier
/// space or a derived token that is already in use is a storage error.
pub open spec fn create_spec(
    m: DirectoryModel,
    pepper: Seq<char>,
    salt: Seq<char>,
    role: Role,
    username: Seq<char>,
    password: Seq<char>,
    now: i64,
) -> (DirectoryModel, Result<UserModel, ServiceError>) {
    if has_username(m.users, username) {
        (m, Err(ServiceError::Conflict))
    } else if m.next_id == i64::MAX {
        (m, Err(ServiceError::StorageError))
    } else {
        let u = new_user_model(m.next_id, role, username, password, pepper, salt, now);
        if has_token(m.users, u.token) {
            (m, Err(ServiceError::StorageError))
        } else {
            (DirectoryModel { users: m.users.push(u), next_id: (m.next_id + 1) as i64 }, Ok(u))
        }
    }
}

/// Whether a user other than the one at index `i` is an administrator.
pub open spec fn other_admin(users: Seq<UserModel>, i: int) -> bool {
    exists|j: int| 0 <= j < users.len() && j != i && #[trigger] users[j].role == Role::Admin
}

/// Deleting a user by username. The last administrator is never deleted: that
/// request is refused as a conflict.
pub open spec fn delete_spec(m: DirectoryModel, username: Seq<char>) -> (
    DirectoryModel,
    Result<UserModel, ServiceError>,
) {
    if has_username(m.users, username) {
        let i = username_index(m.users, username);
        if m.users[i].role == Role::Admin && !other_admin(m.users, i) {
            (m, Err(ServiceError::Conflict))
        } else {
            (DirectoryModel { users: m.users.remove(i), next_id: m.next_id }, Ok(m.users[i]))
        }
    } else {
        (m, Err(ServiceError::NotFound))
    }
}

/// The view of a result that carries a user record.
pub open spec fn user_result(r: Result<User, ServiceError>) -> Result<UserModel, ServiceError> {
    match r {
        Ok(u) => Ok(u@),
        Err(e) => Err(e),
    }
}

/// In a well-formed directory at most one user has a given token.
pub proof fn lemma_token_unique(m: DirectoryModel, token: Seq<char>, i: int)
    requires
        users_wf(m),
        0 <= i < m.users.len(),
        m.users[i].token == token,
    ensures
        has_token(m.users, token),
        token_index(m.users, token) == i,
{
    let k = token_index(m.users, token);
    assert(m.users[k].token == token);
}

/// In a well-formed directory at most one user has a given username.
pub proof fn lemma_username_unique(m: DirectoryModel, name: Seq<char>, i: int)
    requires
        users_wf(m),
        0 <= i < m.users.len(),
        m.users[i].username == name,
    ensures
        has_username(m.users, name),
        username_index(m.users, name) == i,
{
    let k = username_index(m.users, name);
    assert(m.users[k].username == name);
}

impl User {
    /// A copy of the record.
    pub fn duplicate(&self) -> (r: User)
        ensures
            r@ == self@,
    {
        User {
            id: self.id,
            username: self.username.clone(),
            hashed_password: self.hashed_password.clone(),
            role: self.role,
            token: self.token.clone(),
            created_at: self.created_at,
            updated_at: self.updated_at,
        }
    }

    pub fn is_admin(&self) -> (r: bool)
        ensures
            r == (self.role == Role::Admin),
    {
        self.role == Role::Admin
    }
}

/// A created user is found again by its token: resolving the token returned by
/// a successful `create` yields that very record, with the same username and
/// role.
pub proof fn lemma_created_user_resolves(
    m: DirectoryModel,
    pepper: Seq<char>,
    salt: Seq<char>,
    role: Role,
    username: Seq<char>,
    password: Seq<char>,
    now: i64,
)
    requires
        users_wf(m),
    ensures
        ({
            let (after, res) = create_spec(m, pepper, salt, role, username, password, now);
            match res {
                Ok(u) => {
                    &&& resolve_spec(after, u.token) == Ok::<UserModel, ServiceError>(u)
                    &&& u.username == username
                    &&& u.role == role
                },
                Err(_) => after == m,
            }
        }),
{
    let (after, res) = create_spec(m, pepper, salt, role, username, password, now);
    if res is Ok {
        let u = res->Ok_0;
        let n = m.users.len() as int;
        assert(after.users[n] == u);
        assert(has_token(after.users, u.token));
        let k = token_index(after.users, u.token);
        if k < n {
            assert(m.users[k] == after.users[k]);
            assert(has_token(m.users, u.token));
        }
    }
}

/// Of two creations with the same username, at most one succeeds: after a
/// successful one, the second is refused as a conflict.
pub proof fn lemma_username_taken_once(
    m: DirectoryModel,
    pepper: Seq<char>,
    salt: Seq<char>,
    username: Seq<char>,
    first: (Role, Seq<char>, i64),
    second: (Role, Seq<char>, i64),
)
    requires
        users_wf(m),
    ensures
        ({
            let (m1, r1) = create_spec(m, pepper, salt, first.0, username, first.1, first.2);
            let (_, r2) = create_spec(m1, pepper, salt, second.0, username, second.1, second.2);
            &&& r1 is Ok ==> r2 == Err::<UserModel, ServiceError>(ServiceError::Conflict)
            &&& !(r1 is Ok && r2 is Ok)
        }),
{
    let (m1, r1) = create_spec(m, pepper, salt, first.0, username, first.1, first.2);
    if r1 is Ok {
        let n = m.users.len() as int;
        assert(m1.users[n].username == username);
        assert(has_username(m1.users, username));
    }
}

/// Once an administrator exists, deleting any user leaves one.
pub proof fn lemma_delete_keeps_admin(m: DirectoryModel, username: Seq<char>)
    requires
        users_wf(m),
        has_admin(m.users),
    ensures
        has_admin(delete_spec(m, username).0.users),
{
    if has_username(m.users, username) {
        let i = username_index(m.users, username);
        let after = delete_spec(m, username).0.users;
        let k = if m.users[i].role == Role::Admin {
            if other_admin(m.users, i) {
                choose|j: int| 0 <= j < m.users.len() && j != i && #[trigger] m.users[j].role == Role::Admin
            } else {
                i
            }
        } else {
            choose|j: int| 0 <= j < m.users.len() && #[trigger] m.users[j].role == Role::Admin
        };
        if k != i {
            if k < i {
                assert(after[k] == m.users[k]);
            } else {
                assert(after[k - 1] == m.users[k]);
            }
        }
    }
}

impl UserDirectory {
    /// An empty directory whose first user receives identifier 1.
    pub fn new(hasher: Hasher) -> (r: UserDirectory)
        ensures
            r@.users.len() == 0,
            r@.next_id == 1,
            r.hasher == hasher,
            users_wf(r@),
    {
        UserDirectory { users: Vec::new(), next_id: 1, hasher }
    }

    pub open spec fn wf(&self) -> bool {
        users_wf(self@)
    }

    /// The number of users.
    pub fn len(&self) -> (r: usize)
        ensures
            r == self@.users.len(),
    {
        self.users.len()
    }

    fn find_token(&self, token: &str) -> (r: Option<usize>)
        ensures
            match r {
                Some(i) => i < self@.users.len() && self@.users[i as int].token == token@,
                None => !has_token(self@.users, token@),
            },
    {
        let wanted = token.to_owned();
        let mut i: usize = 0;
        while i < self.users.len()
            invariant
                i <= self.users@.len(),
                wanted@ == token@,
                self@.users.len() == self.users@.len(),
                forall|k: int| 0 <= k < i ==> #[trigger] self@.users[k].token != token@,
            decreases self.users@.len() - i,
        {
            if self.users[i].token == wanted {
                return Some(i);
            }
            i = i + 1;
        }
        None
    }

    fn has_other_admin(&self, skip: usize) -> (r: bool)
        ensures
            r == other_admin(self@.users, skip as int),
    {
        let mut j: usize = 0;
        while j < self.users.len()
            invariant
                j <= self.users@.len(),
                self@.users.len() == self.users@.len(),
                forall|k: int|
                    0 <= k < j && k != skip ==> #[trigger] self@.users[k].role != Role::Admin,
            decreases self.users@.len() - j,
        {
            if j != skip && self.users[j].is_admin() {
                assert(self@.users[j as int].role == Role::Admin);
                return true;
            }
            j = j + 1;
        }
        false
    }

    fn find_username(&self, username: &str) -> (r: Option<usize>)
        ensures
            match r {
                Some(i) => i < self@.users.len() && self@.users[i as int].username == username@,
                None => !has_username(self@.users, username@),
            },
    {
        let wanted = username.to_owned();
        let mut i: usize = 0;
        while i < self.users.len()
            invariant
                i <= self.users@.len(),
                wanted@ == username@,
                self@.users.len() == self.users@.len(),
                forall|k: int| 0 <= k < i ==> #[trigger] self@.users[k].username != username@,
            decreases self.users@.len() - i,
        {
            if self.users[i].username == wanted {
                return Some(i);
            }
            i = i + 1;
        }
        None
    }
}

impl User {
    /// The identifier the next created user receives, or a storage error when
    /// the identifier space is exhausted.
    pub fn next_id(dir: &UserDirectory) -> (r: Result<i64, ServiceError>)
        ensures
            dir@.next_id < i64::MAX ==> r == Ok::<i64, ServiceError>(dir@.next_id),
            dir@.next_id == i64::MAX ==> r == Err::<i64, ServiceError>(ServiceError::StorageError),
    {
        if dir.next_id < i64::MAX {
            Ok(dir.next_id)
        } else {
            Err(ServiceError::StorageError)
        }
    }

    /// Creates a user with `role`, storing the digest of its password and a
    /// token derived from its identifier; returns the full record.
    pub fn create(dir: &mut UserDirectory, role: Role, new: &NewUser, now: i64) -> (r: Result<
        User,
        ServiceError,
    >)
        requires
            old(dir).wf(),
        ensures
            final(dir).wf(),
            final(dir).hasher == old(dir).hasher,
            r is Ok ==> is_hex_digest(r->Ok_0.token@) && r->Ok_0.token@.len() == 32,
            (final(dir)@, user_result(r)) == create_spec(
                old(dir)@,
                old(dir).hasher.pepper@,
                old(dir).hasher.salt@,
                role,
                new.username@,
                new.password@,
                now,
            ),
    {
        if dir.find_username(new.username.as_str()).is_some() {
            return Err(ServiceError::Conflict);
        }
        let id = match User::next_id(dir) {
            Ok(id) => id,
            Err(e) => return Err(e),
        };
        let hashed_password = dir.hasher.digest(new.password.as_str());
        let id_text = decimal_text(id as u64);
        let token = dir.hasher.digest(id_text.as_str());
        if dir.find_token(token.as_str()).is_some() {
            return Err(ServiceError::StorageError);
        }
        let user = User {
            id,
            username: new.username.clone(),
            hashed_password,
            role,
            token,
            created_at: now,
            updated_at: now,
        };
        let ghost old_users = dir@.users;
        let result = user.duplicate();
        dir.users.push(user);
        dir.next_id = id + 1;
        assert(dir@.users =~= old_users.push(result@));
        assert forall|i: int| 0 <= i < dir@.users.len() implies is_hex_digest(
            #[trigger] dir@.users[i].token,
        ) && is_hex_digest(dir@.users[i].hashed_password) by {
            if i < old_users.len() {
                assert(dir@.users[i] == old_users[i]);
            }
        }
        Ok(result)
    }

    /// The user whose token is `token`.
    pub fn read(dir: &UserDirectory, token: &str) -> (r: Result<User, ServiceError>)
        requires
            dir.wf(),
        ensures
            user_result(r) == resolve_spec(dir@, token@),
    {
        match dir.find_token(token) {
            Some(i) => {
                proof {
                    lemma_token_unique(dir@, token@, i as int);
                }
                Ok(dir.users[i].duplicate())
            },
            None => Err(ServiceError::NotFound),
        }
    }

    /// Removes the user named `username` and returns its record, unless it is
    /// the last administrator. The user's key-value entries are kept: deletion
    /// does not cascade to the store.
    pub fn delete(dir: &mut UserDirectory, username: &str) -> (r: Result<User, ServiceError>)
        requires
            old(dir).wf(),
        ensures
            final(dir).wf(),
            final(dir).hasher == old(dir).hasher,
            (final(dir)@, user_result(r)) == delete_spec(old(dir)@, username@),
    {
        match dir.find_username(username) {
            Some(i) => {
                proof {
                    lemma_username_unique(dir@, username@, i as int);
                }
                if dir.users[i].is_admin() && !dir.has_other_admin(i) {
                    return Err(ServiceError::Conflict);
                }
                let ghost old_users = dir@.users;
                let removed = dir.users.remove(i);
                assert(dir@.users =~= old_users.remove(i as int));
                Ok(removed)
            },
            None => Err(ServiceError::NotFound),
        }
    }

    /// Whether some user has the administrator role.
    pub fn exists_admin(dir: &UserDirectory) -> (r: bool)
        ensures
            r == has_admin(dir@.users),
    {
        let mut i: usize = 0;
        while i < dir.users.len()
            invariant
                i <= dir.users@.len(),
                dir@.users.len() == dir.users@.len(),
                forall|k: int| 0 <= k < i ==> #[trigger] dir@.users[k].role != Role::Admin,
            decreases dir.users@.len() - i,
        {
            if dir.users[i].is_admin() {
                assert(dir@.users[i as int].role == Role::Admin);
                return true;
            }
            i = i + 1;
        }
        false
    }

    /// The user identified by the request's token header, if there is one.
    pub fn from_request(req: &Request, dir: &UserDirectory) -> (r: Option<User>)
        requires
            dir.wf(),
        ensures
            match r {
                Some(u) => caller_spec(req@, dir@) == Some(u@),
                None => caller_spec(req@, dir@).is_none(),
            },
    {
        match req.header(TOKEN_HEADER) {
            Some(token) => match User::read(dir, token) {
                Ok(user) => Some(user),
                Err(_) => None,
            },
            None => None,
        }
    }
}

/// The identity a request resolves to: the user whose token the request's
/// token header carries.
pub open spec fn caller_spec(headers: Seq<(Seq<char>, Seq<char>)>, m: DirectoryModel) -> Option<
    UserModel,
> {
    match header_spec(headers, TOKEN_HEADER@) {
        Some(t) => match resolve_spec(m, t) {
            Ok(u) => Some(u),
            Err(_) => None,
        },
        None => None,
    }
}

/// Resolves the caller of a request: `Unauthenticated` when the token header is
/// missing or its token belongs to no user.
pub fn authorize(req: &Request, dir: &UserDirectory) -> (r: Result<User, ServiceError>)
    requires
        dir.wf(),
    ensures
        match caller_spec(req@, dir@) {
            Some(c) => user_result(r) == Ok::<UserModel, ServiceError>(c),
            None => r == Err::<User, ServiceError>(ServiceError::Unauthenticated),
        },
{
    match User::from_request(req, dir) {
        Some(user) => Ok(user),
        None => Err(ServiceError::Unauthenticated),
    }
}

/// Resolves a caller that must be an administrator: `Unauthenticated` without a
/// valid token, `Unauthorized` for a valid token of an ordinary user.
pub fn authorize_admin(req: &Request, dir: &UserDirectory) -> (r: Result<User, ServiceError>)
    requires
        dir.wf(),
    ensures
        match caller_spec(req@, dir@) {
            Some(c) => if c.role == Role::Admin {
                user_result(r) == Ok::<UserModel, ServiceError>(c)
            } else {
                r == Err::<User, ServiceError>(ServiceError::Unauthorized)
            },
            None => r == Err::<User, ServiceError>(ServiceError::Unauthenticated),
        },
{
    match authorize(req, dir) {
        Ok(user) => if user.is_admin() {
            Ok(user)
        } else {
            Err(ServiceError::Unauthorized)
        },
        Err(e) => Err(e),
    }
}

/// Creates the administrator from `admin` unless one exists already.
pub fn bootstrap(dir: &mut UserDirectory, admin: &NewUser, now: i64) -> (r: Result<(), ServiceError>)
    requires
        old(dir).wf(),
    ensures
        final(dir).wf(),
        final(dir).hasher == old(dir).hasher,
        has_admin(old(dir)@.users) ==> final(dir)@ == old(dir)@ && r is Ok,
        !has_admin(old(dir)@.users) ==> {
            let (m, res) = create_spec(
                old(dir)@,
                old(dir).hasher.pepper@,
                old(dir).hasher.salt@,
                Role::Admin,
                admin.username@,
                admin.password@,
                now,
            );
            &&& final(dir)@ == m
            &&& match res {
                Ok(_) => r is Ok,
                Err(e) => r == Err::<(), ServiceError>(e),
            }
        },
{
    if User::exists_admin(dir) {
        return Ok(());
    }
    match User::create(dir, Role::Admin, admin, now) {
        Ok(_) => Ok(()),
        Err(e) => Err(e),
    }
}

} // verus!
