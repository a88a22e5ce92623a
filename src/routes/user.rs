use vstd::prelude::*;
use crate::models::error::ServiceError;
use crate::models::request::Request;
use crate::models::user::{
    authorize, authorize_admin, caller_spec, create_spec, delete_spec, DirectoryModel, NewUser, Role, Token, User,
    UserDirectory,
};
use crate::routes::response::{
    Response, STATUS_CREATED, STATUS_NOT_FOUND, STATUS_OK, STATUS_UNAUTHORIZED,
    STATUS_UNPROCESSABLE,
};

verus! {

/// The answer to an administrator's request to create `username` at time `now`.
pub open spec fn create_reply(
    before: DirectoryModel,
    pepper: Seq<char>,
    salt: Seq<char>,
    username: Seq<char>,
    password: Seq<char>,
    now: i64,
    after: DirectoryModel,
    r: Response<Token>,
) -> bool {
    let (m, res) = create_spec(before, pepper, salt, Role::User, username, password, now);
    &&& after == m
    &&& match res {
        Ok(u) => r.status == STATUS_CREATED && match r.body {
            Some(t) => t.token@ == u.token,
            None => false,
        },
        Err(_) => r.status == STATUS_UNPROCESSABLE && r.body.is_none(),
    }
}

/// Creates an ordinary user at time `now`; only an administrator may. Answers
/// 201 with the
/// new user's token, 401 without an administrator's token, 422 when the
/// directory refuses the user.
pub fn create(req: &Request, dir: &mut UserDirectory, new: &NewUser, now: i64) -> (r: Response<
    Token,
>)
    requires
        old(dir).wf(),
    ensures
        final(dir).wf(),
        final(dir).hasher == old(dir).hasher,
        match caller_spec(req@, old(dir)@) {
            Some(c) if c.role == Role::Admin => create_reply(
                    old(dir)@,
                    old(dir).hasher.pepper@,
                    old(dir).hasher.salt@,
                    new.username@,
                    new.password@,
                    now,
                    final(dir)@,
                    r,
                ),
            _ => r.status == STATUS_UNAUTHORIZED && r.body.is_none() && final(dir)@ == old(dir)@,
        },
{
    match authorize_admin(req, dir) {
        Ok(_) => {
            let ghost before = dir@;
            match User::create(dir, Role::User, new, now) {
                Ok(user) => {
                    let r = Response::with_body(STATUS_CREATED, Token { token: user.token });
                    assert(create_reply(
                        before,
                        dir.hasher.pepper@,
                        dir.hasher.salt@,
                        new.username@,
                        new.password@,
                        now,
                        dir@,
                        r,
                    ));
                    r
                },
                Err(_) => {
                    let r = Response::empty(STATUS_UNPROCESSABLE);
                    assert(create_reply(
                        before,
                        dir.hasher.pepper@,
                        dir.hasher.salt@,
                        new.username@,
                        new.password@,
                        now,
                        dir@,
                        r,
                    ));
                    r
                },
            }
        },
        Err(_) => Response::empty(STATUS_UNAUTHORIZED),
    }
}

/// The caller's own record: 200 with it for a valid token, else 422.
pub fn read(req: &Request, dir: &UserDirectory) -> (r: Response<User>)
    requires
        dir.wf(),
    ensures
        match caller_spec(req@, dir@) {
            Some(c) => r.status == STATUS_OK && match r.body {
                Some(u) => u@ == c,
                None => false,
            },
            None => r.status == STATUS_UNPROCESSABLE && r.body.is_none(),
        },
{
    match authorize(req, dir) {
        Ok(caller) => Response::with_body(STATUS_OK, caller),
        Err(_) => Response::empty(STATUS_UNPROCESSABLE),
    }
}

/// Deletes the user named `username`; only an administrator may. Answers 200,
/// 401 without an administrator's token, 404 when no such user exists, 422 when
/// it is the last administrator.
pub fn delete(req: &Request, dir: &mut UserDirectory, username: &str) -> (r: Response<()>)
    requires
        old(dir).wf(),
    ensures
        final(dir).wf(),
        final(dir).hasher == old(dir).hasher,
        r.body.is_none(),
        match caller_spec(req@, old(dir)@) {
            Some(c) if c.role == Role::Admin => {
                let (m, res) = delete_spec(old(dir)@, username@);
                &&& final(dir)@ == m
                &&& r.status == match res {
                    Ok(_) => STATUS_OK,
                    Err(ServiceError::NotFound) => STATUS_NOT_FOUND,
                    Err(_) => STATUS_UNPROCESSABLE,
                }
            },
            _ => r.status == STATUS_UNAUTHORIZED && final(dir)@ == old(dir)@,
        },
{
    match authorize_admin(req, dir) {
        Ok(_) => match User::delete(dir, username) {
            Ok(_) => Response::empty(STATUS_OK),
            Err(ServiceError::NotFound) => Response::empty(STATUS_NOT_FOUND),
            Err(_) => Response::empty(STATUS_UNPROCESSABLE),
        },
        Err(_) => Response::empty(STATUS_UNAUTHORIZED),
    }
}

} // verus!
