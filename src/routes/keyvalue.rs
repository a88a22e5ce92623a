use vstd::prelude::*;
use crate::models::keyvalue::{
    create_spec, delete_spec, read_spec, update_spec, KeyValue, KeyValueModel, KeyValueStore,
    NewKeyValue, StoreModel,
};
use crate::models::error::ServiceError;
use crate::models::request::Request;
use crate::models::user::{authorize, caller_spec, UserDirectory};
use crate::routes::response::{
    Response, STATUS_CREATED, STATUS_FORBIDDEN, STATUS_NOT_FOUND, STATUS_OK, STATUS_UNPROCESSABLE,
};

verus! {

/// A reply that carries the entry of a store result on success, and nothing
/// with `failure` otherwise.
pub open spec fn entry_reply(
    res: Result<KeyValueModel, ServiceError>,
    success: u16,
    failure: u16,
    r: Response<KeyValue>,
) -> bool {
    match res {
        Ok(e) => r.status == success && match r.body {
            Some(b) => b@ == e,
            None => false,
        },
        Err(_) => r.status == failure && r.body.is_none(),
    }
}

/// The answer to a caller `owner` storing `key` at time `now`.
pub open spec fn create_reply(
    before: StoreModel,
    owner: i64,
    key: Seq<char>,
    value: Seq<char>,
    now: i64,
    after: StoreModel,
    r: Response<KeyValue>,
) -> bool {
    let (m, res) = create_spec(before, owner, key, value, now);
    after == m && entry_reply(res, STATUS_CREATED, STATUS_UNPROCESSABLE, r)
}

/// The answer to a caller `owner` updating `key` at time `now`.
pub open spec fn update_reply(
    before: StoreModel,
    owner: i64,
    key: Seq<char>,
    value: Seq<char>,
    now: i64,
    after: StoreModel,
    r: Response<KeyValue>,
) -> bool {
    let (m, res) = update_spec(before, owner, key, value, now);
    after == m && entry_reply(res, STATUS_OK, STATUS_UNPROCESSABLE, r)
}

/// Stores a new entry of the caller at time `now`: 201 with the entry, 403 without a valid
/// token, 422 when the store refuses it.
pub fn create(
    req: &Request,
    dir: &UserDirectory,
    store: &mut KeyValueStore,
    new: &NewKeyValue,
    now: i64,
) -> (r: Response<KeyValue>)
    requires
        dir.wf(),
        old(store).wf(),
    ensures
        final(store).wf(),
        match caller_spec(req@, dir@) {
            Some(c) => create_reply(
                    old(store)@,
                    c.id,
                    new.key@,
                    new.value@,
                    now,
                    final(store)@,
                    r,
                ),
            None => r.status == STATUS_FORBIDDEN && r.body.is_none() && final(store)@ == old(
                store,
            )@,
        },
{
    match authorize(req, dir) {
        Ok(caller) => {
            let ghost before = store@;
            let res = KeyValue::create(store, caller.id, new, now);
            let r = match res {
                Ok(e) => Response::with_body(STATUS_CREATED, e),
                Err(_) => Response::empty(STATUS_UNPROCESSABLE),
            };
            assert(create_reply(before, caller@.id, new.key@, new.value@, now, store@, r));
            r
        },
        Err(_) => Response::empty(STATUS_FORBIDDEN),
    }
}

/// The value the caller stores under `key`: 200 with it, 403 without a valid
/// token, 404 when the caller has no such entry.
pub fn read(req: &Request, dir: &UserDirectory, store: &KeyValueStore, key: &str) -> (r: Response<
    String,
>)
    requires
        dir.wf(),
        store.wf(),
    ensures
        match caller_spec(req@, dir@) {
            Some(c) => match read_spec(store@, c.id, key@) {
                Ok(e) => r.status == STATUS_OK && match r.body {
                    Some(v) => v@ == e.value,
                    None => false,
                },
                Err(_) => r.status == STATUS_NOT_FOUND && r.body.is_none(),
            },
            None => r.status == STATUS_FORBIDDEN && r.body.is_none(),
        },
{
    match authorize(req, dir) {
        Ok(caller) => match KeyValue::read(store, caller.id, key) {
            Ok(e) => Response::with_body(STATUS_OK, e.value),
            Err(_) => Response::empty(STATUS_NOT_FOUND),
        },
        Err(_) => Response::empty(STATUS_FORBIDDEN),
    }
}

/// Replaces the value of the caller's entry at time `now`: 200 with the entry, 403 without a
/// valid token, 422 when the caller has no such entry.
pub fn update(
    req: &Request,
    dir: &UserDirectory,
    store: &mut KeyValueStore,
    new: &NewKeyValue,
    now: i64,
) -> (r: Response<KeyValue>)
    requires
        dir.wf(),
        old(store).wf(),
    ensures
        final(store).wf(),
        match caller_spec(req@, dir@) {
            Some(c) => update_reply(
                    old(store)@,
                    c.id,
                    new.key@,
                    new.value@,
                    now,
                    final(store)@,
                    r,
                ),
            None => r.status == STATUS_FORBIDDEN && r.body.is_none() && final(store)@ == old(
                store,
            )@,
        },
{
    match authorize(req, dir) {
        Ok(caller) => {
            let ghost before = store@;
            let res = KeyValue::update(store, caller.id, new, now);
            let r = match res {
                Ok(e) => Response::with_body(STATUS_OK, e),
                Err(_) => Response::empty(STATUS_UNPROCESSABLE),
            };
            assert(update_reply(before, caller@.id, new.key@, new.value@, now, store@, r));
            r
        },
        Err(_) => Response::empty(STATUS_FORBIDDEN),
    }
}

/// Removes the caller's entry under `key`: 200 with the entry, 403 without a
/// valid token, 422 when the caller has no such entry.
pub fn delete(req: &Request, dir: &UserDirectory, store: &mut KeyValueStore, key: &str) -> (r:
    Response<KeyValue>)
    requires
        dir.wf(),
        old(store).wf(),
    ensures
        final(store).wf(),
        match caller_spec(req@, dir@) {
            Some(c) => {
                let (m, res) = delete_spec(old(store)@, c.id, key@);
                final(store)@ == m && entry_reply(res, STATUS_OK, STATUS_UNPROCESSABLE, r)
            },
            None => r.status == STATUS_FORBIDDEN && r.body.is_none() && final(store)@ == old(
                store,
            )@,
        },
{
    match authorize(req, dir) {
        Ok(caller) => match KeyValue::delete(store, caller.id, key) {
            Ok(e) => Response::with_body(STATUS_OK, e),
            Err(_) => Response::empty(STATUS_UNPROCESSABLE),
        },
        Err(_) => Response::empty(STATUS_FORBIDDEN),
    }
}

} // verus!
