use vstd::prelude::*;

verus! {

pub const STATUS_OK: u16 = 200;
pub const STATUS_CREATED: u16 = 201;
pub const STATUS_UNAUTHORIZED: u16 = 401;
pub const STATUS_FORBIDDEN: u16 = 403;
pub const STATUS_NOT_FOUND: u16 = 404;
pub const STATUS_UNPROCESSABLE: u16 = 422;

/// What a handler answers: an HTTP status and, on success, the value to send.
pub struct Response<T> {
    pub status: u16,
    pub body: Option<T>,
}

impl<T> Response<T> {
    pub fn with_body(status: u16, body: T) -> (r: Response<T>)
        ensures
            r.status == status,
            r.body == Some(body),
    {
        Response { status, body: Some(body) }
    }

    pub fn empty(status: u16) -> (r: Response<T>)
        ensures
            r.status == status,
            r.body.is_none(),
    {
        Response { status, body: None }
    }
}

} // verus!
