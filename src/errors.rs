//! Errors reported to HTTP callers, and how each one is answered.
use vstd::prelude::*;

verus! {

/// An error of a request handler.
#[derive(Debug)]
pub enum MyError {
    /// An internal failure, with its description.
    Failed(String),
    NotFound,
    /// The request was refused, with the reason given to the caller.
    BadRequest(String),
    NotAuthorized,
}

/// The HTTP status that answers an error.
pub open spec fn status_of(e: MyError) -> u16 {
    match e {
        MyError::Failed(_) => 500,
        MyError::NotFound => 404,
        MyError::BadRequest(_) => 400,
        MyError::NotAuthorized => 401,
    }
}

/// The body that answers an error.
pub open spec fn body_of(e: MyError) -> Seq<char> {
    match e {
        MyError::Failed(m) => "An internal error occurred: "@ + m@,
        MyError::NotFound => Seq::empty(),
        MyError::BadRequest(m) => m@,
        MyError::NotAuthorized => Seq::empty(),
    }
}

impl MyError {
    /// The HTTP status code of the response to this error.
    pub fn status_code(&self) -> (r: u16)
        ensures
            r == status_of(*self),
    {
        match self {
            MyError::Failed(_) => 500,
            MyError::NotFound => 404,
            MyError::BadRequest(_) => 400,
            MyError::NotAuthorized => 401,
        }
    }

    /// The body of the response to this error.
    pub fn body(&self) -> (r: String)
        ensures
            r@ == body_of(*self),
    {
        match self {
            MyError::Failed(m) => String::from_str("An internal error occurred: ").concat(m.as_str()),
            MyError::NotFound => String::new(),
            MyError::BadRequest(m) => String::from_str(m.as_str()),
            MyError::NotAuthorized => String::new(),
        }
    }
}

} // verus!
