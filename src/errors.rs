use vstd::prelude::*;

verus! {

/// The body sent for every failure that is not the client's to see.
pub const GENERIC_MESSAGE: &'static str = "Something went wrong";

/// A handler's failure.
pub enum ErrorKind {
    /// Malformed input or a broken business rule (such as a duplicate name).
    BadRequest(String),
    /// A missing entity or an unmatched route.
    DoesNotExist(String),
    /// Any other failure (storage, I/O, connection pool, encoding); the text is
    /// for the server log only.
    Internal(String),
}

/// The status code that a failure is answered with.
pub open spec fn status_of(e: ErrorKind) -> u16 {
    match e {
        ErrorKind::BadRequest(_) => 400,
        ErrorKind::DoesNotExist(_) => 404,
        ErrorKind::Internal(_) => 500,
    }
}

/// The plain-text body that a failure is answered with: the message of an
/// expected failure, and a fixed text for any other.
pub open spec fn body_of(e: ErrorKind) -> Seq<char> {
    match e {
        ErrorKind::BadRequest(s) => s@,
        ErrorKind::DoesNotExist(s) => s@,
        ErrorKind::Internal(_) => GENERIC_MESSAGE@,
    }
}

/// A plain-text answer to a request.
pub struct TextReply {
    pub status: u16,
    pub body: String,
}

impl ErrorKind {
    /// The status code for this failure.
    pub fn status_code(&self) -> (r: u16)
        ensures
            r == status_of(*self),
    {
        match self {
            ErrorKind::BadRequest(_) => 400,
            ErrorKind::DoesNotExist(_) => 404,
            ErrorKind::Internal(_) => 500,
        }
    }

    /// The body that the client sees for this failure.
    pub fn client_message(&self) -> (r: String)
        ensures
            r@ == body_of(*self),
    {
        match self {
            ErrorKind::BadRequest(s) => s.clone(),
            ErrorKind::DoesNotExist(s) => s.clone(),
            ErrorKind::Internal(_) => String::from_str(GENERIC_MESSAGE),
        }
    }

    /// The full plain-text answer for this failure.
    pub fn to_reply(&self) -> (r: TextReply)
        ensures
            r.status == status_of(*self),
            r.body@ == body_of(*self),
    {
        TextReply { status: self.status_code(), body: self.client_message() }
    }

    /// Whether this failure is one of the two that the client is meant to see.
    pub fn is_expected(&self) -> (r: bool)
        ensures
            r == !(*self is Internal),
    {
        !matches!(self, ErrorKind::Internal(_))
    }
}

/// The status code of a handler's outcome: 200 on success, else that of the failure.
pub open spec fn outcome_status<T>(r: Result<T, ErrorKind>) -> u16 {
    match r {
        Ok(_) => 200,
        Err(e) => status_of(e),
    }
}

/// The status code that a handler's outcome is answered with.
pub fn reply_status<T>(r: &Result<T, ErrorKind>) -> (s: u16)
    ensures
        s == outcome_status(*r),
{
    match r {
        Ok(_) => 200,
        Err(e) => e.status_code(),
    }
}

/// The client learns the message of a bad request (400) or of a missing
/// entity (404); any other failure is a 500 whose body is the fixed generic
/// text, whatever its internal detail.
pub proof fn lemma_status_mapping(e: ErrorKind)
    ensures
        e matches ErrorKind::BadRequest(m) ==> status_of(e) == 400 && body_of(e) == m@,
        e matches ErrorKind::DoesNotExist(m) ==> status_of(e) == 404 && body_of(e) == m@,
        e is Internal ==> status_of(e) == 500 && body_of(e) == GENERIC_MESSAGE@,
{
}

} // verus!
