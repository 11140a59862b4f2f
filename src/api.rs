//! Bodies of the JSON API's responses, and the status and body each outcome
//! of a request is answered with.
use crate::entity::RegistrationError;
use vstd::prelude::*;

verus! {

/// One error reported to an API client.
#[derive(Debug, Clone, PartialEq)]
pub struct ApiErrorMessage<'a> {
    pub message: &'a str,
    pub code: u32,
    pub field: &'a str,
}

impl<'a> ApiErrorMessage<'a> {
    /// The error for a registration whose handle is taken.
    pub fn user_already_exists() -> (r: Self)
        ensures
            r.message@ == "user already exists"@,
            r.code == 1,
            r.field@ == "username"@,
    {
        ApiErrorMessage { message: "user already exists", code: 1, field: "username" }
    }
}

/// The body of every API response.
#[derive(Debug, Clone, PartialEq)]
pub struct ApiResponse<'a> {
    pub success: bool,
    pub message: &'a str,
    pub errors: Option<Vec<ApiErrorMessage<'a>>>,
}

impl<'a> ApiResponse<'a> {
    /// A response without an error list.
    pub fn new(success: bool, message: &'a str) -> (r: Self)
        ensures
            r.success == success,
            r.message == message,
            r.errors is None,
    {
        ApiResponse { success, message, errors: None }
    }

    /// Append `error` to the error list, starting one if there is none.
    pub fn add_error(&mut self, error: ApiErrorMessage<'a>)
        ensures
            final(self).success == old(self).success,
            final(self).message == old(self).message,
            final(self).errors matches Some(v) && v@ == match old(self).errors {
                None => seq![error],
                Some(w) => w@.push(error),
            },
    {
        match self.errors.take() {
            None => {
                self.errors = Some(vec![error]);
            },
            Some(mut v) => {
                v.push(error);
                self.errors = Some(v);
            },
        }
    }

    /// A response with the given error list.
    pub fn with_errors(success: bool, message: &'a str, errors: Vec<ApiErrorMessage<'a>>) -> (r:
        Self)
        ensures
            r.success == success,
            r.message == message,
            r.errors == Some(errors),
    {
        ApiResponse { success, message, errors: Some(errors) }
    }
}

/// The fields of a registration request.
pub struct UserData {
    pub username: String,
    pub mail: String,
    pub password: String,
}

/// What was wrong with a JSON request body.
#[derive(Debug, Copy, Clone, PartialEq, Eq, Structural)]
pub enum JsonPayloadFault {
    /// The request did not declare JSON content.
    ContentType,
    /// The body is JSON, but not of the expected shape.
    MalformedData,
    /// Anything else: syntax errors, overflow, I/O.
    Other,
}

/// The status and body that answer a JSON request body that was refused.
pub fn json_error_response(fault: JsonPayloadFault) -> (r: (u16, ApiResponse<'static>))
    ensures
        !r.1.success,
        r.1.errors is None,
        fault == JsonPayloadFault::ContentType ==> r.0 == 415 && r.1.message@
            == "invalid content-type. expected json"@,
        fault == JsonPayloadFault::MalformedData ==> r.0 == 422 && r.1.message@
            == "malformed json payload"@,
        fault == JsonPayloadFault::Other ==> r.0 == 400 && r.1.message@ == "unexpected json body"@,
{
    match fault {
        JsonPayloadFault::ContentType => (
            415,
            ApiResponse::new(false, "invalid content-type. expected json"),
        ),
        JsonPayloadFault::MalformedData => (422, ApiResponse::new(false, "malformed json payload")),
        JsonPayloadFault::Other => (400, ApiResponse::new(false, "unexpected json body")),
    }
}

/// The status and body that answer a registration that was refused: a conflict
/// for a taken handle or contact address, an internal error otherwise.
pub fn registration_refused_response(e: RegistrationError) -> (r: (u16, ApiResponse<'static>))
    ensures
        !r.1.success,
        e == RegistrationError::DuplicatePrincipal ==> {
            &&& r.0 == 409
            &&& r.1.message@ == "user already exists"@
            &&& r.1.errors matches Some(v) && v@.len() == 1 && v@[0].code == 1
                && v@[0].message@ == "user already exists"@ && v@[0].field@ == "username"@
        },
        e != RegistrationError::DuplicatePrincipal ==> {
            &&& r.0 == 500
            &&& r.1.message@ == "error while processing request"@
            &&& r.1.errors is None
        },
{
    match e {
        RegistrationError::DuplicatePrincipal => (
            409,
            ApiResponse::with_errors(
                false,
                "user already exists",
                vec![ApiErrorMessage::user_already_exists()],
            ),
        ),
        _ => (500, ApiResponse::new(false, "error while processing request")),
    }
}

/// The status and body that answer a registration that was stored, once the
/// activation mail was handed to the mail service or not. The account stays
/// registered either way.
pub fn registration_stored_response(mail_accepted: bool) -> (r: (u16, ApiResponse<'static>))
    ensures
        r.1.success == mail_accepted,
        r.1.errors is None,
        mail_accepted ==> r.0 == 201 && r.1.message@ == "user registration successful"@,
        !mail_accepted ==> r.0 == 500 && r.1.message@ == "error while processing request"@,
{
    if mail_accepted {
        (201, ApiResponse::new(true, "user registration successful"))
    } else {
        (500, ApiResponse::new(false, "error while processing request"))
    }
}

/// Whether the mail service accepted a message, from its HTTP status.
pub fn mail_accepted(status: u16) -> (r: bool)
    ensures
        r == (status == 202),
{
    status == 202
}

} // verus!
