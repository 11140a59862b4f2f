use pastr::api::{
    json_error_response, mail_accepted, registration_refused_response,
    registration_stored_response, ApiErrorMessage, ApiResponse, JsonPayloadFault,
};
use pastr::auth::AuthError;
use pastr::entity::RegistrationError;

#[test]
fn add_error() {
    let mut response = ApiResponse::new(false, "test error");
    response.add_error(ApiErrorMessage::user_already_exists());

    assert_eq!(
        response,
        ApiResponse {
            success: false,
            message: "test error",
            errors: Some(vec![ApiErrorMessage::user_already_exists()])
        }
    )
}

#[test]
fn add_error_appends_to_existing_list() {
    let first = ApiErrorMessage { message: "first", code: 7, field: "mail" };
    let mut response = ApiResponse::with_errors(false, "errors", vec![first.clone()]);
    response.add_error(ApiErrorMessage::user_already_exists());
    assert_eq!(
        response.errors,
        Some(vec![first, ApiErrorMessage::user_already_exists()])
    );
}

#[test]
fn user_already_exists_message() {
    let e = ApiErrorMessage::user_already_exists();
    assert_eq!(e.message, "user already exists");
    assert_eq!(e.code, 1);
    assert_eq!(e.field, "username");
}

#[test]
fn json_error_statuses() {
    let (s, r) = json_error_response(JsonPayloadFault::ContentType);
    assert_eq!(s, 415);
    assert_eq!(r, ApiResponse::new(false, "invalid content-type. expected json"));
    let (s, r) = json_error_response(JsonPayloadFault::MalformedData);
    assert_eq!(s, 422);
    assert_eq!(r, ApiResponse::new(false, "malformed json payload"));
    let (s, r) = json_error_response(JsonPayloadFault::Other);
    assert_eq!(s, 400);
    assert_eq!(r, ApiResponse::new(false, "unexpected json body"));
}

#[test]
fn registration_conflict_response() {
    let (s, r) = registration_refused_response(RegistrationError::DuplicatePrincipal);
    assert_eq!(s, 409);
    assert_eq!(
        r,
        ApiResponse::with_errors(
            false,
            "user already exists",
            vec![ApiErrorMessage::user_already_exists()]
        )
    );
    let (s, r) =
        registration_refused_response(RegistrationError::Hashing(AuthError::HashingFailed));
    assert_eq!(s, 500);
    assert_eq!(r, ApiResponse::new(false, "error while processing request"));
}

#[test]
fn registration_stored_responses() {
    let (s, r) = registration_stored_response(true);
    assert_eq!(s, 201);
    assert_eq!(r, ApiResponse::new(true, "user registration successful"));
    let (s, r) = registration_stored_response(false);
    assert_eq!(s, 500);
    assert_eq!(r, ApiResponse::new(false, "error while processing request"));
}

#[test]
fn mail_accepted_only_on_202() {
    assert!(mail_accepted(202));
    assert!(!mail_accepted(200));
    assert!(!mail_accepted(500));
}
