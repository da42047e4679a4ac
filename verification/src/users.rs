//! Validation and response selection for the mock user-creation endpoint.
//!
//! The endpoint accepts a request carrying a single `name` field, checks
//! that the name is long enough, and answers either `201 Created` with the
//! new user echoed back, or `400 Bad Request` with an empty body.

use vstd::prelude::*;

verus! {

use vstd::utf8::encode_utf8;

/// Minimum length, in UTF-8 bytes, that a username must have.
///
/// The user-facing rejection message speaks of a four-character minimum
/// while the check enforces three bytes; the mismatch is present in the
/// endpoint's observable behaviour and is kept here deliberately.
pub const MIN_NAME_BYTES: usize = 3;

/// HTTP status code for a successfully created user.
pub const STATUS_CREATED: u16 = 201;

/// HTTP status code for a request rejected by validation.
pub const STATUS_BAD_REQUEST: u16 = 400;

/// A request to create a user: a single text field.
pub struct CreateUser {
    pub name: String,
}

/// A user record, produced only when validation succeeds.
pub struct User {
    pub name: String,
}

/// A name is acceptable when its UTF-8 encoding is at least
/// `MIN_NAME_BYTES` bytes long.
pub open spec fn name_is_valid(name: Seq<char>) -> bool {
    encode_utf8(name).len() >= MIN_NAME_BYTES
}

/// The message returned when a name is rejected. It claims a
/// four-character minimum although three bytes suffice; see
/// `MIN_NAME_BYTES`.
pub open spec fn rejection_message() -> Seq<char> {
    "ユーザー名が短すぎます。4文字以上に設定してください。"@
}

/// Checks that `name` is long enough, and otherwise returns the
/// human-readable rejection message.
pub fn validate_username(name: &str) -> (result: Result<(), String>)
    ensures
        result is Ok <==> name_is_valid(name@),
        result matches Err(message) ==> message@ == rejection_message(),
{
    if name.as_bytes().len() < MIN_NAME_BYTES {
        return Err("ユーザー名が短すぎます。4文字以上に設定してください。".to_owned());
    }
    Ok(())
}

/// Decides the endpoint's answer to one creation request: the HTTP status
/// code, and the created user when validation passed.
///
/// A name of at least `MIN_NAME_BYTES` UTF-8 bytes is answered with
/// `201 Created` and a body echoing that name; a shorter one with
/// `400 Bad Request` and no body.
pub fn create_user(payload: CreateUser) -> (response: (u16, Option<User>))
    ensures
        name_is_valid(payload.name@) ==> response.0 == STATUS_CREATED,
        name_is_valid(payload.name@) ==> (response.1 matches Some(user)
            && user.name@ == payload.name@),
        !name_is_valid(payload.name@) ==> response.0 == STATUS_BAD_REQUEST,
        !name_is_valid(payload.name@) ==> response.1 is None,
{
    match validate_username(payload.name.as_str()) {
        Ok(()) => {
            let user = User { name: payload.name };
            (STATUS_CREATED, Some(user))
        },
        Err(_message) => (STATUS_BAD_REQUEST, None),
    }
}

} // verus!
