use vstd::prelude::*;

verus! {

/// A stored identity: a username together with its password hash.
#[derive(Debug)]
pub struct User {
    pub username: String,
    pub password_hash: String,
}

impl User {
    pub fn new_test_user() -> (u: User)
        ensures
            u.username@ == "neo"@,
            u.password_hash@ == "hashed_password"@,
    {
        User { username: "neo".to_owned(), password_hash: "hashed_password".to_owned() }
    }
}

/// The single configured identity pair that the credential gate accepts.
/// Modeled as explicit configuration rather than module-level constants so
/// that it can be swapped out in tests.
#[derive(Debug)]
pub struct Credentials {
    pub username: String,
    pub password: String,
}

/// A login attempt as presented by a client.
#[derive(Debug)]
pub struct LoginRequest {
    pub username: String,
    pub password: String,
}

/// A successful login: the signed session token and its expiry, as a Unix
/// timestamp in seconds.
#[derive(Debug)]
pub struct LoginResponse {
    pub token: String,
    pub expires_at: i64,
}

/// The signed payload of a session token.
#[derive(Debug)]
pub struct Claims {
    /// Subject (username).
    pub sub: String,
    /// Expiration time, as a Unix timestamp in seconds.
    pub exp: i64,
    /// Issue time, as a Unix timestamp in seconds.
    pub iat: i64,
}

/// The mathematical content of a `Claims` value.
pub struct ClaimsView {
    pub sub: Seq<char>,
    pub exp: int,
    pub iat: int,
}

impl View for Claims {
    type V = ClaimsView;

    open spec fn view(&self) -> ClaimsView {
        ClaimsView { sub: self.sub@, exp: self.exp as int, iat: self.iat as int }
    }
}

/// A text-operation request carrying the source text.
#[derive(Debug)]
pub struct TextRequest {
    pub text: String,
}

/// A translation request: the source text and the language to translate to.
#[derive(Debug)]
pub struct TranslationRequest {
    pub text: String,
    pub target_language: TargetLanguage,
}

#[derive(Clone, Copy, Debug, PartialEq, Eq, Structural)]
pub enum TargetLanguage {
    English,
    Spanish,
}

/// A complete (non-streamed) text-operation result.
#[derive(Debug)]
pub struct TextResponse {
    pub result: String,
}

/// One event of the outward event stream, in wire form: an event name and
/// its data payload.
#[derive(Debug)]
pub struct SSEEvent {
    pub event: String,
    pub data: String,
}

} // verus!
