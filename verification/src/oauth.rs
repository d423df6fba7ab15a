//! Signing in with Google: the addresses and request bodies the server builds, and
//! the decisions it takes at each answer it gets while signing a user in.
use vstd::prelude::*;
use crate::text::{append_chars, append_str, chars_of, push_signed_decimal, signed_decimal, string_from_chars, trim, trimmed};

verus! {

/// The answer Google redirects the user back with.
pub struct GoogleResponse {
    pub code: String,
}

/// The token Google issues for an authorization code.
pub struct IdToken {
    pub access_token: String,
    pub id_token: String,
}

/// A stored user.
pub struct User {
    pub id: i32,
    pub email: String,
}

/// A user to be stored.
pub struct NewUser {
    email: String,
}

impl NewUser {
    /// The address of the user to be stored.
    pub closed spec fn email_spec(&self) -> Seq<char> {
        self.email@
    }

    /// A user to be stored with the address `email`.
    pub fn new(email: &str) -> (u: Self)
        ensures
            u.email_spec() == email@,
    {
        Self { email: email.to_owned() }
    }

    /// The address of the user to be stored.
    pub fn email(&self) -> (r: &String)
        ensures
            r@ == self.email_spec(),
    {
        &self.email
    }
}

/// What the server answers a sign-in with: the user's identity, or an error.
pub struct Jwt {
    pub id: Option<i32>,
    pub email: Option<String>,
    pub name: Option<String>,
    pub error: Option<String>,
}

impl Default for Jwt {
    fn default() -> (j: Self)
        ensures
            j.id is None,
            j.email is None,
            j.name is None,
            j.error is None,
    {
        Jwt { id: None, email: None, name: None, error: None }
    }
}

impl Jwt {
    /// The identity of a stored user.
    pub fn from_user(user: User) -> (j: Self)
        ensures
            j.id == Some(user.id),
            j.email == Some(user.email),
            j.name is None,
            j.error is None,
    {
        Self { id: Some(user.id), email: Some(user.email), name: None, error: None }
    }

    /// An answer that only reports the error `text`.
    pub fn error(text: &str) -> (j: Self)
        ensures
            j.id is None,
            j.email is None,
            j.name is None,
            j.error matches Some(e) && e@ == text@,
    {
        Self { error: Some(text.to_owned()), ..Self::default() }
    }
}

/// The application's settings for talking to Google.
pub struct YamlData {
    pub redirect_url: String,
    pub client_id: String,
    pub client_secret: String,
}

/// The kind of a failed sign-in.
#[derive(PartialEq, Eq, Structural, Clone, Copy, Debug)]
pub enum ErrorKind {
    InvalidData,
    InvalidInput,
    NotFound,
}

/// A failed sign-in: its kind and what went wrong.
pub struct LoginError {
    pub kind: ErrorKind,
    pub description: String,
}

/// What the server does next while signing a user in.
pub enum LoginAction {
    /// Ask Google for a token, with this form body.
    RequestIdToken { body: String },
    /// Ask Google who the token belongs to.
    RequestJwt { id_token: IdToken },
    /// Look the user up by address.
    SelectUser { email: String },
    /// Store a new user.
    CreateUser { user: NewUser },
    /// Answer the request.
    Respond(Result<Jwt, LoginError>),
}

/// The answer that reports `description` as an error of `kind`.
pub open spec fn is_failure(action: LoginAction, kind: ErrorKind, description: Seq<char>) -> bool {
    action matches LoginAction::Respond(Err(e)) && e.kind == kind && e.description@ == description
}

/// The form body that exchanges the code for a token.
pub open spec fn token_body(code: Seq<char>, config: YamlData) -> Seq<char> {
    "code="@ + trimmed(code) + "&client_id="@ + config.client_id@ + "&client_secret="@
        + config.client_secret@ + "&redirect_uri="@ + config.redirect_url@
        + "&grant_type=authorization_code"@
}

/// Builds the form body that exchanges `code` for a token.
pub fn token_request_body(code: &str, config: &YamlData) -> (r: String)
    ensures
        r@ == token_body(code@, *config),
{
    let mut out: Vec<char> = Vec::new();
    append_str(&mut out, "code=");
    let code_chars = chars_of(code);
    let t = trim(code_chars.as_slice());
    append_chars(&mut out, t.as_slice());
    append_str(&mut out, "&client_id=");
    append_str(&mut out, config.client_id.as_str());
    append_str(&mut out, "&client_secret=");
    append_str(&mut out, config.client_secret.as_str());
    append_str(&mut out, "&redirect_uri=");
    append_str(&mut out, config.redirect_url.as_str());
    append_str(&mut out, "&grant_type=authorization_code");
    string_from_chars(out.as_slice())
}

/// Where the user is sent to sign in with Google.
pub open spec fn authorization_url(redirect_url: Seq<char>) -> Seq<char> {
    "https://accounts.google.com/o/oauth2/v2/auth?access_type=offline&include_granted_scopes=true&scope=openid%20email&response_type=code&redirect_uri="@
        + redirect_url
        + "&client_id=526205543724-jkq58jp5ch15a754pbkilr4n2sh1lbka.apps.googleusercontent.com"@
}

/// Builds the address the user is sent to sign in with Google.
pub fn authorization_location(redirect_url: &str) -> (r: String)
    ensures
        r@ == authorization_url(redirect_url@),
{
    let mut out: Vec<char> = Vec::new();
    append_str(
        &mut out,
        "https://accounts.google.com/o/oauth2/v2/auth?access_type=offline&include_granted_scopes=true&scope=openid%20email&response_type=code&redirect_uri=",
    );
    append_str(&mut out, redirect_url);
    append_str(
        &mut out,
        "&client_id=526205543724-jkq58jp5ch15a754pbkilr4n2sh1lbka.apps.googleusercontent.com",
    );
    string_from_chars(out.as_slice())
}

/// The address of the database.
pub open spec fn database_address(
    username: Seq<char>,
    password: Seq<char>,
    host: Seq<char>,
    port: int,
    name: Seq<char>,
) -> Seq<char> {
    "postgres://"@ + username + ":"@ + password + "@"@ + host + ":"@ + signed_decimal(port) + "/"@
        + name
}

/// Builds the address of the database.
pub fn database_url(username: &str, password: &str, host: &str, port: i64, name: &str) -> (r: String)
    ensures
        r@ == database_address(username@, password@, host@, port as int, name@),
{
    let mut out: Vec<char> = Vec::new();
    append_str(&mut out, "postgres://");
    append_str(&mut out, username);
    append_str(&mut out, ":");
    append_str(&mut out, password);
    append_str(&mut out, "@");
    append_str(&mut out, host);
    append_str(&mut out, ":");
    push_signed_decimal(port, &mut out);
    append_str(&mut out, "/");
    append_str(&mut out, name);
    string_from_chars(out.as_slice())
}

/// The answer that reports `description` as an error of `kind`.
fn failure(kind: ErrorKind, description: &str) -> (a: LoginAction)
    ensures
        is_failure(a, kind, description@),
{
    LoginAction::Respond(Err(LoginError { kind, description: description.to_owned() }))
}

/// The first step of a sign-in: with Google's code, ask for a token; without one,
/// refuse.
pub fn login_start(query: Option<GoogleResponse>, config: &YamlData) -> (a: LoginAction)
    ensures
        match query {
            Some(q) => a matches LoginAction::RequestIdToken { body } && body@ == token_body(
                q.code@,
                *config,
            ),
            None => is_failure(a, ErrorKind::InvalidData, "Authorization error"@),
        },
{
    match query {
        Some(response) => LoginAction::RequestIdToken {
            body: token_request_body(response.code.as_str(), config),
        },
        None => failure(ErrorKind::InvalidData, "Authorization error"),
    }
}

/// After the token request: its failure is reported, a token that could not be read
/// is reported as not found, and a token is sent on to be identified.
pub fn on_id_token(response: Result<Option<IdToken>, String>) -> (a: LoginAction)
    ensures
        match response {
            Err(e) => is_failure(a, ErrorKind::InvalidData, e@),
            Ok(None) => is_failure(a, ErrorKind::NotFound, "Parsing id_token error"@),
            Ok(Some(t)) => a == (LoginAction::RequestJwt { id_token: t }),
        },
{
    match response {
        Err(e) => failure(ErrorKind::InvalidData, e.as_str()),
        Ok(None) => failure(ErrorKind::NotFound, "Parsing id_token error"),
        Ok(Some(t)) => LoginAction::RequestJwt { id_token: t },
    }
}

/// After identifying the token: a user with an address is looked up; without an
/// address, or when identifying failed, the sign-in fails.
pub fn on_jwt(response: Result<Jwt, String>) -> (a: LoginAction)
    ensures
        match response {
            Err(e) => is_failure(a, ErrorKind::InvalidData, e@),
            Ok(jwt) => match jwt.email {
                Some(mail) => a == (LoginAction::SelectUser { email: mail }),
                None => is_failure(a, ErrorKind::InvalidData, "Error parsing jwt"@),
            },
        },
{
    match response {
        Err(e) => failure(ErrorKind::InvalidData, e.as_str()),
        Ok(jwt) => match jwt.email {
            Some(mail) => LoginAction::SelectUser { email: mail },
            None => failure(ErrorKind::InvalidData, "Error parsing jwt"),
        },
    }
}

/// After looking up the user with the address `email`: a stored user is answered
/// with, an unknown one is stored, a failed lookup is reported.
pub fn on_user_selected(result: Result<Option<User>, String>, email: &str) -> (a: LoginAction)
    ensures
        match result {
            Err(e) => is_failure(a, ErrorKind::InvalidData, e@),
            Ok(Some(u)) => a matches LoginAction::Respond(Ok(j)) && j.id == Some(u.id) && j.email
                == Some(u.email) && j.name is None && j.error is None,
            Ok(None) => a matches LoginAction::CreateUser { user } && user.email_spec() == email@,
        },
{
    match result {
        Err(e) => failure(ErrorKind::InvalidData, e.as_str()),
        Ok(Some(u)) => LoginAction::Respond(Ok(Jwt::from_user(u))),
        Ok(None) => LoginAction::CreateUser { user: NewUser::new(email) },
    }
}

/// After storing the user: the stored user is answered with, a failure is reported
/// as invalid input.
pub fn on_user_created(result: Result<User, String>) -> (a: LoginAction)
    ensures
        match result {
            Err(e) => is_failure(a, ErrorKind::InvalidInput, e@),
            Ok(u) => a matches LoginAction::Respond(Ok(j)) && j.id == Some(u.id) && j.email == Some(
                u.email,
            ) && j.name is None && j.error is None,
        },
{
    match result {
        Err(e) => failure(ErrorKind::InvalidInput, e.as_str()),
        Ok(u) => LoginAction::Respond(Ok(Jwt::from_user(u))),
    }
}

} // verus!
