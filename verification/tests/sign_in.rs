use playground::oauth::{
    authorization_location, database_url, login_start, on_id_token, on_jwt, on_user_created,
    on_user_selected, token_request_body, ErrorKind, GoogleResponse, IdToken, Jwt, LoginAction,
    NewUser, User, YamlData,
};

fn config() -> YamlData {
    YamlData {
        redirect_url: "http://localhost/login".to_string(),
        client_id: "cid".to_string(),
        client_secret: "SECRET-REDACTED".to_string(),
    }
}

fn failure(action: LoginAction) -> (ErrorKind, String) {
    match action {
        LoginAction::Respond(Err(e)) => (e.kind, e.description),
        _ => panic!("not a failure"),
    }
}

#[test]
fn token_body_trims_the_code() {
    assert_eq!(
        token_request_body(" 4/abc \n", &config()),
        "code=4/abc&client_id=cid&client_secret=SECRET-REDACTED&redirect_uri=http://localhost/login&grant_type=authorization_code"
    );
}

#[test]
fn authorization_address() {
    assert_eq!(
        authorization_location("http://localhost/login"),
        "https://accounts.google.com/o/oauth2/v2/auth?access_type=offline&include_granted_scopes=true&scope=openid%20email&response_type=code&redirect_uri=http://localhost/login&client_id=526205543724-jkq58jp5ch15a754pbkilr4n2sh1lbka.apps.googleusercontent.com"
    );
}

#[test]
fn database_address() {
    assert_eq!(database_url("u", "p", "h", 5432, "db"), "postgres://u:p@h:5432/db");
    assert_eq!(database_url("u", "p", "h", -1, "db"), "postgres://u:p@h:-1/db");
}

#[test]
fn sign_in_without_code_fails() {
    assert_eq!(
        failure(login_start(None, &config())),
        (ErrorKind::InvalidData, "Authorization error".to_string())
    );
}

#[test]
fn sign_in_steps() {
    match login_start(Some(GoogleResponse { code: "c".to_string() }), &config()) {
        LoginAction::RequestIdToken { body } => assert!(body.starts_with("code=c&")),
        _ => panic!("expected a token request"),
    }
    let token = IdToken { access_token: "a".to_string(), id_token: "t".to_string() };
    match on_id_token(Ok(Some(token))) {
        LoginAction::RequestJwt { id_token } => assert_eq!(id_token.id_token, "t"),
        _ => panic!("expected an identity request"),
    }
    assert_eq!(
        failure(on_id_token(Ok(None))),
        (ErrorKind::NotFound, "Parsing id_token error".to_string())
    );
    assert_eq!(
        failure(on_id_token(Err("ID_TOKEN get error".to_string()))),
        (ErrorKind::InvalidData, "ID_TOKEN get error".to_string())
    );
    let jwt = Jwt { id: None, email: Some("a@b.c".to_string()), name: None, error: None };
    match on_jwt(Ok(jwt)) {
        LoginAction::SelectUser { email } => assert_eq!(email, "a@b.c"),
        _ => panic!("expected a lookup"),
    }
    assert_eq!(
        failure(on_jwt(Ok(Jwt::default()))),
        (ErrorKind::InvalidData, "Error parsing jwt".to_string())
    );
    assert_eq!(
        failure(on_jwt(Err("Something wrong".to_string()))),
        (ErrorKind::InvalidData, "Something wrong".to_string())
    );
}

#[test]
fn found_and_created_users() {
    match on_user_selected(Ok(Some(User { id: 3, email: "a@b.c".to_string() })), "a@b.c") {
        LoginAction::Respond(Ok(jwt)) => {
            assert_eq!(jwt.id, Some(3));
            assert_eq!(jwt.email.as_deref(), Some("a@b.c"));
            assert_eq!(jwt.error, None);
        }
        _ => panic!("expected an answer"),
    }
    match on_user_selected(Ok(None), "new@b.c") {
        LoginAction::CreateUser { user } => assert_eq!(user.email(), "new@b.c"),
        _ => panic!("expected a new user"),
    }
    assert_eq!(
        failure(on_user_selected(Err("db down".to_string()), "x")),
        (ErrorKind::InvalidData, "db down".to_string())
    );
    match on_user_created(Ok(User { id: 9, email: "n@b.c".to_string() })) {
        LoginAction::Respond(Ok(jwt)) => assert_eq!(jwt.id, Some(9)),
        _ => panic!("expected an answer"),
    }
    assert_eq!(
        failure(on_user_created(Err("duplicate".to_string()))),
        (ErrorKind::InvalidInput, "duplicate".to_string())
    );
}

#[test]
fn jwt_constructors() {
    let e = Jwt::error("boom");
    assert_eq!(e.error.as_deref(), Some("boom"));
    assert_eq!(e.id, None);
    let u = Jwt::from_user(User { id: 1, email: "m".to_string() });
    assert_eq!(u.email.as_deref(), Some("m"));
    assert_eq!(u.name, None);
    assert_eq!(NewUser::new("q").email(), "q");
}
