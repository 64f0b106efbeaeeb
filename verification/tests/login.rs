use hc_web_leptos::json::Json;
use hc_web_leptos::login::{login_redirect, server_version, LoginForm, LoginStep};

#[test]
fn empty_credentials_are_refused_before_sending() {
    let mut form = LoginForm::new();
    assert!(matches!(form.submit("", "secret"), LoginStep::Stay));
    assert_eq!(form.error, Some("Username and password are required.".to_string()));
    assert!(!form.loading);
    assert!(matches!(form.submit("admin", ""), LoginStep::Stay));
}

#[test]
fn credentials_go_out_and_a_token_lets_the_user_in() {
    let mut form = LoginForm::new();
    form.error = Some("old".to_string());
    match form.submit("admin", "pw") {
        LoginStep::SendCredentials { username, password } => assert_eq!((username.as_str(), password.as_str()), ("admin", "pw")),
        _ => panic!("expected the credentials to go out"),
    }
    assert!(form.loading);
    assert!(form.error.is_none());
    match form.finish(Ok("tok".to_string())) {
        LoginStep::Enter { token } => assert_eq!(token, "tok"),
        _ => panic!("expected to enter"),
    }
    assert!(form.loading);
}

#[test]
fn a_failed_login_shows_its_error() {
    let mut form = LoginForm::new();
    let _ = form.submit("admin", "pw");
    assert!(matches!(form.finish(Err("401 Unauthorized".to_string())), LoginStep::Stay));
    assert!(!form.loading);
    assert_eq!(form.error, Some("401 Unauthorized".to_string()));
}

#[test]
fn version_and_redirect() {
    let health = Json::Object(vec![("version".to_string(), Json::Str("1.4.2".to_string()))]);
    assert_eq!(server_version(&health), Some("1.4.2".to_string()));
    assert_eq!(server_version(&Json::Null), None);
    assert_eq!(login_redirect(true), Some("/devices"));
    assert_eq!(login_redirect(false), None);
}
