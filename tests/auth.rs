use beammp_client::auth::{auth_request_body, credentials_json};

#[test]
fn anonymous_login_has_no_body() {
    assert_eq!(auth_request_body(&None, &"secret".to_string()), None);
}

#[test]
fn body_holds_username_and_password() {
    let body = auth_request_body(&Some("bob".to_string()), &"hunter2".to_string());
    assert_eq!(body, Some(r#"{"username":"bob","password":"hunter2"}"#.to_string()));
}

#[test]
fn body_escapes_strings() {
    let body = auth_request_body(&Some("a\"b".to_string()), &"x\\y\n".to_string());
    assert_eq!(body, Some(r#"{"username":"a\"b","password":"x\\y\n"}"#.to_string()));
}

#[test]
fn empty_password_is_sent() {
    let body = auth_request_body(&Some("bob".to_string()), &String::new());
    assert_eq!(body, Some(r#"{"username":"bob","password":""}"#.to_string()));
}

#[test]
fn credentials_object_from_literals() {
    assert_eq!(credentials_json("\"u\"", "\"p\""), r#"{"username":"u","password":"p"}"#);
}

#[test]
fn control_characters_are_escaped() {
    let body = auth_request_body(&Some("\u{1}\u{8}\t\u{c}\r\u{1f}".to_string()), &"é/".to_string());
    assert_eq!(
        body,
        Some(r#"{"username":"\u0001\b\t\f\r\u001f","password":"é/"}"#.to_string())
    );
}
