//! Credential parsing and verification, with the real base64 and argon2
//! crates doing the decoding and hashing.

use argon2::password_hash::{PasswordHasher, SaltString};
use argon2::Argon2;
use base64::Engine;
use zero2prod::auth::{
    basic_authentication, credentials_from_decoded, login_decision, login_redirect,
    validate_credentials_with, verify_password_hash, Credentials, LoginError, LoginFormData,
};
use zero2prod::newsletter::PublishError;

fn basic_header(credentials: &str) -> String {
    let encoded = base64::engine::general_purpose::STANDARD.encode(credentials);
    format!("Basic {encoded}")
}

fn test_hash(password: &str) -> String {
    let salt = SaltString::from_b64("gZiV/M1gPc22ElAH/Jh1Hw").unwrap();
    Argon2::default()
        .hash_password(password.as_bytes(), &salt)
        .unwrap()
        .to_string()
}

#[test]
fn basic_credentials_round_trip() {
    let header = basic_header("ursula:le guin");
    let credentials = basic_authentication(&header).unwrap();
    assert_eq!(credentials.username, "ursula");
    assert_eq!(credentials.password, "le guin");
}

#[test]
fn password_may_contain_colons() {
    let header = basic_header("user:pa:ss");
    let credentials = basic_authentication(&header).unwrap();
    assert_eq!(credentials.username, "user");
    assert_eq!(credentials.password, "pa:ss");
}

#[test]
fn missing_scheme_is_rejected() {
    let err = basic_authentication("Bearer abc").unwrap_err();
    assert_eq!(err, "The authorization scheme was not 'Basic'.");
}

#[test]
fn malformed_base64_is_rejected() {
    let err = basic_authentication("Basic !!!not-base64!!!").unwrap_err();
    assert_eq!(err, "Failed to base64-decode 'Basic' credentials.");
}

#[test]
fn invalid_utf8_credentials_are_rejected() {
    let encoded = base64::engine::general_purpose::STANDARD.encode([0xffu8, 0xfe, 0xfd]);
    let err = basic_authentication(&format!("Basic {encoded}")).unwrap_err();
    assert_eq!(err, "The decoded credential string is not valid UTF8.");
}

#[test]
fn missing_password_is_rejected() {
    let header = basic_header("lonely-username");
    let err = basic_authentication(&header).unwrap_err();
    assert_eq!(err, "A password must be provided in 'Basic' auth.");
}

#[test]
fn decoded_bytes_split_at_the_first_colon() {
    let credentials = credentials_from_decoded(b":starts-with-colon".to_vec()).unwrap();
    assert_eq!(credentials.username, "");
    assert_eq!(credentials.password, "starts-with-colon");
    assert!(credentials_from_decoded(vec![0xff, 0xfe]).is_err());
    assert!(credentials_from_decoded(b"no-colon-here".to_vec()).is_err());
}

#[test]
fn correct_password_verifies() {
    let hash = test_hash("everythinghastostartsomewhere");
    assert!(verify_password_hash(&hash, &"everythinghastostartsomewhere".to_string()).is_ok());
}

#[test]
fn wrong_password_is_an_auth_error() {
    let hash = test_hash("everythinghastostartsomewhere");
    match verify_password_hash(&hash, &"wrong-password".to_string()) {
        Err(PublishError::AuthError(m)) => assert_eq!(m, "Invalid password."),
        _ => panic!("expected an authentication failure"),
    }
}

#[test]
fn malformed_stored_hash_is_an_internal_fault() {
    match verify_password_hash(&"not-a-phc-string".to_string(), &"whatever".to_string()) {
        Err(PublishError::UnexpectedError(m)) => {
            assert_eq!(m, "Failed to parse hash in PHC string format");
        }
        _ => panic!("expected an internal fault"),
    }
}

#[test]
fn known_user_with_correct_password_is_accepted() {
    let hash = test_hash("everythinghastostartsomewhere");
    let credentials = Credentials {
        username: "admin".to_string(),
        password: "everythinghastostartsomewhere".to_string(),
    };
    let user_id = validate_credentials_with(Some((7, hash)), &credentials).unwrap();
    assert_eq!(user_id, 7);
}

#[test]
fn unknown_user_is_rejected_after_hashing_work() {
    let credentials = Credentials {
        username: "nobody".to_string(),
        password: "whatever-password".to_string(),
    };
    match validate_credentials_with(None, &credentials) {
        Err(PublishError::AuthError(m)) => {
            assert!(m == "Invalid password." || m == "Unknown username");
        }
        _ => panic!("expected an authentication failure"),
    }
}

#[test]
fn login_decisions_map_outcomes_to_redirects() {
    match login_decision(Ok(9)) {
        Ok((user_id, response)) => {
            assert_eq!(user_id, 9);
            assert_eq!(response.status_code, 303);
            assert_eq!(response.headers[0].value, "/admin/dashboard");
        }
        _ => panic!("expected a successful login"),
    }
    match login_decision(Err(PublishError::AuthError("bad password".to_string()))) {
        Err((err, flash, response)) => {
            assert!(matches!(err, LoginError::AuthError(_)));
            assert_eq!(flash, "Authentication failed");
            assert_eq!(response.status_code, 303);
            assert_eq!(response.headers[0].value, "/login");
        }
        _ => panic!("expected a rejected login"),
    }
    match login_decision(Err(PublishError::UnexpectedError("db down".to_string()))) {
        Err((err, flash, _)) => {
            assert!(matches!(err, LoginError::UnexpectedError(_)));
            assert_eq!(flash, "Something went wrong");
        }
        _ => panic!("expected a rejected login"),
    }
    let (flash, response) = login_redirect(&LoginError::AuthError("cause".to_string()));
    assert_eq!(flash, "Authentication failed");
    assert_eq!(response.headers[0].value, "/login");
}

#[test]
fn credentials_from_login_form() {
    let credentials = Credentials::from(LoginFormData {
        username: "admin".to_string(),
        password: "hunter2hunter2".to_string(),
    });
    assert_eq!(credentials.username, "admin");
    assert_eq!(credentials.password, "hunter2hunter2");
}

#[test]
fn anonymous_users_are_sent_to_login() {
    match zero2prod::auth::reject_anonymous_users(None) {
        Err(response) => {
            assert_eq!(response.status_code, 303);
            assert_eq!(response.headers[0].value, "/login");
        }
        _ => panic!("expected a redirect to the login form"),
    }
    assert_eq!(zero2prod::auth::reject_anonymous_users(Some(5)).unwrap(), 5);
}
