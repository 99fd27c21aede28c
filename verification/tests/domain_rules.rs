//! Domain validation: email addresses, subscriber names, idempotency keys,
//! passwords.

use zero2prod::domain::{FormData, NewSubscriber, SubscriberEmail, SubscriberName};
use zero2prod::idempotency::IdempotencyKey;
use zero2prod::newsletter::{str_is_blank, validate_form_data, NewsletterData, NewsletterDataError};
use zero2prod::password::{
    change_password_plan, validate_password, ChangePasswordOutcome, FormData as PasswordForm,
    PasswordValidationError,
};

#[test]
fn valid_email_is_accepted() {
    let email = SubscriberEmail::parse("ursula@example.com".to_string()).unwrap();
    assert_eq!(email.as_str(), "ursula@example.com");
}

#[test]
fn email_without_at_is_rejected() {
    assert!(SubscriberEmail::parse("ursula.example.com".to_string()).is_err());
}

#[test]
fn email_with_empty_local_part_is_rejected() {
    assert!(SubscriberEmail::parse("@example.com".to_string()).is_err());
}

#[test]
fn email_with_empty_domain_is_rejected() {
    assert!(SubscriberEmail::parse("ursula@".to_string()).is_err());
}

#[test]
fn email_with_two_ats_is_rejected() {
    assert!(SubscriberEmail::parse("ursula@le@guin.com".to_string()).is_err());
}

#[test]
fn email_with_whitespace_is_rejected() {
    assert!(SubscriberEmail::parse("ursula @example.com".to_string()).is_err());
    let err = SubscriberEmail::parse("".to_string()).unwrap_err();
    assert_eq!(err, "not a valid subscriber email");
}

#[test]
fn reasonable_name_is_accepted() {
    let name = SubscriberName::parse("Ursula Le Guin".to_string()).unwrap();
    assert_eq!(name.as_str(), "Ursula Le Guin");
}

#[test]
fn blank_name_is_rejected() {
    assert!(SubscriberName::parse("   ".to_string()).is_err());
    let err = SubscriberName::parse("".to_string()).unwrap_err();
    assert_eq!(err, "not a valid subscriber name");
}

#[test]
fn overlong_name_is_rejected() {
    assert!(SubscriberName::parse("a".repeat(256)).is_ok());
    assert!(SubscriberName::parse("a".repeat(257)).is_err());
}

#[test]
fn name_with_markup_characters_is_rejected() {
    for bad in ["a/b", "a(b", "a)b", "a\"b", "a<b", "a>b", "a\\b", "a{b", "a}b"] {
        assert!(SubscriberName::parse(bad.to_string()).is_err());
    }
}

#[test]
fn new_subscriber_reports_the_first_failure() {
    let err = NewSubscriber::try_from(FormData {
        email: "broken".to_string(),
        name: "".to_string(),
    })
    .unwrap_err();
    assert_eq!(err, "not a valid subscriber name");
    let err = NewSubscriber::try_from(FormData {
        email: "broken".to_string(),
        name: "Fine Name".to_string(),
    })
    .unwrap_err();
    assert_eq!(err, "not a valid subscriber email");
    let ok = NewSubscriber::try_from(FormData {
        email: "fine@example.com".to_string(),
        name: "Fine Name".to_string(),
    })
    .unwrap();
    assert_eq!(ok.email.as_str(), "fine@example.com");
    assert_eq!(ok.name.as_str(), "Fine Name");
}

#[test]
fn idempotency_key_bounds() {
    assert!(IdempotencyKey::try_from("k".to_string()).is_ok());
    assert!(IdempotencyKey::try_from("k".repeat(50)).is_ok());
    assert_eq!(
        IdempotencyKey::try_from(String::new()).unwrap_err(),
        "The idempotency key cannot be empty"
    );
    assert_eq!(
        IdempotencyKey::try_from("k".repeat(51)).unwrap_err(),
        "The idempotency key must not exceed 50 characters"
    );
    let key = IdempotencyKey::try_from("round-trip".to_string()).unwrap();
    assert_eq!(key.as_str(), "round-trip");
    assert_eq!(key.to_string(), "round-trip");
}

#[test]
fn blankness_covers_unicode_whitespace() {
    assert!(str_is_blank(""));
    assert!(str_is_blank("   "));
    assert!(str_is_blank(" \t\r\n"));
    assert!(str_is_blank("\u{2003}\u{00a0}"));
    assert!(!str_is_blank(" a "));
}

#[test]
fn form_data_validation_order() {
    let data = NewsletterData::from("".to_string(), "".to_string(), "".to_string());
    let NewsletterDataError::ValidationError(m) = validate_form_data(&data).unwrap_err();
    assert_eq!(m, "Title is required field");
    let data = NewsletterData::from("t".to_string(), "".to_string(), "".to_string());
    let NewsletterDataError::ValidationError(m) = validate_form_data(&data).unwrap_err();
    assert_eq!(m, "Content text field is required");
    let data = NewsletterData::from("t".to_string(), "x".to_string(), " ".to_string());
    let err = validate_form_data(&data).unwrap_err();
    assert_eq!(err.message(), "Content html field is required");
    let data = NewsletterData::from("t".to_string(), "x".to_string(), "y".to_string());
    assert!(validate_form_data(&data).is_ok());
}

#[test]
fn password_length_bounds() {
    let PasswordValidationError::InvalidPassword(m) =
        validate_password(&"12345678".to_string()).unwrap_err();
    assert_eq!(m, "Password is too short.");
    assert!(validate_password(&"123456789".to_string()).is_ok());
    assert!(validate_password(&"x".repeat(129)).is_ok());
    let PasswordValidationError::InvalidPassword(m) =
        validate_password(&"x".repeat(130)).unwrap_err();
    assert_eq!(m, "Password is to long.");
}

#[test]
fn password_length_counts_bytes_not_characters() {
    // Five e-acute characters are ten UTF-8 bytes: long enough.
    assert!(validate_password(&"ééééé".to_string()).is_ok());
    // Sixty-five of them are 130 bytes: too long, at only 65 characters.
    let PasswordValidationError::InvalidPassword(m) =
        validate_password(&"é".repeat(65)).unwrap_err();
    assert_eq!(m, "Password is to long.");
}

#[test]
fn change_password_decision_order() {
    let mismatched = PasswordForm {
        current_password: "old-password".to_string(),
        new_password: "new-password-1".to_string(),
        new_password_check: "new-password-2".to_string(),
    };
    let outcome = change_password_plan(&mismatched, true);
    assert!(matches!(outcome, ChangePasswordOutcome::MismatchedNewPasswords));
    assert_eq!(
        outcome.flash_message().unwrap(),
        "You entered two different new passwords - the fields values must match."
    );

    let matching = PasswordForm {
        current_password: "old-password".to_string(),
        new_password: "new-password-1".to_string(),
        new_password_check: "new-password-1".to_string(),
    };
    let outcome = change_password_plan(&matching, false);
    assert!(matches!(outcome, ChangePasswordOutcome::IncorrectCurrentPassword));
    assert_eq!(outcome.flash_message().unwrap(), "The current password is incorrect.");

    let short = PasswordForm {
        current_password: "old-password".to_string(),
        new_password: "short".to_string(),
        new_password_check: "short".to_string(),
    };
    match change_password_plan(&short, true) {
        ChangePasswordOutcome::InvalidNewPassword(m) => {
            assert_eq!(m, "Password is too short.");
        }
        _ => panic!("expected the new password to be rejected"),
    }

    let outcome = change_password_plan(&matching, true);
    assert!(matches!(outcome, ChangePasswordOutcome::Proceed));
    assert!(outcome.flash_message().is_none());
}
