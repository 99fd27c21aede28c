//! The subscription flow: signing up, the welcome email, the confirmation
//! token, and confirming.

use zero2prod::domain::FormData;
use zero2prod::newsletter::NewsletterFormData;
use zero2prod::publish::{publish_newsletter, PublishOutcome};
use zero2prod::store::{Store, SubscriberStatus};
use zero2prod::subscriptions::{
    build_confirmation_email, generate_subscription_token, store_subscription_token, subscribe,
    SubscribeError,
};
use zero2prod::subscriptions_confirm::{confirm, Parameters};
use zero2prod::worker::drain_backlog;

fn valid_form() -> FormData {
    FormData {
        email: "ursula@example.com".to_string(),
        name: "Ursula Le Guin".to_string(),
    }
}

#[test]
fn subscription_tokens_are_25_alphanumeric_characters() {
    let token = generate_subscription_token();
    assert_eq!(token.chars().count(), 25);
    assert!(token.chars().all(|c| c.is_ascii_alphanumeric()));
    // Two draws almost surely differ; equal draws would hint at a fixed
    // rather than sampled token.
    assert_ne!(generate_subscription_token(), generate_subscription_token());
}

#[test]
fn welcome_email_carries_the_confirmation_link() {
    let email = build_confirmation_email("ursula@example.com", "https://news.example.com", "tok123");
    assert_eq!(email.to, "ursula@example.com");
    assert_eq!(email.subject, "Welcome!");
    let link = "https://news.example.com/subscriptions/confirm?subscription_token=tok123";
    assert_eq!(
        email.html_body,
        format!("Welcome to our newsletter!<br />Click <a href=\"{link}\">here</a> to confirm subscription.")
    );
    assert_eq!(
        email.text_body,
        format!("Welcome to our newsletter! Visit {link} to confirm your subscription.")
    );
}

#[test]
fn subscribing_stores_a_pending_subscriber_and_token() {
    let mut store = Store::new();
    let email = subscribe(
        &mut store,
        valid_form(),
        1,
        "token-1".to_string(),
        "https://news.example.com",
    )
    .unwrap();
    assert_eq!(email.to, "ursula@example.com");
    assert_eq!(store.subscribers.len(), 1);
    assert_eq!(store.subscribers[0].email, "ursula@example.com");
    assert!(matches!(store.subscribers[0].status, SubscriberStatus::PendingConfirmation));
    assert_eq!(store.tokens.len(), 1);
    assert_eq!(store.tokens[0].token, "token-1");
    assert_eq!(store.tokens[0].subscriber_id, 1);
}

#[test]
fn invalid_subscription_form_has_no_side_effect() {
    let mut store = Store::new();
    let err = subscribe(
        &mut store,
        FormData { email: "broken".to_string(), name: "Fine Name".to_string() },
        1,
        "token-1".to_string(),
        "https://news.example.com",
    )
    .unwrap_err();
    match err {
        SubscribeError::ValidationError(m) => assert_eq!(m, "not a valid subscriber email"),
        _ => panic!("expected a validation error"),
    }
    assert_eq!(store.subscribers.len(), 0);
    assert_eq!(store.tokens.len(), 0);
}

#[test]
fn duplicate_subscription_is_an_unexpected_error() {
    let mut store = Store::new();
    subscribe(&mut store, valid_form(), 1, "token-1".to_string(), "base").unwrap();
    let err = subscribe(&mut store, valid_form(), 2, "token-2".to_string(), "base").unwrap_err();
    assert!(matches!(err, SubscribeError::UnexpectedError(_)));
    assert_eq!(store.subscribers.len(), 1);
    assert_eq!(store.tokens.len(), 1);
}

#[test]
fn duplicate_token_rolls_the_subscriber_back() {
    let mut store = Store::new();
    subscribe(&mut store, valid_form(), 1, "token-1".to_string(), "base").unwrap();
    let second = FormData {
        email: "other@example.com".to_string(),
        name: "Other Person".to_string(),
    };
    let err = subscribe(&mut store, second, 2, "token-1".to_string(), "base").unwrap_err();
    assert!(matches!(err, SubscribeError::UnexpectedError(_)));
    // The two writes are one unit: no half-subscribed row remains.
    assert_eq!(store.subscribers.len(), 1);
    assert_eq!(store.tokens.len(), 1);
}

#[test]
fn store_subscription_token_checks_its_references() {
    let mut store = Store::new();
    subscribe(&mut store, valid_form(), 1, "token-1".to_string(), "base").unwrap();
    assert!(store_subscription_token(&mut store, 999, "token-2").is_err());
    assert!(store_subscription_token(&mut store, 1, "token-1").is_err());
    let err = store_subscription_token(&mut store, 1, "token-1").unwrap_err();
    assert_eq!(
        err.message(),
        "A database error was encountered while trying to store a subscription token."
    );
    assert!(store_subscription_token(&mut store, 1, "token-2").is_ok());
}

#[test]
fn confirming_an_unknown_token_is_unauthorized() {
    let mut store = Store::new();
    let response = confirm(
        &mut store,
        &Parameters { subscription_token: "missing".to_string() },
    );
    assert_eq!(response.status_code, 401);
}

#[test]
fn confirmed_subscribers_start_receiving_newsletters() {
    let mut store = Store::new();
    subscribe(&mut store, valid_form(), 1, "token-1".to_string(), "base").unwrap();

    // Before confirmation: a publish creates no delivery task.
    let outcome = publish_newsletter(
        &mut store,
        7,
        NewsletterFormData {
            title: "Before".to_string(),
            content_text: "x".to_string(),
            content_html: "y".to_string(),
            idempotency_key: "key-1".to_string(),
        },
    );
    assert!(matches!(outcome, PublishOutcome::Published { .. }));
    assert_eq!(store.tasks.len(), 0);

    let response = confirm(
        &mut store,
        &Parameters { subscription_token: "token-1".to_string() },
    );
    assert_eq!(response.status_code, 200);
    assert!(matches!(store.subscribers[0].status, SubscriberStatus::Confirmed));

    // After confirmation: the next publish fans out to them.
    let outcome = publish_newsletter(
        &mut store,
        7,
        NewsletterFormData {
            title: "After".to_string(),
            content_text: "x".to_string(),
            content_html: "y".to_string(),
            idempotency_key: "key-2".to_string(),
        },
    );
    assert!(matches!(outcome, PublishOutcome::Published { .. }));
    assert_eq!(store.tasks.len(), 1);
    let jobs = drain_backlog(&mut store);
    assert_eq!(jobs.len(), 1);
    assert_eq!(jobs[0].to, "ursula@example.com");
    assert_eq!(jobs[0].title, "After");
}

#[test]
fn confirming_twice_is_harmless() {
    let mut store = Store::new();
    subscribe(&mut store, valid_form(), 1, "token-1".to_string(), "base").unwrap();
    let params = Parameters { subscription_token: "token-1".to_string() };
    assert_eq!(confirm(&mut store, &params).status_code, 200);
    assert_eq!(confirm(&mut store, &params).status_code, 200);
    assert!(matches!(store.subscribers[0].status, SubscriberStatus::Confirmed));
}
