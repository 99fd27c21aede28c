//! Responses, error renderings, and the shared helpers.

use zero2prod::helpers::{chain_error_fmt, find_char, str_eq};
use zero2prod::http::{see_other, status_only};
use zero2prod::newsletter::{
    get_confirmed_subscribers, success_message, NewsletterData, PublishError,
};
use zero2prod::store::{Store, SubscriberStatus};
use zero2prod::subscriptions::SubscribeError;

#[test]
fn see_other_is_a_303_with_a_location() {
    let response = see_other("/admin/dashboard");
    assert_eq!(response.status_code, 303);
    assert_eq!(response.headers.len(), 1);
    assert_eq!(response.headers[0].name, "Location");
    assert_eq!(response.headers[0].value, "/admin/dashboard");
    assert!(response.body.is_empty());
}

#[test]
fn status_only_has_no_headers() {
    let response = status_only(401);
    assert_eq!(response.status_code, 401);
    assert!(response.headers.is_empty());
    assert!(response.body.is_empty());
}

#[test]
fn saved_responses_replay_byte_identically() {
    let original = see_other("/somewhere");
    let copy = original.duplicate();
    assert_eq!(copy.status_code, original.status_code);
    assert_eq!(copy.headers.len(), original.headers.len());
    assert_eq!(copy.headers[0].name, original.headers[0].name);
    assert_eq!(copy.headers[0].value, original.headers[0].value);
    assert_eq!(copy.body, original.body);
}

#[test]
fn publish_error_maps_to_status_and_response() {
    let auth = PublishError::AuthError("cause".to_string());
    assert_eq!(auth.status_code(), 401);
    let response = auth.error_response();
    assert_eq!(response.status_code, 401);
    assert_eq!(response.headers[0].name, "WWW-Authenticate");
    assert_eq!(response.headers[0].value, "Basic realm=\"publish\"");
    assert_eq!(auth.message(), "Authentication");

    let unexpected = PublishError::UnexpectedError("boom".to_string());
    assert_eq!(unexpected.status_code(), 500);
    let response = unexpected.error_response();
    assert_eq!(response.status_code, 500);
    assert!(response.headers.is_empty());
    assert_eq!(unexpected.message(), "boom");
}

#[test]
fn subscribe_error_status_codes() {
    assert_eq!(SubscribeError::ValidationError("m".to_string()).status_code(), 400);
    assert_eq!(SubscribeError::UnexpectedError("m".to_string()).status_code(), 500);
    assert_eq!(SubscribeError::ValidationError("why".to_string()).message(), "why");
}

#[test]
fn chain_error_fmt_renders_the_cause_chain() {
    let rendered = chain_error_fmt(
        &"outermost failure".to_string(),
        &vec!["middle cause".to_string(), "root cause".to_string()],
    );
    assert_eq!(
        rendered,
        "outermost failure\n\nCaused by:\n\tmiddle cause\nCaused by:\n\troot cause\n"
    );
    assert_eq!(chain_error_fmt(&"alone".to_string(), &vec![]), "alone\n\n");
}

#[test]
fn string_helpers_behave() {
    assert!(str_eq("same", "same"));
    assert!(!str_eq("same", "sane"));
    assert!(!str_eq("same", "same "));
    assert_eq!(find_char("a:b:c", ':'), Some(1));
    assert_eq!(find_char("abc", ':'), None);
}

#[test]
fn newsletter_data_bundles_its_fields() {
    let data = NewsletterData::from("t".to_string(), "x".to_string(), "y".to_string());
    assert_eq!(data.title, "t");
    assert_eq!(data.content_text, "x");
    assert_eq!(data.content_html, "y");
    assert_eq!(success_message(), "Newsletters were sent to subscribers!");
}

#[test]
fn confirmed_subscribers_include_undeliverable_rows_as_errors() {
    let mut store = Store::new();
    store
        .add_subscriber_row(
            1,
            "good@example.com".to_string(),
            "Good Row".to_string(),
            SubscriberStatus::Confirmed,
        )
        .unwrap();
    store
        .add_subscriber_row(
            2,
            "not-an-address".to_string(),
            "Broken Row".to_string(),
            SubscriberStatus::Confirmed,
        )
        .unwrap();
    store
        .add_subscriber_row(
            3,
            "pending@example.com".to_string(),
            "P Ending".to_string(),
            SubscriberStatus::PendingConfirmation,
        )
        .unwrap();
    let recipients = get_confirmed_subscribers(&store);
    assert_eq!(recipients.len(), 2);
    assert_eq!(recipients[0].as_ref().unwrap().as_str(), "good@example.com");
    assert!(recipients[1].is_err());
}
