//! The publish endpoint: validation, idempotent replay, conflicts, and the
//! fan-out to confirmed subscribers.

use zero2prod::http::SavedResponse;
use zero2prod::idempotency::{try_processing, IdempotencyError, IdempotencyKey, NextAction};
use zero2prod::newsletter::{success_message, NewsletterFormData};
use zero2prod::publish::{publish_newsletter, publish_newsletter_at, PublishOutcome};
use zero2prod::store::{Store, SubscriberStatus};
use zero2prod::worker::drain_backlog;

fn form(title: &str, text: &str, html: &str, key: &str) -> NewsletterFormData {
    NewsletterFormData {
        title: title.to_string(),
        content_text: text.to_string(),
        content_html: html.to_string(),
        idempotency_key: key.to_string(),
    }
}

fn add_confirmed(store: &mut Store, id: u128, email: &str) {
    store
        .add_subscriber_row(id, email.to_string(), "A Subscriber".to_string(), SubscriberStatus::Confirmed)
        .unwrap();
}

fn assert_responses_equal(a: &SavedResponse, b: &SavedResponse) {
    assert_eq!(a.status_code, b.status_code);
    assert_eq!(a.headers.len(), b.headers.len());
    for (x, y) in a.headers.iter().zip(b.headers.iter()) {
        assert_eq!(x.name, y.name);
        assert_eq!(x.value, y.value);
    }
    assert_eq!(a.body, b.body);
}

#[test]
fn post_send_newsletters_title_is_required() {
    let mut store = Store::new();
    add_confirmed(&mut store, 1, "subscriber@example.com");
    let outcome = publish_newsletter(&mut store, 7, form("", "x", "y", "key-1"));
    match outcome {
        PublishOutcome::ValidationFailed { message, response } => {
            assert_eq!(message, "Title is required field");
            assert_eq!(response.status_code, 303);
            assert_eq!(response.headers[0].name, "Location");
            assert_eq!(response.headers[0].value, "/admin/newsletters");
        }
        _ => panic!("expected a validation failure"),
    }
    assert_eq!(store.issues.len(), 0);
    assert_eq!(store.tasks.len(), 0);
    assert_eq!(store.idempotency.len(), 0);
}

#[test]
fn post_send_newsletters_content_text_is_required() {
    let mut store = Store::new();
    let outcome = publish_newsletter(&mut store, 7, form("Rust Weekly", "", "", "key-1"));
    match outcome {
        PublishOutcome::ValidationFailed { message, .. } => {
            assert_eq!(message, "Content text field is required");
        }
        _ => panic!("expected a validation failure"),
    }
    assert_eq!(store.issues.len(), 0);
}

#[test]
fn post_send_newsletters_content_html_is_required() {
    let mut store = Store::new();
    let outcome = publish_newsletter(&mut store, 7, form("Rust Weekly", "New content", "", "k"));
    match outcome {
        PublishOutcome::ValidationFailed { message, .. } => {
            assert_eq!(message, "Content html field is required");
        }
        _ => panic!("expected a validation failure"),
    }
    assert_eq!(store.issues.len(), 0);
}

#[test]
fn whitespace_only_title_is_rejected() {
    let mut store = Store::new();
    let outcome = publish_newsletter(&mut store, 7, form(" \t\n", "x", "y", "k"));
    assert!(matches!(outcome, PublishOutcome::ValidationFailed { .. }));
}

#[test]
fn empty_idempotency_key_is_rejected() {
    let mut store = Store::new();
    let outcome = publish_newsletter(&mut store, 7, form("t", "x", "y", ""));
    match outcome {
        PublishOutcome::InvalidIdempotencyKey { message } => {
            assert_eq!(message, "The idempotency key cannot be empty");
        }
        _ => panic!("expected a key rejection"),
    }
    assert_eq!(store.idempotency.len(), 0);
}

#[test]
fn overlong_idempotency_key_is_rejected() {
    let mut store = Store::new();
    let long_key = "k".repeat(51);
    let outcome = publish_newsletter(&mut store, 7, form("t", "x", "y", &long_key));
    match outcome {
        PublishOutcome::InvalidIdempotencyKey { message } => {
            assert_eq!(message, "The idempotency key must not exceed 50 characters");
        }
        _ => panic!("expected a key rejection"),
    }
    let edge_key = "k".repeat(50);
    let outcome = publish_newsletter(&mut store, 7, form("t", "x", "y", &edge_key));
    assert!(matches!(outcome, PublishOutcome::Published { .. }));
}

#[test]
fn newsletters_are_delivered_to_confirmed_subscribers() {
    let mut store = Store::new();
    add_confirmed(&mut store, 1, "subscriber@example.com");
    let outcome = publish_newsletter(
        &mut store,
        7,
        form("Rust Weekly", "Weekly news", "<p>Weekly news</p>", "key-1"),
    );
    match outcome {
        PublishOutcome::Published { response, .. } => {
            assert_eq!(response.status_code, 303);
            assert_eq!(response.headers[0].value, "/admin/dashboard");
        }
        _ => panic!("expected a successful publish"),
    }
    assert_eq!(store.issues.len(), 1);
    assert_eq!(store.issues[0].title, "Rust Weekly");
    assert_eq!(store.issues[0].text_content, "Weekly news");
    assert_eq!(store.issues[0].html_content, "<p>Weekly news</p>");
    assert_eq!(store.tasks.len(), 1);
    assert_eq!(store.tasks[0].subscriber_email, "subscriber@example.com");
    let jobs = drain_backlog(&mut store);
    assert_eq!(jobs.len(), 1);
    assert_eq!(jobs[0].to, "subscriber@example.com");
    assert_eq!(jobs[0].title, "Rust Weekly");
    assert_eq!(jobs[0].text_content, "Weekly news");
    assert_eq!(jobs[0].html_content, "<p>Weekly news</p>");
    assert_eq!(store.tasks.len(), 0);
    assert_eq!(success_message(), "Newsletters were sent to subscribers!");
}

#[test]
fn newsletters_are_not_delivered_to_pending_subscribers() {
    let mut store = Store::new();
    store
        .add_subscriber_row(
            1,
            "pending@example.com".to_string(),
            "P Ending".to_string(),
            SubscriberStatus::PendingConfirmation,
        )
        .unwrap();
    let outcome = publish_newsletter(
        &mut store,
        7,
        form("Rust Weekly", "Weekly news", "<p>Weekly news</p>", "key-1"),
    );
    assert!(matches!(outcome, PublishOutcome::Published { .. }));
    assert_eq!(store.issues.len(), 1);
    assert_eq!(store.tasks.len(), 0);
    let jobs = drain_backlog(&mut store);
    assert_eq!(jobs.len(), 0);
}

#[test]
fn two_confirmed_subscribers_get_one_task_each() {
    let mut store = Store::new();
    add_confirmed(&mut store, 1, "one@example.com");
    add_confirmed(&mut store, 2, "two@example.com");
    store
        .add_subscriber_row(
            3,
            "pending@example.com".to_string(),
            "P Ending".to_string(),
            SubscriberStatus::PendingConfirmation,
        )
        .unwrap();
    let outcome = publish_newsletter(&mut store, 7, form("T", "text body", "<b>html</b>", "k-2"));
    assert!(matches!(outcome, PublishOutcome::Published { .. }));
    assert_eq!(store.tasks.len(), 2);
    let jobs = drain_backlog(&mut store);
    assert_eq!(jobs.len(), 2);
    assert_eq!(jobs[0].to, "one@example.com");
    assert_eq!(jobs[1].to, "two@example.com");
    for job in &jobs {
        assert_eq!(job.text_content, "text body");
        assert_eq!(job.html_content, "<b>html</b>");
    }
    assert_eq!(store.tasks.len(), 0);
}

#[test]
fn newsletter_creation_is_idempotent() {
    let mut store = Store::new();
    add_confirmed(&mut store, 1, "subscriber@example.com");
    let first = publish_newsletter(
        &mut store,
        7,
        form("Newsletter title", "Hello World!", "<b>Hello World!</p>", "key-xyz"),
    );
    let first_response = match first {
        PublishOutcome::Published { response, .. } => response,
        _ => panic!("expected a successful publish"),
    };
    assert_eq!(store.tasks.len(), 1);
    let second = publish_newsletter(
        &mut store,
        7,
        form("Newsletter title", "Hello World!", "<b>Hello World!</p>", "key-xyz"),
    );
    match second {
        PublishOutcome::Replayed { response } => {
            assert_responses_equal(&first_response, &response);
        }
        _ => panic!("expected a replay"),
    }
    // No second issue and no second batch of tasks.
    assert_eq!(store.issues.len(), 1);
    assert_eq!(store.tasks.len(), 1);
    let jobs = drain_backlog(&mut store);
    assert_eq!(jobs.len(), 1);
}

#[test]
fn replay_after_delivery_sends_nothing_new() {
    let mut store = Store::new();
    add_confirmed(&mut store, 1, "subscriber@example.com");
    let first = publish_newsletter(&mut store, 7, form("T", "x", "y", "key-1"));
    let first_response = match first {
        PublishOutcome::Published { response, .. } => response,
        _ => panic!("expected a successful publish"),
    };
    let jobs = drain_backlog(&mut store);
    assert_eq!(jobs.len(), 1);
    let second = publish_newsletter(&mut store, 7, form("T", "x", "y", "key-1"));
    match second {
        PublishOutcome::Replayed { response } => {
            assert_responses_equal(&first_response, &response);
        }
        _ => panic!("expected a replay"),
    }
    // The gateway would not be invoked again: nothing is pending.
    let jobs = drain_backlog(&mut store);
    assert_eq!(jobs.len(), 0);
}

#[test]
fn same_key_different_users_do_not_collide() {
    let mut store = Store::new();
    add_confirmed(&mut store, 1, "subscriber@example.com");
    let first = publish_newsletter(&mut store, 7, form("T", "x", "y", "shared-key"));
    assert!(matches!(first, PublishOutcome::Published { .. }));
    let second = publish_newsletter(&mut store, 8, form("T", "x", "y", "shared-key"));
    assert!(matches!(second, PublishOutcome::Published { .. }));
    assert_eq!(store.issues.len(), 2);
}

#[test]
fn in_flight_key_conflicts() {
    let mut store = Store::new();
    let key = IdempotencyKey::try_from("key-1".to_string()).unwrap();
    match try_processing(&mut store, &key, 7) {
        Ok(NextAction::StartProcessing(_)) => {}
        _ => panic!("expected to start processing"),
    }
    // A concurrent request for the same (user, key) while the first is in
    // flight conflicts instead of doing duplicate work.
    match try_processing(&mut store, &key, 7) {
        Err(IdempotencyError::Conflict) => {}
        _ => panic!("expected a conflict"),
    }
    let outcome = publish_newsletter(&mut store, 7, form("T", "x", "y", "key-1"));
    assert!(matches!(outcome, PublishOutcome::Conflict));
    assert_eq!(store.issues.len(), 0);
}

#[test]
fn issue_id_collision_rolls_everything_back() {
    let mut store = Store::new();
    add_confirmed(&mut store, 1, "subscriber@example.com");
    let first = publish_newsletter_at(&mut store, 7, form("T", "x", "y", "key-1"), 42, 1000);
    assert!(matches!(first, PublishOutcome::Published { .. }));
    let records_before = store.idempotency.len();
    let tasks_before = store.tasks.len();
    let second = publish_newsletter_at(&mut store, 7, form("T", "x", "y", "key-2"), 42, 2000);
    assert!(matches!(second, PublishOutcome::Failed { .. }));
    // The conflicting request left nothing behind: no issue, no tasks, and
    // no idempotency marker.
    assert_eq!(store.issues.len(), 1);
    assert_eq!(store.tasks.len(), tasks_before);
    assert_eq!(store.idempotency.len(), records_before);
}

#[test]
fn published_issue_records_the_given_timestamp() {
    let mut store = Store::new();
    let outcome = publish_newsletter_at(&mut store, 7, form("T", "x", "y", "key-1"), 42, 123456);
    match outcome {
        PublishOutcome::Published { newsletter_issue_id, .. } => {
            assert_eq!(newsletter_issue_id, 42);
        }
        _ => panic!("expected a successful publish"),
    }
    assert_eq!(store.issues[0].newsletter_issue_id, 42);
    assert_eq!(store.issues[0].published_at, 123456);
}
