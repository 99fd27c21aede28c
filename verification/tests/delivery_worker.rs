//! The delivery worker: claims, outcomes, retries, and draining.

use zero2prod::newsletter::NewsletterFormData;
use zero2prod::publish::{publish_newsletter, PublishOutcome};
use zero2prod::store::{Store, SubscriberStatus};
use zero2prod::worker::{
    begin_delivery, drain_backlog, finish_delivery, release_claim, DeliveryStep, SendOutcome,
};

fn form(title: &str, text: &str, html: &str, key: &str) -> NewsletterFormData {
    NewsletterFormData {
        title: title.to_string(),
        content_text: text.to_string(),
        content_html: html.to_string(),
        idempotency_key: key.to_string(),
    }
}

fn store_with_confirmed(emails: &[&str]) -> Store {
    let mut store = Store::new();
    for (i, email) in emails.iter().enumerate() {
        store
            .add_subscriber_row(
                (i + 1) as u128,
                email.to_string(),
                "A Subscriber".to_string(),
                SubscriberStatus::Confirmed,
            )
            .unwrap();
    }
    store
}

#[test]
fn idle_when_nothing_is_pending() {
    let mut store = Store::new();
    assert!(matches!(begin_delivery(&mut store), DeliveryStep::Idle));
}

#[test]
fn transient_failure_keeps_the_task_queued() {
    let mut store = store_with_confirmed(&["one@example.com", "two@example.com"]);
    let outcome = publish_newsletter(&mut store, 7, form("T", "x", "y", "k"));
    assert!(matches!(outcome, PublishOutcome::Published { .. }));
    assert_eq!(store.tasks.len(), 2);

    // Two workers claim one task each; the claims do not collide.
    let first_claim = match begin_delivery(&mut store) {
        DeliveryStep::Send { task_id, job } => {
            assert_eq!(job.to, "one@example.com");
            task_id
        }
        _ => panic!("expected a task to send"),
    };
    let second_claim = match begin_delivery(&mut store) {
        DeliveryStep::Send { task_id, job } => {
            assert_eq!(job.to, "two@example.com");
            task_id
        }
        _ => panic!("expected a task to send"),
    };
    assert_ne!(first_claim, second_claim);

    // The gateway delivers the second send but fails the first transiently:
    // the first task goes back to pending, the second is deleted.
    finish_delivery(&mut store, second_claim, SendOutcome::Delivered);
    finish_delivery(&mut store, first_claim, SendOutcome::TransientFailure);
    assert_eq!(store.tasks.len(), 1);
    assert_eq!(store.tasks[0].subscriber_email, "one@example.com");
    assert!(!store.tasks[0].claimed);

    // The next sweep retries exactly the failed task.
    match begin_delivery(&mut store) {
        DeliveryStep::Send { task_id, job } => {
            assert_eq!(job.to, "one@example.com");
            finish_delivery(&mut store, task_id, SendOutcome::Delivered);
        }
        _ => panic!("expected the failed task to be retried"),
    }
    assert_eq!(store.tasks.len(), 0);
}

#[test]
fn permanent_failure_drops_the_task() {
    let mut store = store_with_confirmed(&["one@example.com"]);
    publish_newsletter(&mut store, 7, form("T", "x", "y", "k"));
    match begin_delivery(&mut store) {
        DeliveryStep::Send { task_id, .. } => {
            finish_delivery(&mut store, task_id, SendOutcome::PermanentFailure);
        }
        _ => panic!("expected a task to send"),
    }
    assert_eq!(store.tasks.len(), 0);
}

#[test]
fn invalid_stored_address_is_dropped_permanently() {
    let mut store = Store::new();
    // A row written by another program: confirmed, but with an address
    // that can never be delivered to.
    store
        .add_subscriber_row(
            1,
            "not-an-address".to_string(),
            "Broken Row".to_string(),
            SubscriberStatus::Confirmed,
        )
        .unwrap();
    publish_newsletter(&mut store, 7, form("T", "x", "y", "k"));
    assert_eq!(store.tasks.len(), 1);
    match begin_delivery(&mut store) {
        DeliveryStep::InvalidRecipient { subscriber_email, .. } => {
            assert_eq!(subscriber_email, "not-an-address");
        }
        _ => panic!("expected the invalid recipient to be dropped"),
    }
    assert_eq!(store.tasks.len(), 0);
    assert!(matches!(begin_delivery(&mut store), DeliveryStep::Idle));
}

#[test]
fn released_claim_becomes_reclaimable() {
    let mut store = store_with_confirmed(&["one@example.com"]);
    publish_newsletter(&mut store, 7, form("T", "x", "y", "k"));
    let claim = match begin_delivery(&mut store) {
        DeliveryStep::Send { task_id, .. } => task_id,
        _ => panic!("expected a task to send"),
    };
    assert!(store.tasks[0].claimed);
    // Graceful shutdown: the abandoned claim is released, not stuck.
    release_claim(&mut store, claim);
    assert!(!store.tasks[0].claimed);
    let jobs = drain_backlog(&mut store);
    assert_eq!(jobs.len(), 1);
}

#[test]
fn draining_reaches_zero_backlog() {
    let mut store = store_with_confirmed(&[
        "one@example.com",
        "two@example.com",
        "three@example.com",
    ]);
    publish_newsletter(&mut store, 7, form("T", "x", "y", "k"));
    assert_eq!(store.tasks.len(), 3);
    let jobs = drain_backlog(&mut store);
    assert_eq!(jobs.len(), 3);
    assert_eq!(jobs[0].to, "one@example.com");
    assert_eq!(jobs[1].to, "two@example.com");
    assert_eq!(jobs[2].to, "three@example.com");
    assert_eq!(store.tasks.len(), 0);
    // Draining again finds nothing: the fixed backlog was consumed once.
    let jobs = drain_backlog(&mut store);
    assert_eq!(jobs.len(), 0);
}

#[test]
fn completion_order_does_not_matter() {
    let mut left = store_with_confirmed(&["one@example.com", "two@example.com"]);
    publish_newsletter(&mut left, 7, form("T", "x", "y", "k"));
    let mut right = store_with_confirmed(&["one@example.com", "two@example.com"]);
    publish_newsletter(&mut right, 7, form("T", "x", "y", "k"));

    let (a_left, b_left) = claim_two(&mut left);
    finish_delivery(&mut left, a_left, SendOutcome::Delivered);
    finish_delivery(&mut left, b_left, SendOutcome::Delivered);

    let (a_right, b_right) = claim_two(&mut right);
    finish_delivery(&mut right, b_right, SendOutcome::Delivered);
    finish_delivery(&mut right, a_right, SendOutcome::Delivered);

    assert_eq!(left.tasks.len(), 0);
    assert_eq!(right.tasks.len(), 0);
    assert_eq!(left.issues.len(), right.issues.len());
    assert_eq!(left.subscribers.len(), right.subscribers.len());
}

fn claim_two(store: &mut Store) -> (u64, u64) {
    let a = match begin_delivery(store) {
        DeliveryStep::Send { task_id, .. } => task_id,
        _ => panic!("expected a task to send"),
    };
    let b = match begin_delivery(store) {
        DeliveryStep::Send { task_id, .. } => task_id,
        _ => panic!("expected a task to send"),
    };
    (a, b)
}

#[test]
fn no_task_ever_references_an_unconfirmed_subscriber() {
    let mut store = Store::new();
    store
        .add_subscriber_row(
            1,
            "pending@example.com".to_string(),
            "P Ending".to_string(),
            SubscriberStatus::PendingConfirmation,
        )
        .unwrap();
    store
        .add_subscriber_row(
            2,
            "confirmed@example.com".to_string(),
            "C Onfirmed".to_string(),
            SubscriberStatus::Confirmed,
        )
        .unwrap();
    publish_newsletter(&mut store, 7, form("T", "x", "y", "k-1"));
    publish_newsletter(&mut store, 7, form("T", "x", "y", "k-2"));
    for task in &store.tasks {
        assert_ne!(task.subscriber_email, "pending@example.com");
    }
    assert_eq!(store.tasks.len(), 2);
}
