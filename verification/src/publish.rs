//! The publish handler: the operator-facing path that turns one form
//! submission into one newsletter issue with its delivery fan-out, exactly
//! once per (user, idempotency key) no matter how often it is retried.
//!
//! The state machine per request: validate the form fields; validate the
//! idempotency key; claim (user, key) or replay the saved response; inside
//! the open transaction insert the issue and enqueue one delivery task per
//! currently-confirmed subscriber; complete with the redirect response and
//! commit — all three artifacts as one atomic unit.

use vstd::prelude::*;

verus! {

use vstd::pervasive::unreached;
use crate::http::{SavedResponse, SavedResponseModel, see_other, see_other_model};
use crate::idempotency::{
    can_commit, commit_model, emails_confirmed_in, fanout_tasks, lemma_idem_at_pushed,
    lemma_saved_response_round_trip, lemma_wf_idem_push, save_response,
    try_processing, valid_key, with_processing, IdempotencyError, IdempotencyKey, NextAction,
    PublishTransaction, TransactionModel,
};
use crate::newsletter::{
    form_data_valid, is_blank, validate_form_data, NewsletterData, NewsletterFormData,
};
use crate::store::{
    confirmed_emails_of, fresh_id, now_timestamp, IssueModel, NewsletterIssue, StageModel, Store,
    StoreModel, SubscriberModel, SubscriberStatus,
};

/// Record the newsletter issue in the open transaction and hand its id
/// back, as the repository insert it models does.
pub fn insert_newsletter_issue(
    transaction: &mut PublishTransaction,
    title: &str,
    text_content: &str,
    html_content: &str,
    newsletter_issue_id: u128,
    published_at: i64,
) -> (r: u128)
    ensures
        r == newsletter_issue_id,
        final(transaction)@ == (TransactionModel {
            issue: Some(
                IssueModel {
                    newsletter_issue_id,
                    title: title@,
                    text_content: text_content@,
                    html_content: html_content@,
                    published_at,
                },
            ),
            ..old(transaction)@
        }),
{
    transaction.issue = Some(
        NewsletterIssue {
            newsletter_issue_id,
            title: title.to_owned(),
            text_content: text_content.to_owned(),
            html_content: html_content.to_owned(),
            published_at,
        },
    );
    newsletter_issue_id
}

/// Enqueue one delivery task per currently-confirmed subscriber: a single
/// set-based read of the subscriber table, no per-row round trips. The rows
/// become durable when the transaction commits.
pub fn enqueue_delivery_tasks(transaction: &mut PublishTransaction, store: &Store)
    ensures
        final(transaction)@ == (TransactionModel {
            task_emails: store@.confirmed_emails(),
            ..old(transaction)@
        }),
{
    let emails = store.confirmed_subscriber_emails();
    transaction.task_emails = emails;
}

/// Every email the enqueue step collects belongs to a confirmed subscriber.
pub proof fn lemma_confirmed_emails_are_confirmed(s: StoreModel)
    ensures
        emails_confirmed_in(s, s.confirmed_emails()),
{
    assert forall|i: int|
        0 <= i < s.confirmed_emails().len() implies s.confirmed_email_exists(
        #[trigger] s.confirmed_emails()[i],
    ) by {
        lemma_confirmed_email_witness(s.subscribers, i);
        let j = choose|j: int|
            0 <= j < s.subscribers.len() && (#[trigger] s.subscribers[j]).email
                == confirmed_emails_of(s.subscribers)[i] && s.subscribers[j].status
                == SubscriberStatus::Confirmed;
        assert(s.confirmed_email_exists(s.confirmed_emails()[i]));
    }
}

/// Each collected email is witnessed by a confirmed subscriber row.
proof fn lemma_confirmed_email_witness(subs: Seq<SubscriberModel>, i: int)
    requires
        0 <= i < confirmed_emails_of(subs).len(),
    ensures
        exists|j: int|
            0 <= j < subs.len() && (#[trigger] subs[j]).email == confirmed_emails_of(subs)[i]
                && subs[j].status == SubscriberStatus::Confirmed,
    decreases subs.len(),
{
    if subs.len() == 0 {
    } else {
        let rest = confirmed_emails_of(subs.drop_last());
        if subs.last().status == SubscriberStatus::Confirmed && i == rest.len() {
            assert(subs[subs.len() - 1].email == confirmed_emails_of(subs)[i]);
        } else {
            lemma_confirmed_email_witness(subs.drop_last(), i);
            let j = choose|j: int|
                0 <= j < subs.drop_last().len() && (#[trigger] subs.drop_last()[j]).email
                    == confirmed_emails_of(subs.drop_last())[i] && subs.drop_last()[j].status
                    == SubscriberStatus::Confirmed;
            assert(subs[j] == subs.drop_last()[j]);
        }
    }
}

/// The outcome of one publish request, with the response the operator
/// receives where one exists.
pub enum PublishOutcome {
    /// A fresh request ran to completion: the issue and its delivery tasks
    /// are committed, the response is saved for replays.
    Published { newsletter_issue_id: u128, response: SavedResponse },
    /// The same (user, key) already completed: the saved response, verbatim,
    /// with no further work.
    Replayed { response: SavedResponse },
    /// A required form field was blank: the message names it; no side
    /// effect.
    ValidationFailed { message: String, response: SavedResponse },
    /// The idempotency key itself was malformed: a client error, rejected
    /// before anything touches storage.
    InvalidIdempotencyKey { message: String },
    /// A request with the same (user, key) is still in flight: transient,
    /// retry shortly.
    Conflict,
    /// A storage fault: everything this request wrote was rolled back.
    Failed { message: String },
}

/// The mathematical image of a publish outcome. A storage fault carries no
/// model detail: nothing was committed.
#[verifier::ext_equal]
pub enum PublishOutcomeModel {
    Published { newsletter_issue_id: u128, response: SavedResponseModel },
    Replayed { response: SavedResponseModel },
    ValidationFailed { message: Seq<char>, response: SavedResponseModel },
    InvalidIdempotencyKey { message: Seq<char> },
    Conflict,
    Failed,
}

impl View for PublishOutcome {
    type V = PublishOutcomeModel;

    open spec fn view(&self) -> PublishOutcomeModel {
        match self {
            PublishOutcome::Published { newsletter_issue_id, response } => (
            PublishOutcomeModel::Published {
                newsletter_issue_id: *newsletter_issue_id,
                response: response@,
            }),
            PublishOutcome::Replayed { response } => (PublishOutcomeModel::Replayed {
                response: response@,
            }),
            PublishOutcome::ValidationFailed { message, response } => (
            PublishOutcomeModel::ValidationFailed { message: message@, response: response@ }),
            PublishOutcome::InvalidIdempotencyKey { message } => (
            PublishOutcomeModel::InvalidIdempotencyKey { message: message@ }),
            PublishOutcome::Conflict => PublishOutcomeModel::Conflict,
            PublishOutcome::Failed { .. } => PublishOutcomeModel::Failed,
        }
    }
}

/// The message a publish form with a blank field is rejected with: the
/// first blank field in the order title, text content, html content.
pub open spec fn validation_message(title: Seq<char>, text: Seq<char>, html: Seq<char>) -> Seq<
    char,
> {
    if is_blank(title) {
        "Title is required field"@
    } else if is_blank(text) {
        "Content text field is required"@
    } else {
        "Content html field is required"@
    }
}

/// The message a malformed idempotency key is rejected with.
pub open spec fn key_error_message(key: Seq<char>) -> Seq<char> {
    if key.len() == 0 {
        "The idempotency key cannot be empty"@
    } else {
        "The idempotency key must not exceed 50 characters"@
    }
}

/// The publish request as one state transition: given the store, the
/// requesting user, the form fields, and the issue id and timestamp the
/// fresh issue would receive, the next store state and the outcome.
pub open spec fn spec_publish(
    s: StoreModel,
    user_id: u128,
    title: Seq<char>,
    text: Seq<char>,
    html: Seq<char>,
    key: Seq<char>,
    issue_id: u128,
    published_at: i64,
) -> (StoreModel, PublishOutcomeModel) {
    if !form_data_valid(title, text, html) {
        (
            s,
            PublishOutcomeModel::ValidationFailed {
                message: validation_message(title, text, html),
                response: see_other_model("/admin/newsletters"@),
            },
        )
    } else if !valid_key(key) {
        (s, PublishOutcomeModel::InvalidIdempotencyKey { message: key_error_message(key) })
    } else if s.has_idem(user_id, key) {
        match s.idem_stage(user_id, key) {
            StageModel::Completed(resp) => (s, PublishOutcomeModel::Replayed { response: resp }),
            StageModel::Processing => (s, PublishOutcomeModel::Conflict),
        }
    } else {
        let s1 = with_processing(s, user_id, key);
        let tx = TransactionModel {
            user_id,
            idempotency_key: key,
            issue: Some(
                IssueModel {
                    newsletter_issue_id: issue_id,
                    title,
                    text_content: text,
                    html_content: html,
                    published_at,
                },
            ),
            task_emails: s.confirmed_emails(),
        };
        if can_commit(s1, tx) {
            (
                commit_model(s1, tx, see_other_model("/admin/dashboard"@)),
                PublishOutcomeModel::Published {
                    newsletter_issue_id: issue_id,
                    response: see_other_model("/admin/dashboard"@),
                },
            )
        } else {
            (s, PublishOutcomeModel::Failed)
        }
    }
}

/// Publish a newsletter issue under the given idempotency key, with the
/// issue id and publication timestamp supplied by the caller. The outcome
/// and the new store state follow [`spec_publish`] exactly.
pub fn publish_newsletter_at(
    store: &mut Store,
    user_id: u128,
    form: NewsletterFormData,
    newsletter_issue_id: u128,
    published_at: i64,
) -> (r: PublishOutcome)
    requires
        old(store)@.wf(),
    ensures
        final(store)@.wf(),
        ({
            let (s2, out) = spec_publish(
                old(store)@,
                user_id,
                form.title@,
                form.content_text@,
                form.content_html@,
                form.idempotency_key@,
                newsletter_issue_id,
                published_at,
            );
            final(store)@ == s2 && r@ == out
        }),
{
    let ghost pre = store@;
    let NewsletterFormData { title, content_text, content_html, idempotency_key } = form;
    let data = NewsletterData::from(title, content_text, content_html);
    if let Err(e) = validate_form_data(&data) {
        let message = e.message();
        return PublishOutcome::ValidationFailed {
            message,
            response: see_other("/admin/newsletters"),
        };
    }
    let key = match IdempotencyKey::try_from(idempotency_key) {
        Ok(k) => k,
        Err(message) => {
            return PublishOutcome::InvalidIdempotencyKey { message };
        },
    };
    let mut transaction = match try_processing(store, &key, user_id) {
        Ok(NextAction::StartProcessing(t)) => t,
        Ok(NextAction::ReturnSavedResponse(response)) => {
            return PublishOutcome::Replayed { response };
        },
        Err(IdempotencyError::Conflict) => {
            return PublishOutcome::Conflict;
        },
        Err(IdempotencyError::Unexpected(_)) => unreached(),
    };
    let ghost s1 = store@;
    insert_newsletter_issue(
        &mut transaction,
        data.title.as_str(),
        data.content_text.as_str(),
        data.content_html.as_str(),
        newsletter_issue_id,
        published_at,
    );
    enqueue_delivery_tasks(&mut transaction, store);
    proof {
        assert(store@.confirmed_emails() =~= pre.confirmed_emails());
        assert(transaction@ =~= (TransactionModel {
            user_id,
            idempotency_key: key@,
            issue: Some(
                IssueModel {
                    newsletter_issue_id,
                    title: form.title@,
                    text_content: form.content_text@,
                    html_content: form.content_html@,
                    published_at,
                },
            ),
            task_emails: pre.confirmed_emails(),
        }));
        lemma_confirmed_emails_are_confirmed(store@);
    }
    let ghost txm = transaction@;
    let response = see_other("/admin/dashboard");
    match save_response(store, transaction, response) {
        Ok(response) => {
            proof {
                assert(store@ == commit_model(s1, txm, see_other_model("/admin/dashboard"@)));
            }
            PublishOutcome::Published { newsletter_issue_id, response }
        },
        Err(IdempotencyError::Unexpected(message)) => {
            proof {
                lemma_idem_at_pushed(pre, user_id, key@);
                assert(store@.idempotency =~= pre.idempotency);
                assert(store@ =~= pre);
            }
            PublishOutcome::Failed { message }
        },
        Err(IdempotencyError::Conflict) => unreached(),
    }
}

/// For every valid publish request under a fresh idempotency key: exactly
/// one newsletter issue is created, exactly one delivery task per
/// currently-confirmed subscriber is enqueued, and nothing else changes in
/// either table — the whole fan-out of one publish.
pub proof fn lemma_publish_fanout(
    s: StoreModel,
    user_id: u128,
    title: Seq<char>,
    text: Seq<char>,
    html: Seq<char>,
    key: Seq<char>,
    issue_id: u128,
    published_at: i64,
)
    requires
        s.wf(),
        form_data_valid(title, text, html),
        valid_key(key),
        !s.has_idem(user_id, key),
        !s.has_issue(issue_id),
        s.next_task_id + s.confirmed_emails().len() <= u64::MAX,
    ensures
        ({
            let (s2, out) = spec_publish(s, user_id, title, text, html, key, issue_id, published_at);
            &&& out == (PublishOutcomeModel::Published {
                newsletter_issue_id: issue_id,
                response: see_other_model("/admin/dashboard"@),
            })
            &&& s2.issues == s.issues.push(
                IssueModel {
                    newsletter_issue_id: issue_id,
                    title,
                    text_content: text,
                    html_content: html,
                    published_at,
                },
            )
            &&& s2.tasks == s.tasks + fanout_tasks(s.next_task_id, issue_id, s.confirmed_emails())
            &&& s2.tasks.len() == s.tasks.len() + s.confirmed_emails().len()
            &&& s2.subscribers == s.subscribers
        }),
{
    let s1 = with_processing(s, user_id, key);
    lemma_idem_at_pushed(s, user_id, key);
    let tx = TransactionModel {
        user_id,
        idempotency_key: key,
        issue: Some(
            IssueModel {
                newsletter_issue_id: issue_id,
                title,
                text_content: text,
                html_content: html,
                published_at,
            },
        ),
        task_emails: s.confirmed_emails(),
    };
    assert(can_commit(s1, tx));
}

/// Delivery is eventually attempted to each: after a valid publish under a
/// fresh key, a full drain of the queue attempts exactly the sends it
/// attempted before plus one per confirmed subscriber with a deliverable
/// address — [`crate::worker::drain_backlog`] attempts exactly the queue's
/// deliverable recipients.
pub proof fn lemma_publish_fanout_is_attempted(
    s: StoreModel,
    user_id: u128,
    title: Seq<char>,
    text: Seq<char>,
    html: Seq<char>,
    key: Seq<char>,
    issue_id: u128,
    published_at: i64,
)
    requires
        s.wf(),
        form_data_valid(title, text, html),
        valid_key(key),
        !s.has_idem(user_id, key),
        !s.has_issue(issue_id),
        s.next_task_id + s.confirmed_emails().len() <= u64::MAX,
    ensures
        ({
            let (s2, out) = spec_publish(s, user_id, title, text, html, key, issue_id, published_at);
            crate::worker::valid_recipients_of(s2.tasks) == crate::worker::valid_recipients_of(
                s.tasks,
            ) + crate::worker::deliverable_of(s.confirmed_emails())
        }),
{
    lemma_publish_fanout(s, user_id, title, text, html, key, issue_id, published_at);
    let fresh = fanout_tasks(s.next_task_id, issue_id, s.confirmed_emails());
    crate::worker::lemma_recipients_distribute(s.tasks, fresh);
    crate::worker::lemma_fanout_recipients(s.next_task_id, issue_id, s.confirmed_emails());
}

/// Idempotence: once a publish request has completed under (user, key), a
/// second submission of the same request — whatever issue id or timestamp a
/// fresh run would have drawn — changes nothing and returns the saved
/// response byte-identically. In particular no second set of delivery tasks
/// is ever created.
pub proof fn lemma_publish_idempotent(
    s: StoreModel,
    user_id: u128,
    title: Seq<char>,
    text: Seq<char>,
    html: Seq<char>,
    key: Seq<char>,
    issue_id: u128,
    published_at: i64,
    second_issue_id: u128,
    second_published_at: i64,
)
    requires
        s.wf(),
        ({
            let (s2, out) = spec_publish(s, user_id, title, text, html, key, issue_id, published_at);
            out is Published
        }),
    ensures
        ({
            let (s2, out) = spec_publish(s, user_id, title, text, html, key, issue_id, published_at);
            let (s3, out2) = spec_publish(
                s2,
                user_id,
                title,
                text,
                html,
                key,
                second_issue_id,
                second_published_at,
            );
            &&& s3 == s2
            &&& (match out {
                PublishOutcomeModel::Published { response, .. } => out2 == (
                PublishOutcomeModel::Replayed { response }),
                _ => false,
            })
        }),
{
    let s1 = with_processing(s, user_id, key);
    lemma_idem_at_pushed(s, user_id, key);
    let tx = TransactionModel {
        user_id,
        idempotency_key: key,
        issue: Some(
            IssueModel {
                newsletter_issue_id: issue_id,
                title,
                text_content: text,
                html_content: html,
                published_at,
            },
        ),
        task_emails: s.confirmed_emails(),
    };
    assert(can_commit(s1, tx));
    lemma_wf_idem_push(s, s1, user_id, key);
    lemma_saved_response_round_trip(s1, tx, see_other_model("/admin/dashboard"@));
}

/// With a request for (user, key) still in flight, a concurrent submission
/// of the same pair conflicts: it performs no work and changes nothing —
/// never a duplicate fan-out.
pub proof fn lemma_publish_in_flight_conflicts(
    s: StoreModel,
    user_id: u128,
    title: Seq<char>,
    text: Seq<char>,
    html: Seq<char>,
    key: Seq<char>,
    issue_id: u128,
    published_at: i64,
)
    requires
        form_data_valid(title, text, html),
        valid_key(key),
        s.has_idem(user_id, key),
        s.idem_stage(user_id, key) is Processing,
    ensures
        spec_publish(s, user_id, title, text, html, key, issue_id, published_at) == (
        s,
        PublishOutcomeModel::Conflict,
        ),
{
}

/// Publish a newsletter issue under the given idempotency key: the issue id
/// is generated freshly and the publication timestamp read from the clock,
/// then the request proceeds as [`spec_publish`] describes for those
/// values.
pub fn publish_newsletter(store: &mut Store, user_id: u128, form: NewsletterFormData) -> (r:
    PublishOutcome)
    requires
        old(store)@.wf(),
    ensures
        final(store)@.wf(),
        exists|issue_id: u128, published_at: i64|
            {
                let (s2, out) = #[trigger] spec_publish(
                    old(store)@,
                    user_id,
                    form.title@,
                    form.content_text@,
                    form.content_html@,
                    form.idempotency_key@,
                    issue_id,
                    published_at,
                );
                final(store)@ == s2 && r@ == out
            },
{
    let newsletter_issue_id = fresh_id();
    let published_at = now_timestamp();
    let r = publish_newsletter_at(store, user_id, form, newsletter_issue_id, published_at);
    proof {
        let (s2, out) = spec_publish(
            old(store)@,
            user_id,
            form.title@,
            form.content_text@,
            form.content_html@,
            form.idempotency_key@,
            newsletter_issue_id,
            published_at,
        );
        assert(store@ == s2 && r@ == out);
    }
    r
}

} // verus!
