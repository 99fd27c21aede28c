//! The durable state of the newsletter service and its row-level operations.
//!
//! One [`Store`] value models everything the service persists: subscribers
//! and their confirmation tokens, published newsletter issues, the delivery
//! queue (the outbox), and the idempotency records of the publish endpoint.
//! A database owns this state in a deployment; here every transition on it is
//! a verified function, and [`StoreModel::wf`] states the cross-table
//! invariants (uniqueness of keys, referential integrity, and the guarantee
//! that delivery tasks only ever point at confirmed subscribers).

use vstd::prelude::*;

verus! {

use vstd::pervasive::VecAdditionalExecFns;
use vstd::string::StrSliceExecFns;
use crate::helpers::str_eq;
use crate::http::{SavedResponse, SavedResponseModel};
use crate::domain::NewSubscriber;
use crate::idempotency::valid_key;

/// A row-level storage failure: the in-memory stand-ins for a violated
/// unique constraint and a violated foreign-key constraint.
#[derive(Clone, Copy, Debug, PartialEq, Eq, Structural)]
pub enum StorageError {
    UniquenessViolation,
    MissingReference,
}

/// Whether a subscriber has completed the double opt-in confirmation.
/// Only confirmed subscribers receive newsletter issues.
#[derive(Clone, Copy, Debug, PartialEq, Eq, Structural)]
pub enum SubscriberStatus {
    PendingConfirmation,
    Confirmed,
}

/// One subscriber row: identity, contact address, and confirmation status.
pub struct Subscriber {
    pub id: u128,
    pub email: String,
    pub name: String,
    pub status: SubscriberStatus,
}

/// The mathematical image of a subscriber row.
#[verifier::ext_equal]
pub struct SubscriberModel {
    pub id: u128,
    pub email: Seq<char>,
    pub name: Seq<char>,
    pub status: SubscriberStatus,
}

impl View for Subscriber {
    type V = SubscriberModel;

    open spec fn view(&self) -> SubscriberModel {
        SubscriberModel {
            id: self.id,
            email: self.email@,
            name: self.name@,
            status: self.status,
        }
    }
}

/// One confirmation-token row, pointing at the subscriber it confirms.
pub struct SubscriptionToken {
    pub token: String,
    pub subscriber_id: u128,
}

/// The mathematical image of a token row.
#[verifier::ext_equal]
pub struct TokenModel {
    pub token: Seq<char>,
    pub subscriber_id: u128,
}

impl View for SubscriptionToken {
    type V = TokenModel;

    open spec fn view(&self) -> TokenModel {
        TokenModel { token: self.token@, subscriber_id: self.subscriber_id }
    }
}

/// A published newsletter issue. Immutable once created; delivery tasks
/// reference it by id and never duplicate its content.
pub struct NewsletterIssue {
    pub newsletter_issue_id: u128,
    pub title: String,
    pub text_content: String,
    pub html_content: String,
    pub published_at: i64,
}

/// The mathematical image of an issue row.
#[verifier::ext_equal]
pub struct IssueModel {
    pub newsletter_issue_id: u128,
    pub title: Seq<char>,
    pub text_content: Seq<char>,
    pub html_content: Seq<char>,
    pub published_at: i64,
}

impl View for NewsletterIssue {
    type V = IssueModel;

    open spec fn view(&self) -> IssueModel {
        IssueModel {
            newsletter_issue_id: self.newsletter_issue_id,
            title: self.title@,
            text_content: self.text_content@,
            html_content: self.html_content@,
            published_at: self.published_at,
        }
    }
}

/// One unit of outstanding delivery work: send one issue to one subscriber.
/// `claimed` models the row lock a worker holds while it attempts the send;
/// a claimed task is invisible to other workers, and releasing the claim
/// (instead of deleting the row) re-queues the task unchanged.
pub struct DeliveryTask {
    pub task_id: u64,
    pub newsletter_issue_id: u128,
    pub subscriber_email: String,
    pub claimed: bool,
}

/// The mathematical image of a delivery task row.
#[verifier::ext_equal]
pub struct TaskModel {
    pub task_id: u64,
    pub newsletter_issue_id: u128,
    pub subscriber_email: Seq<char>,
    pub claimed: bool,
}

impl View for DeliveryTask {
    type V = TaskModel;

    open spec fn view(&self) -> TaskModel {
        TaskModel {
            task_id: self.task_id,
            newsletter_issue_id: self.newsletter_issue_id,
            subscriber_email: self.subscriber_email@,
            claimed: self.claimed,
        }
    }
}

/// The lifecycle of an idempotency record: created as `Processing` the
/// moment a fresh publish request begins, completed exactly once with the
/// response that every retry of the same request will observe.
pub enum IdempotencyStage {
    Processing,
    Completed(SavedResponse),
}

/// The mathematical image of an idempotency stage.
#[verifier::ext_equal]
pub enum StageModel {
    Processing,
    Completed(SavedResponseModel),
}

impl View for IdempotencyStage {
    type V = StageModel;

    open spec fn view(&self) -> StageModel {
        match self {
            IdempotencyStage::Processing => StageModel::Processing,
            IdempotencyStage::Completed(r) => StageModel::Completed(r@),
        }
    }
}

/// One idempotency record, keyed by (requesting user, idempotency key).
pub struct IdempotencyRecord {
    pub user_id: u128,
    pub idempotency_key: String,
    pub stage: IdempotencyStage,
}

/// The mathematical image of an idempotency record.
#[verifier::ext_equal]
pub struct IdempotencyRecordModel {
    pub user_id: u128,
    pub idempotency_key: Seq<char>,
    pub stage: StageModel,
}

impl View for IdempotencyRecord {
    type V = IdempotencyRecordModel;

    open spec fn view(&self) -> IdempotencyRecordModel {
        IdempotencyRecordModel {
            user_id: self.user_id,
            idempotency_key: self.idempotency_key@,
            stage: self.stage@,
        }
    }
}

/// Everything the service persists, in one value.
pub struct Store {
    pub subscribers: Vec<Subscriber>,
    pub tokens: Vec<SubscriptionToken>,
    pub issues: Vec<NewsletterIssue>,
    pub tasks: Vec<DeliveryTask>,
    pub idempotency: Vec<IdempotencyRecord>,
    pub next_task_id: u64,
}

/// The mathematical image of the whole store.
#[verifier::ext_equal]
pub struct StoreModel {
    pub subscribers: Seq<SubscriberModel>,
    pub tokens: Seq<TokenModel>,
    pub issues: Seq<IssueModel>,
    pub tasks: Seq<TaskModel>,
    pub idempotency: Seq<IdempotencyRecordModel>,
    pub next_task_id: u64,
}

impl View for Store {
    type V = StoreModel;

    open spec fn view(&self) -> StoreModel {
        StoreModel {
            subscribers: self.subscribers@.map_values(|x: Subscriber| x@),
            tokens: self.tokens@.map_values(|x: SubscriptionToken| x@),
            issues: self.issues@.map_values(|x: NewsletterIssue| x@),
            tasks: self.tasks@.map_values(|x: DeliveryTask| x@),
            idempotency: self.idempotency@.map_values(|x: IdempotencyRecord| x@),
            next_task_id: self.next_task_id,
        }
    }
}

/// Whether record `r` belongs to (user `u`, key `k`).
pub open spec fn record_matches(r: IdempotencyRecordModel, u: u128, k: Seq<char>) -> bool {
    r.user_id == u && r.idempotency_key == k
}

impl StoreModel {
    /// Whether an idempotency record exists for (user `u`, key `k`).
    pub open spec fn has_idem(self, u: u128, k: Seq<char>) -> bool {
        exists|i: int|
            0 <= i < self.idempotency.len() && #[trigger] record_matches(self.idempotency[i], u, k)
    }

    /// The index of the idempotency record of (user `u`, key `k`);
    /// meaningful when `has_idem` holds and the records are unique.
    pub open spec fn idem_at(self, u: u128, k: Seq<char>) -> int {
        choose|i: int|
            0 <= i < self.idempotency.len() && #[trigger] record_matches(self.idempotency[i], u, k)
    }

    /// The stage recorded for (user `u`, key `k`).
    pub open spec fn idem_stage(self, u: u128, k: Seq<char>) -> StageModel {
        self.idempotency[self.idem_at(u, k)].stage
    }

    /// Whether a subscriber row with `id` exists.
    pub open spec fn has_subscriber(self, id: u128) -> bool {
        exists|i: int| 0 <= i < self.subscribers.len() && (#[trigger] self.subscribers[i]).id == id
    }

    /// The index of the subscriber row with `id`.
    pub open spec fn subscriber_at(self, id: u128) -> int {
        choose|i: int| 0 <= i < self.subscribers.len() && (#[trigger] self.subscribers[i]).id == id
    }

    /// Whether a subscriber row with `email` exists.
    pub open spec fn has_subscriber_email(self, email: Seq<char>) -> bool {
        exists|i: int|
            0 <= i < self.subscribers.len() && (#[trigger] self.subscribers[i]).email == email
    }

    /// Whether an issue row with `id` exists.
    pub open spec fn has_issue(self, id: u128) -> bool {
        exists|i: int|
            0 <= i < self.issues.len() && (#[trigger] self.issues[i]).newsletter_issue_id == id
    }

    /// The index of the issue row with `id`.
    pub open spec fn issue_at(self, id: u128) -> int {
        choose|i: int|
            0 <= i < self.issues.len() && (#[trigger] self.issues[i]).newsletter_issue_id == id
    }

    /// Whether a token row with `token` exists.
    pub open spec fn has_token(self, token: Seq<char>) -> bool {
        exists|i: int| 0 <= i < self.tokens.len() && (#[trigger] self.tokens[i]).token == token
    }

    /// The index of the token row with `token`.
    pub open spec fn token_at(self, token: Seq<char>) -> int {
        choose|i: int| 0 <= i < self.tokens.len() && (#[trigger] self.tokens[i]).token == token
    }

    /// Whether a task row with `task_id` exists.
    pub open spec fn has_task(self, task_id: u64) -> bool {
        exists|i: int| 0 <= i < self.tasks.len() && (#[trigger] self.tasks[i]).task_id == task_id
    }

    /// The index of the task row with `task_id`.
    pub open spec fn task_at(self, task_id: u64) -> int {
        choose|i: int| 0 <= i < self.tasks.len() && (#[trigger] self.tasks[i]).task_id == task_id
    }

    /// No two idempotency records share (user, key).
    pub open spec fn idem_unique(self) -> bool {
        forall|i: int, j: int|
            #![trigger self.idempotency[i], self.idempotency[j]]
            0 <= i < j < self.idempotency.len() ==> !(self.idempotency[i].user_id
                == self.idempotency[j].user_id && self.idempotency[i].idempotency_key
                == self.idempotency[j].idempotency_key)
    }

    /// Every idempotency record carries a key that passed validation.
    pub open spec fn idem_keys_valid(self) -> bool {
        forall|i: int|
            0 <= i < self.idempotency.len() ==> valid_key(
                #[trigger] self.idempotency[i].idempotency_key,
            )
    }

    /// Subscriber ids are unique.
    pub open spec fn subscriber_ids_unique(self) -> bool {
        forall|i: int, j: int|
            #![trigger self.subscribers[i], self.subscribers[j]]
            0 <= i < j < self.subscribers.len() ==> self.subscribers[i].id
                != self.subscribers[j].id
    }

    /// Subscriber emails are unique.
    pub open spec fn subscriber_emails_unique(self) -> bool {
        forall|i: int, j: int|
            #![trigger self.subscribers[i], self.subscribers[j]]
            0 <= i < j < self.subscribers.len() ==> self.subscribers[i].email
                != self.subscribers[j].email
    }

    /// Issue ids are unique.
    pub open spec fn issue_ids_unique(self) -> bool {
        forall|i: int, j: int|
            #![trigger self.issues[i], self.issues[j]]
            0 <= i < j < self.issues.len() ==> self.issues[i].newsletter_issue_id
                != self.issues[j].newsletter_issue_id
    }

    /// Task ids are unique and below the allocation counter.
    pub open spec fn task_ids_unique(self) -> bool {
        &&& forall|i: int, j: int|
            #![trigger self.tasks[i], self.tasks[j]]
            0 <= i < j < self.tasks.len() ==> self.tasks[i].task_id != self.tasks[j].task_id
        &&& forall|i: int|
            0 <= i < self.tasks.len() ==> (#[trigger] self.tasks[i].task_id) < self.next_task_id
    }

    /// Token strings are unique and every token points at an existing
    /// subscriber.
    pub open spec fn tokens_wf(self) -> bool {
        &&& forall|i: int, j: int|
            #![trigger self.tokens[i], self.tokens[j]]
            0 <= i < j < self.tokens.len() ==> self.tokens[i].token != self.tokens[j].token
        &&& forall|i: int|
            0 <= i < self.tokens.len() ==> self.has_subscriber(
                #[trigger] self.tokens[i].subscriber_id,
            )
    }

    /// Every delivery task points at an existing issue.
    pub open spec fn tasks_reference_issues(self) -> bool {
        forall|i: int|
            0 <= i < self.tasks.len() ==> self.has_issue(
                #[trigger] self.tasks[i].newsletter_issue_id,
            )
    }

    /// Whether some confirmed subscriber has address `email`.
    pub open spec fn confirmed_email_exists(self, email: Seq<char>) -> bool {
        exists|j: int|
            0 <= j < self.subscribers.len() && (#[trigger] self.subscribers[j]).email == email
                && self.subscribers[j].status == SubscriberStatus::Confirmed
    }

    /// Every delivery task addresses the email of a subscriber who is
    /// confirmed: no task ever references an unconfirmed subscriber.
    pub open spec fn tasks_reference_confirmed(self) -> bool {
        forall|i: int|
            0 <= i < self.tasks.len() ==> self.confirmed_email_exists(
                (#[trigger] self.tasks[i]).subscriber_email,
            )
    }

    /// The well-formedness of the whole store: uniqueness of every key,
    /// referential integrity of tokens and tasks, validity of idempotency
    /// keys, and the confirmed-subscribers-only discipline of the outbox.
    pub open spec fn wf(self) -> bool {
        &&& self.idem_unique()
        &&& self.idem_keys_valid()
        &&& self.subscriber_ids_unique()
        &&& self.subscriber_emails_unique()
        &&& self.issue_ids_unique()
        &&& self.task_ids_unique()
        &&& self.tokens_wf()
        &&& self.tasks_reference_issues()
        &&& self.tasks_reference_confirmed()
    }

    /// The emails of the currently confirmed subscribers, in table order.
    pub open spec fn confirmed_emails(self) -> Seq<Seq<char>> {
        confirmed_emails_of(self.subscribers)
    }

    /// How many tasks are pending, i.e. not currently claimed by a worker.
    pub open spec fn pending_tasks(self) -> Seq<TaskModel> {
        self.tasks.filter(|t: TaskModel| !t.claimed)
    }
}

/// The emails of the confirmed subscribers among `subs`, in order.
pub open spec fn confirmed_emails_of(subs: Seq<SubscriberModel>) -> Seq<Seq<char>>
    decreases subs.len(),
{
    if subs.len() == 0 {
        Seq::empty()
    } else {
        let rest = confirmed_emails_of(subs.drop_last());
        if subs.last().status == SubscriberStatus::Confirmed {
            rest.push(subs.last().email)
        } else {
            rest
        }
    }
}

/// If some record at index `i` matches (u, k) and records are unique, then
/// `idem_at` is exactly `i`.
pub proof fn lemma_idem_at(s: StoreModel, u: u128, k: Seq<char>, i: int)
    requires
        s.idem_unique(),
        0 <= i < s.idempotency.len(),
        record_matches(s.idempotency[i], u, k),
    ensures
        s.has_idem(u, k),
        s.idem_at(u, k) == i,
{
    assert(s.has_idem(u, k));
    let w = s.idem_at(u, k);
    assert(record_matches(s.idempotency[w], u, k));
    if w != i {
        if w < i {
            assert(!(s.idempotency[w].user_id == s.idempotency[i].user_id
                && s.idempotency[w].idempotency_key == s.idempotency[i].idempotency_key));
        } else {
            assert(!(s.idempotency[i].user_id == s.idempotency[w].user_id
                && s.idempotency[i].idempotency_key == s.idempotency[w].idempotency_key));
        }
    }
}

/// If some issue at index `i` has id `id` and issue ids are unique, then
/// `issue_at` is exactly `i`.
pub proof fn lemma_issue_at(s: StoreModel, id: u128, i: int)
    requires
        s.issue_ids_unique(),
        0 <= i < s.issues.len(),
        s.issues[i].newsletter_issue_id == id,
    ensures
        s.has_issue(id),
        s.issue_at(id) == i,
{
    assert(s.has_issue(id));
    let w = s.issue_at(id);
    assert(s.issues[w].newsletter_issue_id == id);
    if w < i {
        assert(s.issues[w].newsletter_issue_id != s.issues[i].newsletter_issue_id);
    } else if i < w {
        assert(s.issues[i].newsletter_issue_id != s.issues[w].newsletter_issue_id);
    }
}

/// If some task at index `i` has id `id` and task ids are unique, then
/// `task_at` is exactly `i`.
pub proof fn lemma_task_at(s: StoreModel, id: u64, i: int)
    requires
        s.task_ids_unique(),
        0 <= i < s.tasks.len(),
        s.tasks[i].task_id == id,
    ensures
        s.has_task(id),
        s.task_at(id) == i,
{
    assert(s.has_task(id));
    let w = s.task_at(id);
    assert(s.tasks[w].task_id == id);
    if w < i {
        assert(s.tasks[w].task_id != s.tasks[i].task_id);
    } else if i < w {
        assert(s.tasks[i].task_id != s.tasks[w].task_id);
    }
}

/// If some subscriber at index `i` has id `id` and subscriber ids are
/// unique, then `subscriber_at` is exactly `i`.
pub proof fn lemma_subscriber_at(s: StoreModel, id: u128, i: int)
    requires
        s.subscriber_ids_unique(),
        0 <= i < s.subscribers.len(),
        s.subscribers[i].id == id,
    ensures
        s.has_subscriber(id),
        s.subscriber_at(id) == i,
{
    assert(s.has_subscriber(id));
    let w = s.subscriber_at(id);
    assert(s.subscribers[w].id == id);
    if w < i {
        assert(s.subscribers[w].id != s.subscribers[i].id);
    } else if i < w {
        assert(s.subscribers[i].id != s.subscribers[w].id);
    }
}

/// If some token at index `i` carries `token` and tokens are unique, then
/// `token_at` is exactly `i`.
pub proof fn lemma_token_at(s: StoreModel, token: Seq<char>, i: int)
    requires
        s.tokens_wf(),
        0 <= i < s.tokens.len(),
        s.tokens[i].token == token,
    ensures
        s.has_token(token),
        s.token_at(token) == i,
{
    assert(s.has_token(token));
    let w = s.token_at(token);
    assert(s.tokens[w].token == token);
    if w < i {
        assert(s.tokens[w].token != s.tokens[i].token);
    } else if i < w {
        assert(s.tokens[i].token != s.tokens[w].token);
    }
}

/// In a well-formed store, no delivery task
/// references a subscriber whose status is not confirmed.
pub proof fn lemma_no_tasks_for_unconfirmed(s: StoreModel, j: int, i: int)
    requires
        s.wf(),
        0 <= j < s.subscribers.len(),
        s.subscribers[j].status != SubscriberStatus::Confirmed,
        0 <= i < s.tasks.len(),
    ensures
        s.tasks[i].subscriber_email != s.subscribers[j].email,
{
    assert(s.confirmed_email_exists(s.tasks[i].subscriber_email));
    let w = choose|w: int|
        0 <= w < s.subscribers.len() && (#[trigger] s.subscribers[w]).email
            == s.tasks[i].subscriber_email && s.subscribers[w].status
            == SubscriberStatus::Confirmed;
    if w != j {
        if w < j {
            assert(s.subscribers[w].email != s.subscribers[j].email);
        } else {
            assert(s.subscribers[j].email != s.subscribers[w].email);
        }
    }
}

/// `s` with its status set to confirmed, all else unchanged.
pub open spec fn confirmed_model(s: SubscriberModel) -> SubscriberModel {
    SubscriberModel { status: SubscriberStatus::Confirmed, ..s }
}

/// Appending a subscriber row with a fresh id and a fresh email preserves
/// well-formedness.
proof fn lemma_wf_subscriber_push(pre: StoreModel, post: StoreModel, s: SubscriberModel)
    requires
        pre.wf(),
        post.subscribers == pre.subscribers.push(s),
        post.tokens == pre.tokens,
        post.issues == pre.issues,
        post.tasks == pre.tasks,
        post.idempotency == pre.idempotency,
        post.next_task_id == pre.next_task_id,
        forall|j: int| 0 <= j < pre.subscribers.len() ==> (#[trigger] pre.subscribers[j]).id != s.id,
        forall|j: int|
            0 <= j < pre.subscribers.len() ==> (#[trigger] pre.subscribers[j]).email != s.email,
    ensures
        post.wf(),
{
    assert forall|i: int|
        0 <= i < post.tasks.len() implies post.confirmed_email_exists(
        (#[trigger] post.tasks[i]).subscriber_email,
    ) by {
        assert(pre.confirmed_email_exists(pre.tasks[i].subscriber_email));
        let w = choose|w: int|
            0 <= w < pre.subscribers.len() && (#[trigger] pre.subscribers[w]).email
                == pre.tasks[i].subscriber_email && pre.subscribers[w].status
                == SubscriberStatus::Confirmed;
        assert(post.subscribers[w] == pre.subscribers[w]);
    }
    assert forall|i: int|
        0 <= i < post.tokens.len() implies post.has_subscriber(
        (#[trigger] post.tokens[i]).subscriber_id,
    ) by {
        assert(pre.has_subscriber(pre.tokens[i].subscriber_id));
        let w = choose|w: int|
            0 <= w < pre.subscribers.len() && (#[trigger] pre.subscribers[w]).id
                == pre.tokens[i].subscriber_id;
        assert(post.subscribers[w].id == pre.tokens[i].subscriber_id);
    }
}

/// Setting one subscriber's status to confirmed, all else unchanged,
/// preserves well-formedness.
proof fn lemma_wf_confirm_update(pre: StoreModel, post: StoreModel, ix: int)
    requires
        pre.wf(),
        0 <= ix < pre.subscribers.len(),
        post.subscribers == pre.subscribers.update(ix, confirmed_model(pre.subscribers[ix])),
        post.tokens == pre.tokens,
        post.issues == pre.issues,
        post.tasks == pre.tasks,
        post.idempotency == pre.idempotency,
        post.next_task_id == pre.next_task_id,
    ensures
        post.wf(),
{
    assert forall|i: int|
        0 <= i < post.tasks.len() implies post.confirmed_email_exists(
        (#[trigger] post.tasks[i]).subscriber_email,
    ) by {
        assert(pre.confirmed_email_exists(pre.tasks[i].subscriber_email));
        let w = choose|w: int|
            0 <= w < pre.subscribers.len() && (#[trigger] pre.subscribers[w]).email
                == pre.tasks[i].subscriber_email && pre.subscribers[w].status
                == SubscriberStatus::Confirmed;
        assert(post.subscribers[w].email == pre.subscribers[w].email);
        assert(post.subscribers[w].status == SubscriberStatus::Confirmed);
    }
    assert forall|i: int|
        0 <= i < post.tokens.len() implies post.has_subscriber(
        (#[trigger] post.tokens[i]).subscriber_id,
    ) by {
        assert(pre.has_subscriber(pre.tokens[i].subscriber_id));
        let w = choose|w: int|
            0 <= w < pre.subscribers.len() && (#[trigger] pre.subscribers[w]).id
                == pre.tokens[i].subscriber_id;
        assert(post.subscribers[w].id == pre.tokens[i].subscriber_id);
    }
}

/// Appending a token row with a fresh token string that points at an
/// existing subscriber preserves well-formedness.
proof fn lemma_wf_token_push(pre: StoreModel, post: StoreModel, t: TokenModel)
    requires
        pre.wf(),
        post.tokens == pre.tokens.push(t),
        post.subscribers == pre.subscribers,
        post.issues == pre.issues,
        post.tasks == pre.tasks,
        post.idempotency == pre.idempotency,
        post.next_task_id == pre.next_task_id,
        forall|j: int| 0 <= j < pre.tokens.len() ==> (#[trigger] pre.tokens[j]).token != t.token,
        pre.has_subscriber(t.subscriber_id),
    ensures
        post.wf(),
{
    assert forall|i: int|
        0 <= i < post.tasks.len() implies post.confirmed_email_exists(
        (#[trigger] post.tasks[i]).subscriber_email,
    ) by {
        assert(pre.confirmed_email_exists(pre.tasks[i].subscriber_email));
    }
    assert forall|i: int|
        0 <= i < post.tokens.len() implies post.has_subscriber(
        (#[trigger] post.tokens[i]).subscriber_id,
    ) by {
        if i < pre.tokens.len() {
            assert(pre.has_subscriber(pre.tokens[i].subscriber_id));
        } else {
            assert(post.tokens[i] == t);
            assert(pre.has_subscriber(t.subscriber_id));
        }
    }
}

impl Store {
    /// Add one raw subscriber row, as the surrounding system would have
    /// written it; the id and the email must both be unused. Unlike
    /// [`Store::insert_subscriber`] this accepts any stored field values,
    /// matching a database whose rows other programs may have written.
    pub fn add_subscriber_row(
        &mut self,
        id: u128,
        email: String,
        name: String,
        status: SubscriberStatus,
    ) -> (r: Result<(), StorageError>)
        requires
            old(self)@.wf(),
        ensures
            final(self)@.wf(),
            (match r {
                Ok(()) => !old(self)@.has_subscriber(id) && !old(self)@.has_subscriber_email(
                    email@,
                ) && final(self)@ == (StoreModel {
                    subscribers: old(self)@.subscribers.push(
                        SubscriberModel { id, email: email@, name: name@, status },
                    ),
                    ..old(self)@
                }),
                Err(StorageError::UniquenessViolation) => (old(self)@.has_subscriber(id) || old(self)@.has_subscriber_email(email@)) && *final(self) == *old(self),
                Err(StorageError::MissingReference) => false,
            }),
    {
        let n = self.subscribers.len();
        let mut i: usize = 0;
        while i < n
            invariant
                n == self.subscribers.len(),
                0 <= i <= n,
                *self == *old(self),
                self@.wf(),
                self@.subscribers.len() == n,
                forall|j: int| 0 <= j < i ==> (#[trigger] self@.subscribers[j]).id != id,
                forall|j: int| 0 <= j < i ==> (#[trigger] self@.subscribers[j]).email != email@,
            decreases n - i,
        {
            if self.subscribers[i].id == id {
                assert(self@.subscribers[i as int].id == id);
                assert(self@.has_subscriber(id));
                return Err(StorageError::UniquenessViolation);
            }
            if str_eq(self.subscribers[i].email.as_str(), email.as_str()) {
                assert(self@.subscribers[i as int].email == email@);
                assert(self@.has_subscriber_email(email@));
                return Err(StorageError::UniquenessViolation);
            }
            i += 1;
        }
        let ghost pre = self@;
        let ghost subm = SubscriberModel { id, email: email@, name: name@, status };
        self.subscribers.push(Subscriber { id, email, name, status });
        proof {
            assert(self@.subscribers =~= pre.subscribers.push(subm));
            assert(self@ =~= (StoreModel { subscribers: pre.subscribers.push(subm), ..pre }));
            lemma_wf_subscriber_push(pre, self@, subm);
        }
        Ok(())
    }

    /// Save a validated new subscriber, with a pending confirmation status;
    /// `subscriber_id` and the subscriber's email must both be unused.
    pub fn insert_subscriber(&mut self, subscriber_id: u128, subscriber: NewSubscriber) -> (r:
        Result<(), StorageError>)
        requires
            old(self)@.wf(),
        ensures
            final(self)@.wf(),
            (match r {
                Ok(()) => !old(self)@.has_subscriber(subscriber_id) && !old(self)@.has_subscriber_email(subscriber.email@) && final(self)@ == (StoreModel {
                    subscribers: old(self)@.subscribers.push(
                        SubscriberModel {
                            id: subscriber_id,
                            email: subscriber.email@,
                            name: subscriber.name@,
                            status: SubscriberStatus::PendingConfirmation,
                        },
                    ),
                    ..old(self)@
                }),
                Err(StorageError::UniquenessViolation) => (old(self)@.has_subscriber(subscriber_id)
                    || old(self)@.has_subscriber_email(subscriber.email@)) && *final(self) == *old(self),
                Err(StorageError::MissingReference) => false,
            }),
    {
        let NewSubscriber { email, name } = subscriber;
        self.add_subscriber_row(
            subscriber_id,
            email.into_string(),
            name.into_string(),
            SubscriberStatus::PendingConfirmation,
        )
    }

    /// Mark the subscriber with `subscriber_id` as confirmed. Like the
    /// row update it models, this succeeds vacuously when no such row
    /// exists.
    pub fn confirm_subscriber(&mut self, subscriber_id: u128)
        requires
            old(self)@.wf(),
        ensures
            final(self)@.wf(),
            old(self)@.has_subscriber(subscriber_id) ==> final(self)@ == (StoreModel {
                subscribers: old(self)@.subscribers.update(
                    old(self)@.subscriber_at(subscriber_id),
                    confirmed_model(
                        old(self)@.subscribers[old(self)@.subscriber_at(subscriber_id)],
                    ),
                ),
                ..old(self)@
            }),
            !old(self)@.has_subscriber(subscriber_id) ==> *final(self) == *old(self),
    {
        let n = self.subscribers.len();
        let mut i: usize = 0;
        while i < n
            invariant
                n == self.subscribers.len(),
                0 <= i <= n,
                *self == *old(self),
                self@.wf(),
                self@.subscribers.len() == n,
                forall|j: int| 0 <= j < i ==> (#[trigger] self@.subscribers[j]).id != subscriber_id,
            decreases n - i,
        {
            if self.subscribers[i].id == subscriber_id {
                let ghost pre = self@;
                proof {
                    lemma_subscriber_at(pre, subscriber_id, i as int);
                }
                let updated = Subscriber {
                    id: self.subscribers[i].id,
                    email: self.subscribers[i].email.clone(),
                    name: self.subscribers[i].name.clone(),
                    status: SubscriberStatus::Confirmed,
                };
                self.subscribers.set(i, updated);
                proof {
                    assert(self@.subscribers =~= pre.subscribers.update(
                        i as int,
                        confirmed_model(pre.subscribers[i as int]),
                    ));
                    assert(self@ =~= (StoreModel {
                        subscribers: pre.subscribers.update(
                            i as int,
                            confirmed_model(pre.subscribers[i as int]),
                        ),
                        ..pre
                    }));
                    lemma_wf_confirm_update(pre, self@, i as int);
                }
                return ;
            }
            i += 1;
        }
        assert(!self@.has_subscriber(subscriber_id));
    }

    /// Save a confirmation token for an existing subscriber; the token
    /// string must be unused and the subscriber must exist.
    pub fn store_token_row(&mut self, subscriber_id: u128, token: String) -> (r: Result<
        (),
        StorageError,
    >)
        requires
            old(self)@.wf(),
        ensures
            final(self)@.wf(),
            (match r {
                Ok(()) => !old(self)@.has_token(token@) && old(self)@.has_subscriber(subscriber_id)
                    && final(self)@ == (StoreModel {
                    tokens: old(self)@.tokens.push(TokenModel { token: token@, subscriber_id }),
                    ..old(self)@
                }),
                Err(StorageError::UniquenessViolation) => old(self)@.has_token(token@) && *final(self) == *old(self),
                Err(StorageError::MissingReference) => !old(self)@.has_token(token@) && !old(self)@.has_subscriber(subscriber_id) && *final(self) == *old(self),
            }),
    {
        let n = self.tokens.len();
        let mut i: usize = 0;
        while i < n
            invariant
                n == self.tokens.len(),
                0 <= i <= n,
                *self == *old(self),
                self@.wf(),
                self@.tokens.len() == n,
                forall|j: int| 0 <= j < i ==> (#[trigger] self@.tokens[j]).token != token@,
            decreases n - i,
        {
            if str_eq(self.tokens[i].token.as_str(), token.as_str()) {
                assert(self@.tokens[i as int].token == token@);
                assert(self@.has_token(token@));
                return Err(StorageError::UniquenessViolation);
            }
            i += 1;
        }
        if !self.subscriber_exists(subscriber_id) {
            return Err(StorageError::MissingReference);
        }
        let ghost pre = self@;
        let ghost tm = TokenModel { token: token@, subscriber_id };
        self.tokens.push(SubscriptionToken { token, subscriber_id });
        proof {
            assert(self@.tokens =~= pre.tokens.push(tm));
            assert(self@ =~= (StoreModel { tokens: pre.tokens.push(tm), ..pre }));
            lemma_wf_token_push(pre, self@, tm);
        }
        Ok(())
    }

    /// Find the idempotency record of (user `user_id`, key `key`), if any.
    pub(crate) fn find_idem_index(&self, user_id: u128, key: &str) -> (r: Option<usize>)
        ensures
            (match r {
                Some(i) => i < self.idempotency.len() && record_matches(
                    self@.idempotency[i as int],
                    user_id,
                    key@,
                ),
                None => !self@.has_idem(user_id, key@),
            }),
    {
        let n = self.idempotency.len();
        let mut i: usize = 0;
        while i < n
            invariant
                n == self.idempotency.len(),
                0 <= i <= n,
                self@.idempotency.len() == n,
                forall|j: int|
                    0 <= j < i ==> !record_matches(#[trigger] self@.idempotency[j], user_id, key@),
            decreases n - i,
        {
            if self.idempotency[i].user_id == user_id && str_eq(
                self.idempotency[i].idempotency_key.as_str(),
                key,
            ) {
                assert(record_matches(self@.idempotency[i as int], user_id, key@));
                return Some(i);
            }
            i += 1;
        }
        None
    }

    /// Whether an issue row with `id` exists.
    pub fn issue_exists(&self, id: u128) -> (r: bool)
        ensures
            r == self@.has_issue(id),
    {
        let n = self.issues.len();
        let mut i: usize = 0;
        while i < n
            invariant
                n == self.issues.len(),
                0 <= i <= n,
                self@.issues.len() == n,
                forall|j: int| 0 <= j < i ==> (#[trigger] self@.issues[j]).newsletter_issue_id != id,
            decreases n - i,
        {
            if self.issues[i].newsletter_issue_id == id {
                assert(self@.issues[i as int].newsletter_issue_id == id);
                return true;
            }
            i += 1;
        }
        false
    }

    /// Whether a subscriber row with `subscriber_id` exists.
    pub fn subscriber_exists(&self, subscriber_id: u128) -> (r: bool)
        ensures
            r == self@.has_subscriber(subscriber_id),
    {
        let n = self.subscribers.len();
        let mut i: usize = 0;
        while i < n
            invariant
                n == self.subscribers.len(),
                0 <= i <= n,
                self@.subscribers.len() == n,
                forall|j: int| 0 <= j < i ==> (#[trigger] self@.subscribers[j]).id != subscriber_id,
            decreases n - i,
        {
            if self.subscribers[i].id == subscriber_id {
                assert(self@.subscribers[i as int].id == subscriber_id);
                return true;
            }
            i += 1;
        }
        false
    }

    /// Look up which subscriber a confirmation token belongs to.
    pub fn get_subscriber_id_from_token(&self, subscription_token: &str) -> (r: Option<u128>)
        requires
            self@.wf(),
        ensures
            (match r {
                Some(id) => self@.has_token(subscription_token@) && id
                    == self@.tokens[self@.token_at(subscription_token@)].subscriber_id,
                None => !self@.has_token(subscription_token@),
            }),
    {
        let n = self.tokens.len();
        let mut i: usize = 0;
        while i < n
            invariant
                n == self.tokens.len(),
                0 <= i <= n,
                self@.wf(),
                self@.tokens.len() == n,
                forall|j: int|
                    0 <= j < i ==> (#[trigger] self@.tokens[j]).token != subscription_token@,
            decreases n - i,
        {
            if str_eq(self.tokens[i].token.as_str(), subscription_token) {
                proof {
                    lemma_token_at(self@, subscription_token@, i as int);
                }
                return Some(self.tokens[i].subscriber_id);
            }
            i += 1;
        }
        None
    }

    /// The emails of the currently confirmed subscribers, in table order:
    /// the read the enqueue step fans out over.
    pub fn confirmed_subscriber_emails(&self) -> (r: Vec<String>)
        ensures
            r@.map_values(|s: String| s@) == self@.confirmed_emails(),
    {
        let n = self.subscribers.len();
        let mut r: Vec<String> = Vec::new();
        let mut i: usize = 0;
        while i < n
            invariant
                n == self.subscribers.len(),
                0 <= i <= n,
                self@.subscribers.len() == n,
                r@.map_values(|s: String| s@) == confirmed_emails_of(
                    self@.subscribers.take(i as int),
                ),
            decreases n - i,
        {
            let ghost prefix = self@.subscribers.take(i as int);
            if matches!(self.subscribers[i].status, SubscriberStatus::Confirmed) {
                r.push(self.subscribers[i].email.clone());
            }
            proof {
                let next = self@.subscribers.take(i as int + 1);
                assert(next.drop_last() =~= prefix);
                assert(next.last() == self@.subscribers[i as int]);
                assert(r@.map_values(|s: String| s@) =~= confirmed_emails_of(next));
            }
            i += 1;
        }
        proof {
            assert(self@.subscribers.take(n as int) =~= self@.subscribers);
        }
        r
    }
}

/// Relies on `uuid::Uuid::new_v4` (via `as_u128`): a freshly generated
/// random identifier. Nothing is assumed of its value; a collision with an
/// existing row surfaces as a storage error, as it would under the unique
/// constraint this models.
#[verifier::external_body]
pub(crate) fn fresh_id() -> u128 {
    uuid::Uuid::new_v4().as_u128()
}

/// Relies on `chrono::Utc::now` (via `timestamp`): the current time as a
/// Unix timestamp. Nothing is assumed of its value.
#[verifier::external_body]
pub(crate) fn now_timestamp() -> i64 {
    chrono::Utc::now().timestamp()
}

impl Store {
    /// An empty store: no rows anywhere.
    pub fn new() -> (r: Store)
        ensures
            r@.wf(),
            r@.subscribers == Seq::<SubscriberModel>::empty(),
            r@.tokens == Seq::<TokenModel>::empty(),
            r@.issues == Seq::<IssueModel>::empty(),
            r@.tasks == Seq::<TaskModel>::empty(),
            r@.idempotency == Seq::<IdempotencyRecordModel>::empty(),
    {
        let r = Store {
            subscribers: Vec::new(),
            tokens: Vec::new(),
            issues: Vec::new(),
            tasks: Vec::new(),
            idempotency: Vec::new(),
            next_task_id: 0,
        };
        assert(r@.subscribers =~= Seq::<SubscriberModel>::empty());
        assert(r@.tokens =~= Seq::<TokenModel>::empty());
        assert(r@.issues =~= Seq::<IssueModel>::empty());
        assert(r@.tasks =~= Seq::<TaskModel>::empty());
        assert(r@.idempotency =~= Seq::<IdempotencyRecordModel>::empty());
        r
    }
}

} // verus!
