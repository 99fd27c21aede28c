//! The idempotency key and the idempotency-keyed write path.
//!
//! A client supplies an idempotency key with each publish request; the pair
//! (user, key) names one logical request across any number of retries.
//! `try_processing` claims the pair by inserting a `Processing` record —
//! the database-enforced mutual exclusion that stands in for a lock — and
//! `save_response` completes it, committing the newsletter issue, its
//! delivery tasks, and the recorded response as one atomic unit.

use vstd::prelude::*;

verus! {

use vstd::pervasive::VecAdditionalExecFns;
use vstd::string::StrSliceExecFns;
use vstd::string::StringExecFns;
use crate::http::{SavedResponse, SavedResponseModel};
use crate::store::{
    DeliveryTask, IdempotencyRecord, IdempotencyRecordModel, IdempotencyStage, IssueModel,
    NewsletterIssue, StageModel, Store, StoreModel, TaskModel, lemma_idem_at, record_matches,
};

/// A valid idempotency key: non-empty and at most 50 characters.
pub open spec fn valid_key(s: Seq<char>) -> bool {
    0 < s.len() <= 50
}

/// A validated idempotency key.
#[derive(Debug)]
pub struct IdempotencyKey {
    key: String,
}

impl View for IdempotencyKey {
    type V = Seq<char>;

    closed spec fn view(&self) -> Seq<char> {
        self.key@
    }
}

impl IdempotencyKey {
    /// Every key in circulation passed validation.
    #[verifier::type_invariant]
    closed spec fn validated(self) -> bool {
        valid_key(self.key@)
    }
}

impl IdempotencyKey {
    /// Accept `s` as an idempotency key exactly when it is non-empty and at
    /// most 50 characters; a malformed key is a client error, never coerced.
    pub fn try_from(s: String) -> (r: Result<IdempotencyKey, String>)
        ensures
            (match r {
                Ok(k) => k@ == s@ && valid_key(s@),
                Err(m) => {
                    &&& !valid_key(s@)
                    &&& s@.len() == 0 ==> m@ == "The idempotency key cannot be empty"@
                    &&& s@.len() > 50 ==> m@
                        == "The idempotency key must not exceed 50 characters"@
                },
            }),
    {
        let n = s.as_str().unicode_len();
        if n == 0 {
            Err(String::from_str("The idempotency key cannot be empty"))
        } else if n > 50 {
            Err(String::from_str("The idempotency key must not exceed 50 characters"))
        } else {
            Ok(IdempotencyKey { key: s })
        }
    }

    /// The key as a string slice.
    pub fn as_str(&self) -> (r: &str)
        ensures
            r@ == self@,
    {
        self.key.as_str()
    }

    /// An exact copy of the key's string.
    pub fn to_string(&self) -> (r: String)
        ensures
            r@ == self@,
    {
        self.key.clone()
    }
}

/// The open transaction of one publish request: the pending writes that
/// `save_response` will commit atomically with the completion of the
/// idempotency record, or discard as one unit on failure.
pub struct PublishTransaction {
    pub user_id: u128,
    pub idempotency_key: IdempotencyKey,
    pub issue: Option<NewsletterIssue>,
    pub task_emails: Vec<String>,
}

/// The mathematical image of an open publish transaction.
#[verifier::ext_equal]
pub struct TransactionModel {
    pub user_id: u128,
    pub idempotency_key: Seq<char>,
    pub issue: Option<IssueModel>,
    pub task_emails: Seq<Seq<char>>,
}

impl View for PublishTransaction {
    type V = TransactionModel;

    open spec fn view(&self) -> TransactionModel {
        TransactionModel {
            user_id: self.user_id,
            idempotency_key: self.idempotency_key@,
            issue: (match self.issue {
                Some(i) => Some(i@),
                None => None,
            }),
            task_emails: self.task_emails@.map_values(|s: String| s@),
        }
    }
}

/// What `try_processing` tells the publish handler to do next: carry out
/// the work under the returned transaction, or answer with the response a
/// previous run of the same request already saved.
pub enum NextAction {
    StartProcessing(PublishTransaction),
    ReturnSavedResponse(SavedResponse),
}

/// Failure of the idempotency-keyed write path. `Conflict` means another
/// request holding the same (user, key) is still in flight: transient, retry
/// shortly. `Unexpected` is the storage-fault class: fatal to the request,
/// every pending write rolled back.
#[derive(Debug)]
pub enum IdempotencyError {
    Conflict,
    Unexpected(String),
}

/// `s` with a fresh `Processing` marker for (user `u`, key `k`).
pub open spec fn with_processing(s: StoreModel, u: u128, k: Seq<char>) -> StoreModel {
    StoreModel {
        idempotency: s.idempotency.push(
            IdempotencyRecordModel { user_id: u, idempotency_key: k, stage: StageModel::Processing },
        ),
        ..s
    }
}

/// `s` with the idempotency record of (user `u`, key `k`) rolled back.
pub open spec fn without_idem(s: StoreModel, u: u128, k: Seq<char>) -> StoreModel {
    StoreModel { idempotency: s.idempotency.remove(s.idem_at(u, k)), ..s }
}

/// The delivery tasks of one fan-out: one per email, with consecutive task
/// ids starting at `start`, all pointing at `issue_id`, none claimed.
pub open spec fn fanout_tasks(start: u64, issue_id: u128, emails: Seq<Seq<char>>) -> Seq<
    TaskModel,
> {
    Seq::new(
        emails.len(),
        |i: int|
            TaskModel {
                task_id: (start + i) as u64,
                newsletter_issue_id: issue_id,
                subscriber_email: emails[i],
                claimed: false,
            },
    )
}

/// Whether the transaction `tx` can commit against `s`: its marker is still
/// `Processing`, it carries an issue whose id is unused, and the task-id
/// space does not overflow.
pub open spec fn can_commit(s: StoreModel, tx: TransactionModel) -> bool {
    &&& s.has_idem(tx.user_id, tx.idempotency_key)
    &&& s.idem_stage(tx.user_id, tx.idempotency_key) is Processing
    &&& tx.issue is Some
    &&& !s.has_issue(tx.issue->Some_0.newsletter_issue_id)
    &&& s.next_task_id + tx.task_emails.len() <= u64::MAX
}

/// The committed state: the issue inserted, one delivery task per fan-out
/// email appended, and the idempotency record completed with `resp` — all
/// three as one atomic unit.
pub open spec fn commit_model(
    s: StoreModel,
    tx: TransactionModel,
    resp: SavedResponseModel,
) -> StoreModel {
    StoreModel {
        issues: s.issues.push(tx.issue->Some_0),
        tasks: s.tasks + fanout_tasks(
            s.next_task_id,
            tx.issue->Some_0.newsletter_issue_id,
            tx.task_emails,
        ),
        idempotency: s.idempotency.update(
            s.idem_at(tx.user_id, tx.idempotency_key),
            IdempotencyRecordModel {
                user_id: tx.user_id,
                idempotency_key: tx.idempotency_key,
                stage: StageModel::Completed(resp),
            },
        ),
        next_task_id: (s.next_task_id + tx.task_emails.len()) as u64,
        ..s
    }
}

/// Whether every email in `emails` belongs to a confirmed subscriber of `s`.
pub open spec fn emails_confirmed_in(s: StoreModel, emails: Seq<Seq<char>>) -> bool {
    forall|i: int| 0 <= i < emails.len() ==> s.confirmed_email_exists(#[trigger] emails[i])
}

/// Appending a `Processing` marker for an unseen (user, key) preserves
/// well-formedness.
pub(crate) proof fn lemma_wf_idem_push(pre: StoreModel, post: StoreModel, u: u128, k: Seq<char>)
    requires
        pre.wf(),
        valid_key(k),
        !pre.has_idem(u, k),
        post == with_processing(pre, u, k),
    ensures
        post.wf(),
{
    assert forall|i: int, j: int|
        #![trigger post.idempotency[i], post.idempotency[j]]
        0 <= i < j < post.idempotency.len() implies !(post.idempotency[i].user_id
        == post.idempotency[j].user_id && post.idempotency[i].idempotency_key
        == post.idempotency[j].idempotency_key) by {
        if j == pre.idempotency.len() {
            assert(!record_matches(pre.idempotency[i], u, k));
        } else {
            assert(post.idempotency[i] == pre.idempotency[i]);
            assert(post.idempotency[j] == pre.idempotency[j]);
        }
    }
    assert forall|i: int|
        0 <= i < post.idempotency.len() implies valid_key(
        (#[trigger] post.idempotency[i]).idempotency_key,
    ) by {
        if i < pre.idempotency.len() {
            assert(valid_key(pre.idempotency[i].idempotency_key));
        }
    }
    assert forall|i: int|
        0 <= i < post.tasks.len() implies post.confirmed_email_exists(
        (#[trigger] post.tasks[i]).subscriber_email,
    ) by {
        assert(pre.confirmed_email_exists(pre.tasks[i].subscriber_email));
    }
    assert forall|i: int|
        0 <= i < post.tasks.len() implies post.has_issue(
        (#[trigger] post.tasks[i]).newsletter_issue_id,
    ) by {
        assert(pre.has_issue(pre.tasks[i].newsletter_issue_id));
        let w = choose|w: int|
            0 <= w < pre.issues.len() && (#[trigger] pre.issues[w]).newsletter_issue_id
                == pre.tasks[i].newsletter_issue_id;
        assert(post.issues[w] == pre.issues[w]);
    }
    assert forall|i: int|
        0 <= i < post.tokens.len() implies post.has_subscriber(
        (#[trigger] post.tokens[i]).subscriber_id,
    ) by {
        assert(pre.has_subscriber(pre.tokens[i].subscriber_id));
    }
}

/// Removing one idempotency record (rolling a marker back) preserves
/// well-formedness.
proof fn lemma_wf_idem_remove(pre: StoreModel, post: StoreModel, ix: int)
    requires
        pre.wf(),
        0 <= ix < pre.idempotency.len(),
        post == (StoreModel { idempotency: pre.idempotency.remove(ix), ..pre }),
    ensures
        post.wf(),
{
    assert forall|i: int, j: int|
        #![trigger post.idempotency[i], post.idempotency[j]]
        0 <= i < j < post.idempotency.len() implies !(post.idempotency[i].user_id
        == post.idempotency[j].user_id && post.idempotency[i].idempotency_key
        == post.idempotency[j].idempotency_key) by {
        let i0 = if i < ix { i } else { i + 1 };
        let j0 = if j < ix { j } else { j + 1 };
        assert(post.idempotency[i] == pre.idempotency[i0]);
        assert(post.idempotency[j] == pre.idempotency[j0]);
    }
    assert forall|i: int|
        0 <= i < post.idempotency.len() implies valid_key(
        (#[trigger] post.idempotency[i]).idempotency_key,
    ) by {
        let i0 = if i < ix { i } else { i + 1 };
        assert(post.idempotency[i] == pre.idempotency[i0]);
    }
    assert forall|i: int|
        0 <= i < post.tasks.len() implies post.confirmed_email_exists(
        (#[trigger] post.tasks[i]).subscriber_email,
    ) by {
        assert(pre.confirmed_email_exists(pre.tasks[i].subscriber_email));
    }
    assert forall|i: int|
        0 <= i < post.tasks.len() implies post.has_issue(
        (#[trigger] post.tasks[i]).newsletter_issue_id,
    ) by {
        assert(pre.has_issue(pre.tasks[i].newsletter_issue_id));
        let w = choose|w: int|
            0 <= w < pre.issues.len() && (#[trigger] pre.issues[w]).newsletter_issue_id
                == pre.tasks[i].newsletter_issue_id;
        assert(post.issues[w] == pre.issues[w]);
    }
    assert forall|i: int|
        0 <= i < post.tokens.len() implies post.has_subscriber(
        (#[trigger] post.tokens[i]).subscriber_id,
    ) by {
        assert(pre.has_subscriber(pre.tokens[i].subscriber_id));
    }
}

/// The committed state of a permissible transaction is well-formed: all
/// uniqueness, referential-integrity and confirmed-subscriber disciplines
/// survive the commit.
pub(crate) proof fn lemma_wf_commit(pre: StoreModel, post: StoreModel, tx: TransactionModel, resp: SavedResponseModel)
    requires
        pre.wf(),
        can_commit(pre, tx),
        emails_confirmed_in(pre, tx.task_emails),
        post == commit_model(pre, tx, resp),
    ensures
        post.wf(),
{
    let ix = pre.idem_at(tx.user_id, tx.idempotency_key);
    assert(record_matches(pre.idempotency[ix], tx.user_id, tx.idempotency_key));
    let issue = tx.issue->Some_0;
    let fresh = fanout_tasks(pre.next_task_id, issue.newsletter_issue_id, tx.task_emails);
    // Idempotency records: one record replaced under the same (user, key).
    assert forall|i: int, j: int|
        #![trigger post.idempotency[i], post.idempotency[j]]
        0 <= i < j < post.idempotency.len() implies !(post.idempotency[i].user_id
        == post.idempotency[j].user_id && post.idempotency[i].idempotency_key
        == post.idempotency[j].idempotency_key) by {
        assert(post.idempotency[i].user_id == pre.idempotency[i].user_id
            && post.idempotency[i].idempotency_key == pre.idempotency[i].idempotency_key);
        assert(post.idempotency[j].user_id == pre.idempotency[j].user_id
            && post.idempotency[j].idempotency_key == pre.idempotency[j].idempotency_key);
    }
    assert forall|i: int|
        0 <= i < post.idempotency.len() implies valid_key(
        (#[trigger] post.idempotency[i]).idempotency_key,
    ) by {
        assert(valid_key(pre.idempotency[i].idempotency_key));
    }
    // Issue ids: the committed issue's id was unused.
    assert forall|i: int, j: int|
        #![trigger post.issues[i], post.issues[j]]
        0 <= i < j < post.issues.len() implies post.issues[i].newsletter_issue_id
        != post.issues[j].newsletter_issue_id by {
        if j == pre.issues.len() {
            assert(!pre.has_issue(issue.newsletter_issue_id));
            assert(post.issues[i] == pre.issues[i]);
            if post.issues[i].newsletter_issue_id == issue.newsletter_issue_id {
                assert(pre.has_issue(issue.newsletter_issue_id));
            }
        }
    }
    // Task ids: old ids sit below the old counter, fresh ids run from it.
    assert forall|i: int, j: int|
        #![trigger post.tasks[i], post.tasks[j]]
        0 <= i < j < post.tasks.len() implies post.tasks[i].task_id != post.tasks[j].task_id by {
        if i < pre.tasks.len() && j >= pre.tasks.len() {
            assert(pre.tasks[i].task_id < pre.next_task_id);
            assert(post.tasks[j] == fresh[j - pre.tasks.len()]);
        } else if i >= pre.tasks.len() {
            assert(post.tasks[i] == fresh[i - pre.tasks.len()]);
            assert(post.tasks[j] == fresh[j - pre.tasks.len()]);
        }
    }
    assert forall|i: int|
        0 <= i < post.tasks.len() implies (#[trigger] post.tasks[i]).task_id
        < post.next_task_id by {
        if i < pre.tasks.len() {
            assert(pre.tasks[i].task_id < pre.next_task_id);
        } else {
            assert(post.tasks[i] == fresh[i - pre.tasks.len()]);
        }
    }
    // Every task still points at an existing issue.
    assert forall|i: int|
        0 <= i < post.tasks.len() implies post.has_issue(
        (#[trigger] post.tasks[i]).newsletter_issue_id,
    ) by {
        if i < pre.tasks.len() {
            assert(pre.has_issue(pre.tasks[i].newsletter_issue_id));
            let w = choose|w: int|
                0 <= w < pre.issues.len() && (#[trigger] pre.issues[w]).newsletter_issue_id
                    == pre.tasks[i].newsletter_issue_id;
            assert(post.issues[w] == pre.issues[w]);
        } else {
            assert(post.tasks[i] == fresh[i - pre.tasks.len()]);
            assert(post.issues[pre.issues.len() as int] == issue);
        }
    }
    // Every task still addresses a confirmed subscriber.
    assert forall|i: int|
        0 <= i < post.tasks.len() implies post.confirmed_email_exists(
        (#[trigger] post.tasks[i]).subscriber_email,
    ) by {
        if i < pre.tasks.len() {
            assert(pre.confirmed_email_exists(pre.tasks[i].subscriber_email));
        } else {
            assert(post.tasks[i] == fresh[i - pre.tasks.len()]);
            assert(pre.confirmed_email_exists(tx.task_emails[i - pre.tasks.len()]));
        }
    }
    assert forall|i: int|
        0 <= i < post.tokens.len() implies post.has_subscriber(
        (#[trigger] post.tokens[i]).subscriber_id,
    ) by {
        assert(pre.has_subscriber(pre.tokens[i].subscriber_id));
    }
}

/// Begin the idempotency-keyed write path for (user, key): claim the pair
/// with a `Processing` marker and hand back an open transaction; or replay
/// the saved response of a completed run verbatim; or report the conflict
/// when another run of the same request is still in flight. The uniqueness
/// of (user, key) records is the sole concurrency-control primitive: no
/// two transactions for the same pair can ever be open at once.
pub fn try_processing(store: &mut Store, idempotency_key: &IdempotencyKey, user_id: u128) -> (r:
    Result<NextAction, IdempotencyError>)
    requires
        old(store)@.wf(),
    ensures
        final(store)@.wf(),
        (match r {
            Ok(NextAction::ReturnSavedResponse(resp)) => {
                &&& old(store)@.has_idem(user_id, idempotency_key@)
                &&& old(store)@.idem_stage(user_id, idempotency_key@) == StageModel::Completed(
                    resp@,
                )
                &&& *final(store) == *old(store)
            },
            Ok(NextAction::StartProcessing(tx)) => {
                &&& !old(store)@.has_idem(user_id, idempotency_key@)
                &&& final(store)@ == with_processing(old(store)@, user_id, idempotency_key@)
                &&& tx@ == (TransactionModel {
                    user_id,
                    idempotency_key: idempotency_key@,
                    issue: None,
                    task_emails: Seq::empty(),
                })
            },
            Err(IdempotencyError::Conflict) => {
                &&& old(store)@.has_idem(user_id, idempotency_key@)
                &&& old(store)@.idem_stage(user_id, idempotency_key@) is Processing
                &&& *final(store) == *old(store)
            },
            Err(IdempotencyError::Unexpected(_)) => false,
        }),
{
    proof {
        use_type_invariant(idempotency_key);
    }
    match store.find_idem_index(user_id, idempotency_key.as_str()) {
        Some(i) => {
            proof {
                lemma_idem_at(store@, user_id, idempotency_key@, i as int);
            }
            match &store.idempotency[i].stage {
                IdempotencyStage::Completed(resp) => Ok(
                    NextAction::ReturnSavedResponse(resp.duplicate()),
                ),
                IdempotencyStage::Processing => Err(IdempotencyError::Conflict),
            }
        },
        None => {
            let ghost pre = store@;
            store.idempotency.push(
                IdempotencyRecord {
                    user_id,
                    idempotency_key: idempotency_key.to_string(),
                    stage: IdempotencyStage::Processing,
                },
            );
            let tx = PublishTransaction {
                user_id,
                idempotency_key: IdempotencyKey { key: idempotency_key.to_string() },
                issue: None,
                task_emails: Vec::new(),
            };
            proof {
                assert(store@.idempotency =~= pre.idempotency.push(
                    IdempotencyRecordModel {
                        user_id,
                        idempotency_key: idempotency_key@,
                        stage: StageModel::Processing,
                    },
                ));
                assert(store@ =~= with_processing(pre, user_id, idempotency_key@));
                lemma_wf_idem_push(pre, store@, user_id, idempotency_key@);
                assert(tx@.task_emails =~= Seq::<Seq<char>>::empty());
                assert(tx@ =~= (TransactionModel {
                    user_id,
                    idempotency_key: idempotency_key@,
                    issue: None,
                    task_emails: Seq::empty(),
                }));
            }
            Ok(NextAction::StartProcessing(tx))
        },
    }
}

/// Complete the idempotency record of `transaction` with `http_response`
/// and commit the pending newsletter issue and its delivery tasks, all as
/// one atomic unit: after this, either all three artifacts exist, or —
/// on a storage fault — none do, the `Processing` marker included.
///
/// Requires of the caller only what the enqueue step established: every
/// pending fan-out email belongs to a confirmed subscriber.
pub fn save_response(
    store: &mut Store,
    transaction: PublishTransaction,
    http_response: SavedResponse,
) -> (r: Result<SavedResponse, IdempotencyError>)
    requires
        old(store)@.wf(),
        emails_confirmed_in(old(store)@, transaction@.task_emails),
    ensures
        final(store)@.wf(),
        (match r {
            Ok(resp) => {
                &&& can_commit(old(store)@, transaction@)
                &&& final(store)@ == commit_model(old(store)@, transaction@, http_response@)
                &&& resp@ == http_response@
            },
            Err(IdempotencyError::Unexpected(_)) => {
                &&& !can_commit(old(store)@, transaction@)
                &&& (if old(store)@.has_idem(transaction@.user_id, transaction@.idempotency_key)
                    && old(store)@.idem_stage(
                    transaction@.user_id,
                    transaction@.idempotency_key,
                ) is Processing {
                    final(store)@ == without_idem(
                        old(store)@,
                        transaction@.user_id,
                        transaction@.idempotency_key,
                    )
                } else {
                    *final(store) == *old(store)
                })
            },
            Err(IdempotencyError::Conflict) => false,
        }),
{
    let PublishTransaction { user_id, idempotency_key, issue, task_emails } = transaction;
    let ix = match store.find_idem_index(user_id, idempotency_key.as_str()) {
        Some(i) => i,
        None => {
            return Err(
                IdempotencyError::Unexpected(String::from_str("idempotency record not found")),
            );
        },
    };
    proof {
        lemma_idem_at(store@, user_id, idempotency_key@, ix as int);
    }
    match &store.idempotency[ix].stage {
        IdempotencyStage::Completed(_) => {
            return Err(
                IdempotencyError::Unexpected(
                    String::from_str("idempotency record already completed"),
                ),
            );
        },
        IdempotencyStage::Processing => {},
    }
    let issue = match issue {
        Some(issue) => issue,
        None => {
            let ghost pre = store@;
            self_rollback(store, ix);
            proof {
                lemma_wf_idem_remove(pre, store@, ix as int);
            }
            return Err(
                IdempotencyError::Unexpected(String::from_str("transaction holds no issue")),
            );
        },
    };
    if store.issue_exists(issue.newsletter_issue_id) {
        let ghost pre = store@;
        self_rollback(store, ix);
        proof {
            lemma_wf_idem_remove(pre, store@, ix as int);
        }
        return Err(IdempotencyError::Unexpected(String::from_str("newsletter issue id in use")));
    }
    let count = task_emails.len() as u64;
    let first_task_id = match store.next_task_id.checked_add(count) {
        Some(_) => store.next_task_id,
        None => {
            let ghost pre = store@;
            self_rollback(store, ix);
            proof {
                lemma_wf_idem_remove(pre, store@, ix as int);
            }
            return Err(IdempotencyError::Unexpected(String::from_str("task id space exhausted")));
        },
    };
    // Commit: issue, fan-out tasks, completed idempotency record — one unit.
    let ghost pre = store@;
    let ghost txm = TransactionModel {
        user_id,
        idempotency_key: idempotency_key@,
        issue: Some(issue@),
        task_emails: task_emails@.map_values(|s: String| s@),
    };
    let ghost issuem = issue@;
    let issue_id = issue.newsletter_issue_id;
    store.issues.push(issue);
    let ghost fresh = fanout_tasks(pre.next_task_id, issuem.newsletter_issue_id, txm.task_emails);
    proof {
        assert(store@.issues =~= pre.issues.push(issuem));
        assert(store@.tasks =~= pre.tasks + fresh.take(0));
    }
    let mut j: usize = 0;
    while j < task_emails.len()
        invariant
            0 <= j <= task_emails.len(),
            store.next_task_id == first_task_id + j,
            first_task_id + task_emails.len() <= u64::MAX,
            fresh == fanout_tasks(first_task_id, issue_id, task_emails@.map_values(|s: String| s@)),
            fresh.len() == task_emails.len(),
            store@.tasks == pre.tasks + fresh.take(j as int),
            store@.subscribers == pre.subscribers,
            store@.tokens == pre.tokens,
            store@.issues == pre.issues.push(issuem),
            store@.idempotency == pre.idempotency,
        decreases task_emails.len() - j,
    {
        let task = DeliveryTask {
            task_id: store.next_task_id,
            newsletter_issue_id: issue_id,
            subscriber_email: task_emails[j].clone(),
            claimed: false,
        };
        let ghost taskm = task@;
        let ghost before = store@.tasks;
        proof {
            assert(taskm == fresh[j as int]);
        }
        store.next_task_id = store.next_task_id + 1;
        store.tasks.push(task);
        proof {
            assert(store@.tasks =~= before.push(taskm));
            assert(fresh.take(j as int + 1) =~= fresh.take(j as int).push(fresh[j as int]));
            assert(store@.tasks =~= pre.tasks + fresh.take(j as int + 1));
        }
        j += 1;
    }
    proof {
        assert(fresh.take(task_emails@.len() as int) =~= fresh);
    }
    store.idempotency.set(
        ix,
        IdempotencyRecord {
            user_id,
            idempotency_key: idempotency_key.to_string(),
            stage: IdempotencyStage::Completed(http_response.duplicate()),
        },
    );
    proof {
        assert(store@.idempotency =~= pre.idempotency.update(
            ix as int,
            IdempotencyRecordModel {
                user_id,
                idempotency_key: idempotency_key@,
                stage: StageModel::Completed(http_response@),
            },
        ));
        assert(store@ =~= commit_model(pre, txm, http_response@));
        lemma_wf_commit(pre, store@, txm, http_response@);
    }
    Ok(http_response)
}

/// Roll the `Processing` marker at `ix` back: the in-memory image of the
/// transaction aborting.
fn self_rollback(store: &mut Store, ix: usize)
    requires
        ix < old(store).idempotency.len(),
    ensures
        final(store)@ == (StoreModel {
            idempotency: old(store)@.idempotency.remove(ix as int),
            ..old(store)@
        }),
        final(store).idempotency@.len() == old(store).idempotency@.len() - 1,
{
    let ghost pre = store@;
    store.idempotency.remove(ix);
    proof {
        assert(store@.idempotency =~= pre.idempotency.remove(ix as int));
        assert(store@ =~= (StoreModel { idempotency: pre.idempotency.remove(ix as int), ..pre }));
    }
}

/// A `Processing` marker freshly pushed for an unseen (user, key) is the
/// record `idem_at` finds, and rolling it back restores the store exactly.
pub(crate) proof fn lemma_idem_at_pushed(s: StoreModel, u: u128, k: Seq<char>)
    requires
        !s.has_idem(u, k),
    ensures
        ({
            let s1 = with_processing(s, u, k);
            &&& s1.has_idem(u, k)
            &&& s1.idem_at(u, k) == s.idempotency.len()
            &&& s1.idem_stage(u, k) == StageModel::Processing
            &&& without_idem(s1, u, k) == s
        }),
{
    let s1 = with_processing(s, u, k);
    let n = s.idempotency.len() as int;
    assert(record_matches(s1.idempotency[n], u, k));
    assert(s1.has_idem(u, k));
    let w = s1.idem_at(u, k);
    assert(record_matches(s1.idempotency[w], u, k));
    if w < n {
        assert(s1.idempotency[w] == s.idempotency[w]);
        assert(record_matches(s.idempotency[w], u, k));
        assert(s.has_idem(u, k));
    }
    assert(s1.idempotency.remove(n) =~= s.idempotency);
    assert(without_idem(s1, u, k) =~= s);
}

/// A committed response is replayed verbatim: in the committed state, the
/// record of (user, key) is `Completed` with exactly the committed
/// response, so any later request with the same pair observes it unchanged
/// — the round trip through the idempotency store is the identity.
pub proof fn lemma_saved_response_round_trip(
    s: StoreModel,
    tx: TransactionModel,
    resp: SavedResponseModel,
)
    requires
        s.wf(),
        can_commit(s, tx),
    ensures
        ({
            let s2 = commit_model(s, tx, resp);
            &&& s2.has_idem(tx.user_id, tx.idempotency_key)
            &&& s2.idem_stage(tx.user_id, tx.idempotency_key) == StageModel::Completed(resp)
        }),
{
    let s2 = commit_model(s, tx, resp);
    let ix = s.idem_at(tx.user_id, tx.idempotency_key);
    assert(record_matches(s.idempotency[ix], tx.user_id, tx.idempotency_key));
    assert(record_matches(s2.idempotency[ix], tx.user_id, tx.idempotency_key));
    assert forall|i: int, j: int|
        #![trigger s2.idempotency[i], s2.idempotency[j]]
        0 <= i < j < s2.idempotency.len() implies !(s2.idempotency[i].user_id
        == s2.idempotency[j].user_id && s2.idempotency[i].idempotency_key
        == s2.idempotency[j].idempotency_key) by {
        assert(s2.idempotency[i].user_id == s.idempotency[i].user_id
            && s2.idempotency[i].idempotency_key == s.idempotency[i].idempotency_key);
        assert(s2.idempotency[j].user_id == s.idempotency[j].user_id
            && s2.idempotency[j].idempotency_key == s.idempotency[j].idempotency_key);
    }
    lemma_idem_at(s2, tx.user_id, tx.idempotency_key, ix);
    assert(s2.idempotency[ix].stage == StageModel::Completed(resp));
}

} // verus!
