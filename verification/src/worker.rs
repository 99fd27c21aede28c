//! The delivery worker: drain the outbox to zero backlog, one task at a
//! time per worker.
//!
//! Each iteration claims one pending task — the claim models the row lock
//! that keeps two workers off the same row, and releasing it re-queues the
//! task unchanged — resolves the stored address, sends via the Email
//! Gateway, and deletes or re-queues the task by outcome: delete on
//! success, re-queue on transient failure, delete with a warning on
//! permanent failure (an unparseable address can never be retried into
//! validity). The worker never touches the idempotency store: publish and
//! delivery are decoupled.

use vstd::prelude::*;

verus! {

use vstd::pervasive::unreached;
use vstd::pervasive::VecAdditionalExecFns;
use crate::domain::{email_str_valid, valid_email};
use crate::store::{
    lemma_task_at, DeliveryTask, Store, StoreModel, TaskModel,
};

/// What the Email Gateway reported for one send. A gateway that cannot
/// tell transient from permanent failures should report transient, so that
/// deliverable mail is never silently dropped.
#[derive(Clone, Copy, Debug, PartialEq, Eq, Structural)]
pub enum SendOutcome {
    Delivered,
    TransientFailure,
    PermanentFailure,
}

/// Everything the Email Gateway needs for one send: recipient and the
/// issue's title and two bodies.
#[derive(Debug)]
pub struct SendJob {
    pub to: String,
    pub title: String,
    pub text_content: String,
    pub html_content: String,
}

/// What one poll of the queue yields.
pub enum DeliveryStep {
    /// No pending task: idle for a bounded sleep and poll again.
    Idle,
    /// The claimed task's stored address can never be delivered to: the
    /// task was dropped as a permanent failure, log and move on.
    InvalidRecipient { task_id: u64, subscriber_email: String },
    /// A task was claimed: send the job, then report the outcome with
    /// [`finish_delivery`] (or release the claim on shutdown).
    Send { task_id: u64, job: SendJob },
}

/// The pending (unclaimed) tasks of the queue, in order.
pub open spec fn pending_of(tasks: Seq<TaskModel>) -> Seq<TaskModel>
    decreases tasks.len(),
{
    if tasks.len() == 0 {
        Seq::empty()
    } else {
        let rest = pending_of(tasks.drop_first());
        if !tasks.first().claimed {
            seq![tasks.first()] + rest
        } else {
            rest
        }
    }
}

/// The addresses of the pending tasks whose stored email is deliverable,
/// in queue order: exactly the sends a full drain attempts.
pub open spec fn valid_recipients_of(tasks: Seq<TaskModel>) -> Seq<Seq<char>>
    decreases tasks.len(),
{
    if tasks.len() == 0 {
        Seq::empty()
    } else {
        let rest = valid_recipients_of(tasks.drop_first());
        if !tasks.first().claimed && valid_email(tasks.first().subscriber_email) {
            seq![tasks.first().subscriber_email] + rest
        } else {
            rest
        }
    }
}

/// A claimed prefix contributes nothing: the pending view starts at the
/// first unclaimed task.
proof fn lemma_skip_claimed_prefix(tasks: Seq<TaskModel>, i: int)
    requires
        0 <= i <= tasks.len(),
        forall|j: int| 0 <= j < i ==> (#[trigger] tasks[j]).claimed,
    ensures
        pending_of(tasks) == pending_of(tasks.skip(i)),
        valid_recipients_of(tasks) == valid_recipients_of(tasks.skip(i)),
    decreases i,
{
    if i == 0 {
        assert(tasks.skip(0) =~= tasks);
    } else {
        assert(tasks.first().claimed);
        assert(pending_of(tasks) == pending_of(tasks.drop_first()));
        assert(valid_recipients_of(tasks) == valid_recipients_of(tasks.drop_first()));
        lemma_skip_claimed_prefix(tasks.drop_first(), i - 1);
        assert(tasks.drop_first().skip(i - 1) =~= tasks.skip(i));
    }
}

/// Removing the first unclaimed task decomposes the pending view: that
/// task in front, the pending view of the remainder behind.
proof fn lemma_remove_first_unclaimed(tasks: Seq<TaskModel>, i: int)
    requires
        0 <= i < tasks.len(),
        forall|j: int| 0 <= j < i ==> (#[trigger] tasks[j]).claimed,
        !tasks[i].claimed,
    ensures
        pending_of(tasks) == seq![tasks[i]] + pending_of(tasks.remove(i)),
        valid_email(tasks[i].subscriber_email) ==> valid_recipients_of(tasks) == seq![
            tasks[i].subscriber_email,
        ] + valid_recipients_of(tasks.remove(i)),
        !valid_email(tasks[i].subscriber_email) ==> valid_recipients_of(tasks)
            == valid_recipients_of(tasks.remove(i)),
{
    lemma_skip_claimed_prefix(tasks, i);
    let tail = tasks.skip(i);
    assert(tail.first() == tasks[i]);
    assert(tail.drop_first() =~= tasks.skip(i + 1));
    assert(pending_of(tail) == seq![tasks[i]] + pending_of(tasks.skip(i + 1)));
    let removed = tasks.remove(i);
    assert forall|j: int| 0 <= j < i implies (#[trigger] removed[j]).claimed by {
        assert(removed[j] == tasks[j]);
    }
    lemma_skip_claimed_prefix(removed, i);
    assert(removed.skip(i) =~= tasks.skip(i + 1));
}

/// The queue has no pending task exactly when every task is claimed, and
/// then there is nothing to deliver to either.
pub proof fn lemma_pending_empty_iff_all_claimed(tasks: Seq<TaskModel>)
    ensures
        pending_of(tasks).len() == 0 <==> (forall|j: int|
            0 <= j < tasks.len() ==> (#[trigger] tasks[j]).claimed),
        pending_of(tasks).len() == 0 ==> valid_recipients_of(tasks) == Seq::<Seq<char>>::empty(),
    decreases tasks.len(),
{
    if tasks.len() > 0 {
        let rest = tasks.drop_first();
        lemma_pending_empty_iff_all_claimed(rest);
        assert forall|j: int| 0 <= j < rest.len() implies rest[j] == tasks[j + 1] by {}
        if !tasks.first().claimed {
            assert(!tasks[0].claimed);
            assert(pending_of(tasks).len() > 0);
        } else {
            assert(pending_of(tasks) == pending_of(rest));
            if pending_of(tasks).len() == 0 {
                assert forall|j: int|
                    0 <= j < tasks.len() implies (#[trigger] tasks[j]).claimed by {
                    if j > 0 {
                        assert(rest[j - 1].claimed);
                    }
                }
            } else {
                assert(!(forall|j: int| 0 <= j < rest.len() ==> (#[trigger] rest[j]).claimed));
                let w = choose|j: int| 0 <= j < rest.len() && !(#[trigger] rest[j]).claimed;
                assert(!tasks[w + 1].claimed);
            }
        }
    }
}

/// Removing one task preserves well-formedness.
proof fn lemma_wf_task_remove(pre: StoreModel, post: StoreModel, ix: int)
    requires
        pre.wf(),
        0 <= ix < pre.tasks.len(),
        post == (StoreModel { tasks: pre.tasks.remove(ix), ..pre }),
    ensures
        post.wf(),
{
    assert forall|i: int, j: int|
        #![trigger post.tasks[i], post.tasks[j]]
        0 <= i < j < post.tasks.len() implies post.tasks[i].task_id != post.tasks[j].task_id by {
        let i0 = if i < ix { i } else { i + 1 };
        let j0 = if j < ix { j } else { j + 1 };
        assert(post.tasks[i] == pre.tasks[i0]);
        assert(post.tasks[j] == pre.tasks[j0]);
    }
    assert forall|i: int|
        0 <= i < post.tasks.len() implies (#[trigger] post.tasks[i]).task_id
        < post.next_task_id by {
        let i0 = if i < ix { i } else { i + 1 };
        assert(post.tasks[i] == pre.tasks[i0]);
    }
    assert forall|i: int|
        0 <= i < post.tasks.len() implies post.has_issue(
        (#[trigger] post.tasks[i]).newsletter_issue_id,
    ) by {
        let i0 = if i < ix { i } else { i + 1 };
        assert(post.tasks[i] == pre.tasks[i0]);
        assert(pre.has_issue(pre.tasks[i0].newsletter_issue_id));
        let w = choose|w: int|
            0 <= w < pre.issues.len() && (#[trigger] pre.issues[w]).newsletter_issue_id
                == pre.tasks[i0].newsletter_issue_id;
        assert(post.issues[w] == pre.issues[w]);
    }
    assert forall|i: int|
        0 <= i < post.tasks.len() implies post.confirmed_email_exists(
        (#[trigger] post.tasks[i]).subscriber_email,
    ) by {
        let i0 = if i < ix { i } else { i + 1 };
        assert(post.tasks[i] == pre.tasks[i0]);
        assert(pre.confirmed_email_exists(pre.tasks[i0].subscriber_email));
        let w = choose|w: int|
            0 <= w < pre.subscribers.len() && (#[trigger] pre.subscribers[w]).email
                == pre.tasks[i0].subscriber_email && pre.subscribers[w].status
                == crate::store::SubscriberStatus::Confirmed;
        assert(post.subscribers[w] == pre.subscribers[w]);
    }
    assert forall|i: int|
        0 <= i < post.tokens.len() implies post.has_subscriber(
        (#[trigger] post.tokens[i]).subscriber_id,
    ) by {
        assert(pre.has_subscriber(pre.tokens[i].subscriber_id));
        let w = choose|w: int|
            0 <= w < pre.subscribers.len() && (#[trigger] pre.subscribers[w]).id
                == pre.tokens[i].subscriber_id;
        assert(post.subscribers[w] == pre.subscribers[w]);
    }
}

/// Toggling one task's claim flag — everything else unchanged — preserves
/// well-formedness.
proof fn lemma_wf_task_set_claimed(pre: StoreModel, post: StoreModel, ix: int, claimed: bool)
    requires
        pre.wf(),
        0 <= ix < pre.tasks.len(),
        post == (StoreModel {
            tasks: pre.tasks.update(ix, TaskModel { claimed, ..pre.tasks[ix] }),
            ..pre
        }),
    ensures
        post.wf(),
{
    assert forall|i: int, j: int|
        #![trigger post.tasks[i], post.tasks[j]]
        0 <= i < j < post.tasks.len() implies post.tasks[i].task_id != post.tasks[j].task_id by {
        assert(post.tasks[i].task_id == pre.tasks[i].task_id);
        assert(post.tasks[j].task_id == pre.tasks[j].task_id);
    }
    assert forall|i: int|
        0 <= i < post.tasks.len() implies (#[trigger] post.tasks[i]).task_id
        < post.next_task_id by {
        assert(post.tasks[i].task_id == pre.tasks[i].task_id);
    }
    assert forall|i: int|
        0 <= i < post.tasks.len() implies post.has_issue(
        (#[trigger] post.tasks[i]).newsletter_issue_id,
    ) by {
        assert(post.tasks[i].newsletter_issue_id == pre.tasks[i].newsletter_issue_id);
        assert(pre.has_issue(pre.tasks[i].newsletter_issue_id));
        let w = choose|w: int|
            0 <= w < pre.issues.len() && (#[trigger] pre.issues[w]).newsletter_issue_id
                == pre.tasks[i].newsletter_issue_id;
        assert(post.issues[w] == pre.issues[w]);
    }
    assert forall|i: int|
        0 <= i < post.tasks.len() implies post.confirmed_email_exists(
        (#[trigger] post.tasks[i]).subscriber_email,
    ) by {
        assert(post.tasks[i].subscriber_email == pre.tasks[i].subscriber_email);
        assert(pre.confirmed_email_exists(pre.tasks[i].subscriber_email));
        let w = choose|w: int|
            0 <= w < pre.subscribers.len() && (#[trigger] pre.subscribers[w]).email
                == pre.tasks[i].subscriber_email && pre.subscribers[w].status
                == crate::store::SubscriberStatus::Confirmed;
        assert(post.subscribers[w] == pre.subscribers[w]);
    }
    assert forall|i: int|
        0 <= i < post.tokens.len() implies post.has_subscriber(
        (#[trigger] post.tokens[i]).subscriber_id,
    ) by {
        assert(pre.has_subscriber(pre.tokens[i].subscriber_id));
        let w = choose|w: int|
            0 <= w < pre.subscribers.len() && (#[trigger] pre.subscribers[w]).id
                == pre.tokens[i].subscriber_id;
        assert(post.subscribers[w] == pre.subscribers[w]);
    }
}

impl Store {
    /// The index of the first unclaimed task, if any.
    fn find_first_unclaimed(&self) -> (r: Option<usize>)
        ensures
            (match r {
                Some(i) => i < self@.tasks.len() && !self@.tasks[i as int].claimed && (forall|
                    j: int,
                |
                    0 <= j < i ==> (#[trigger] self@.tasks[j]).claimed),
                None => forall|j: int|
                    0 <= j < self@.tasks.len() ==> (#[trigger] self@.tasks[j]).claimed,
            }),
    {
        let n = self.tasks.len();
        let mut i: usize = 0;
        while i < n
            invariant
                n == self.tasks.len(),
                0 <= i <= n,
                self@.tasks.len() == n,
                forall|j: int| 0 <= j < i ==> (#[trigger] self@.tasks[j]).claimed,
            decreases n - i,
        {
            if !self.tasks[i].claimed {
                return Some(i);
            }
            i += 1;
        }
        None
    }

    /// The index of the issue row with `id`, if any.
    fn find_issue_index(&self, id: u128) -> (r: Option<usize>)
        ensures
            (match r {
                Some(i) => i < self@.issues.len() && self@.issues[i as int].newsletter_issue_id
                    == id,
                None => !self@.has_issue(id),
            }),
    {
        let n = self.issues.len();
        let mut i: usize = 0;
        while i < n
            invariant
                n == self.issues.len(),
                0 <= i <= n,
                self@.issues.len() == n,
                forall|j: int| 0 <= j < i ==> (#[trigger] self@.issues[j]).newsletter_issue_id != id,
            decreases n - i,
        {
            if self.issues[i].newsletter_issue_id == id {
                return Some(i);
            }
            i += 1;
        }
        None
    }
}

/// One poll of the queue: atomically claim the first pending task. A task
/// whose stored address fails validation is dropped on the spot as a
/// permanent failure — it can never be retried into validity. Otherwise
/// the task stays claimed (invisible to other workers) and the send job is
/// handed back; the caller must report the outcome with
/// [`finish_delivery`] or release the claim with [`release_claim`].
pub fn begin_delivery(store: &mut Store) -> (r: DeliveryStep)
    requires
        old(store)@.wf(),
    ensures
        final(store)@.wf(),
        (match r {
            DeliveryStep::Idle => pending_of(old(store)@.tasks).len() == 0 && *final(store)
                == *old(store),
            DeliveryStep::InvalidRecipient { task_id, subscriber_email } => ({
                let s = old(store)@;
                &&& s.has_task(task_id)
                &&& ({
                    let ix = s.task_at(task_id);
                    &&& !s.tasks[ix].claimed
                    &&& (forall|j: int| 0 <= j < ix ==> (#[trigger] s.tasks[j]).claimed)
                    &&& subscriber_email@ == s.tasks[ix].subscriber_email
                    &&& !valid_email(subscriber_email@)
                    &&& final(store)@ == (StoreModel { tasks: s.tasks.remove(ix), ..s })
                })
            }),
            DeliveryStep::Send { task_id, job } => ({
                let s = old(store)@;
                &&& s.has_task(task_id)
                &&& ({
                    let ix = s.task_at(task_id);
                    let t = s.tasks[ix];
                    &&& !t.claimed
                    &&& (forall|j: int| 0 <= j < ix ==> (#[trigger] s.tasks[j]).claimed)
                    &&& job.to@ == t.subscriber_email
                    &&& valid_email(job.to@)
                    &&& s.has_issue(t.newsletter_issue_id)
                    &&& ({
                        let iss = s.issues[s.issue_at(t.newsletter_issue_id)];
                        &&& job.title@ == iss.title
                        &&& job.text_content@ == iss.text_content
                        &&& job.html_content@ == iss.html_content
                    })
                    &&& final(store)@ == (StoreModel {
                        tasks: s.tasks.update(ix, TaskModel { claimed: true, ..t }),
                        ..s
                    })
                })
            }),
        }),
{
    let i = match store.find_first_unclaimed() {
        Some(i) => i,
        None => {
            proof {
                lemma_pending_empty_iff_all_claimed(store@.tasks);
            }
            return DeliveryStep::Idle;
        },
    };
    let task_id = store.tasks[i].task_id;
    let issue_id = store.tasks[i].newsletter_issue_id;
    proof {
        lemma_task_at(store@, task_id, i as int);
    }
    if !email_str_valid(store.tasks[i].subscriber_email.as_str()) {
        let subscriber_email = store.tasks[i].subscriber_email.clone();
        let ghost pre = store@;
        store.tasks.remove(i);
        proof {
            assert(store@.tasks =~= pre.tasks.remove(i as int));
            assert(store@ =~= (StoreModel { tasks: pre.tasks.remove(i as int), ..pre }));
            lemma_wf_task_remove(pre, store@, i as int);
        }
        return DeliveryStep::InvalidRecipient { task_id, subscriber_email };
    }
    let j = match store.find_issue_index(issue_id) {
        Some(j) => j,
        None => {
            proof {
                assert(store@.has_issue(store@.tasks[i as int].newsletter_issue_id));
            }
            unreached()
        },
    };
    proof {
        crate::store::lemma_issue_at(store@, issue_id, j as int);
    }
    let job = SendJob {
        to: store.tasks[i].subscriber_email.clone(),
        title: store.issues[j].title.clone(),
        text_content: store.issues[j].text_content.clone(),
        html_content: store.issues[j].html_content.clone(),
    };
    let claimed_task = DeliveryTask {
        task_id,
        newsletter_issue_id: issue_id,
        subscriber_email: store.tasks[i].subscriber_email.clone(),
        claimed: true,
    };
    let ghost pre = store@;
    store.tasks.set(i, claimed_task);
    proof {
        assert(store@.tasks =~= pre.tasks.update(
            i as int,
            TaskModel { claimed: true, ..pre.tasks[i as int] },
        ));
        assert(store@ =~= (StoreModel {
            tasks: pre.tasks.update(i as int, TaskModel { claimed: true, ..pre.tasks[i as int] }),
            ..pre
        }));
        lemma_wf_task_set_claimed(pre, store@, i as int, true);
    }
    DeliveryStep::Send { task_id, job }
}

/// Report the Email Gateway's outcome for a claimed task. Success and
/// permanent failure are terminal: the task is deleted, never updated in
/// place. A transient failure releases the task back to pending unchanged,
/// for a later sweep to retry — never a tight retry loop on one task.
pub fn finish_delivery(store: &mut Store, task_id: u64, outcome: SendOutcome)
    requires
        old(store)@.wf(),
        old(store)@.has_task(task_id),
        old(store)@.tasks[old(store)@.task_at(task_id)].claimed,
    ensures
        final(store)@.wf(),
        (match outcome {
            SendOutcome::Delivered => final(store)@ == (StoreModel {
                tasks: old(store)@.tasks.remove(old(store)@.task_at(task_id)),
                ..old(store)@
            }),
            SendOutcome::PermanentFailure => final(store)@ == (StoreModel {
                tasks: old(store)@.tasks.remove(old(store)@.task_at(task_id)),
                ..old(store)@
            }),
            SendOutcome::TransientFailure => final(store)@ == (StoreModel {
                tasks: old(store)@.tasks.update(
                    old(store)@.task_at(task_id),
                    TaskModel {
                        claimed: false,
                        ..old(store)@.tasks[old(store)@.task_at(task_id)]
                    },
                ),
                ..old(store)@
            }),
        }),
{
    let n = store.tasks.len();
    let mut i: usize = 0;
    while i < n
        invariant
            n == store.tasks.len(),
            0 <= i <= n,
            *store == *old(store),
            store@.wf(),
            store@.tasks.len() == n,
            forall|j: int| 0 <= j < i ==> (#[trigger] store@.tasks[j]).task_id != task_id,
        decreases n - i,
    {
        if store.tasks[i].task_id == task_id {
            proof {
                lemma_task_at(store@, task_id, i as int);
            }
            let ghost pre = store@;
            match outcome {
                SendOutcome::TransientFailure => {
                    let released = DeliveryTask {
                        task_id,
                        newsletter_issue_id: store.tasks[i].newsletter_issue_id,
                        subscriber_email: store.tasks[i].subscriber_email.clone(),
                        claimed: false,
                    };
                    store.tasks.set(i, released);
                    proof {
                        assert(store@.tasks =~= pre.tasks.update(
                            i as int,
                            TaskModel { claimed: false, ..pre.tasks[i as int] },
                        ));
                        assert(store@ =~= (StoreModel {
                            tasks: pre.tasks.update(
                                i as int,
                                TaskModel { claimed: false, ..pre.tasks[i as int] },
                            ),
                            ..pre
                        }));
                        lemma_wf_task_set_claimed(pre, store@, i as int, false);
                    }
                },
                _ => {
                    store.tasks.remove(i);
                    proof {
                        assert(store@.tasks =~= pre.tasks.remove(i as int));
                        assert(store@ =~= (StoreModel {
                            tasks: pre.tasks.remove(i as int),
                            ..pre
                        }));
                        lemma_wf_task_remove(pre, store@, i as int);
                    }
                },
            }
            return ;
        }
        i += 1;
    }
    proof {
        assert(!store@.has_task(task_id));
    }
}

/// Release a claim without an outcome: graceful shutdown abandons the
/// in-flight task cleanly, and the task becomes reclaimable unchanged —
/// never permanently stuck.
pub fn release_claim(store: &mut Store, task_id: u64)
    requires
        old(store)@.wf(),
        old(store)@.has_task(task_id),
        old(store)@.tasks[old(store)@.task_at(task_id)].claimed,
    ensures
        final(store)@.wf(),
        final(store)@ == (StoreModel {
            tasks: old(store)@.tasks.update(
                old(store)@.task_at(task_id),
                TaskModel { claimed: false, ..old(store)@.tasks[old(store)@.task_at(task_id)] },
            ),
            ..old(store)@
        }),
{
    finish_delivery(store, task_id, SendOutcome::TransientFailure);
}

/// The deliverable addresses among `emails`, in order.
pub open spec fn deliverable_of(emails: Seq<Seq<char>>) -> Seq<Seq<char>>
    decreases emails.len(),
{
    if emails.len() == 0 {
        Seq::empty()
    } else {
        let rest = deliverable_of(emails.drop_first());
        if valid_email(emails.first()) {
            seq![emails.first()] + rest
        } else {
            rest
        }
    }
}

/// The pending view and the deliverable-recipient view both distribute
/// over queue concatenation.
pub proof fn lemma_recipients_distribute(a: Seq<TaskModel>, b: Seq<TaskModel>)
    ensures
        pending_of(a + b) == pending_of(a) + pending_of(b),
        valid_recipients_of(a + b) == valid_recipients_of(a) + valid_recipients_of(b),
    decreases a.len(),
{
    if a.len() == 0 {
        assert(a + b =~= b);
        assert(pending_of(a) + pending_of(b) =~= pending_of(b));
        assert(valid_recipients_of(a) + valid_recipients_of(b) =~= valid_recipients_of(b));
    } else {
        assert((a + b).len() > 0);
        assert((a + b).first() == a.first());
        assert((a + b).drop_first() =~= a.drop_first() + b);
        lemma_recipients_distribute(a.drop_first(), b);
        if !a.first().claimed {
            assert(seq![a.first()] + (pending_of(a.drop_first()) + pending_of(b)) =~= (seq![
                a.first(),
            ] + pending_of(a.drop_first())) + pending_of(b));
        }
        if !a.first().claimed && valid_email(a.first().subscriber_email) {
            assert(seq![a.first().subscriber_email] + (valid_recipients_of(a.drop_first())
                + valid_recipients_of(b)) =~= (seq![a.first().subscriber_email]
                + valid_recipients_of(a.drop_first())) + valid_recipients_of(b));
        }
    }
}

/// A fresh fan-out is all pending, and its deliverable recipients are
/// exactly the deliverable addresses of the fanned-out emails.
pub proof fn lemma_fanout_recipients(start: u64, issue_id: u128, emails: Seq<Seq<char>>)
    requires
        start + emails.len() <= u64::MAX,
    ensures
        valid_recipients_of(crate::idempotency::fanout_tasks(start, issue_id, emails))
            == deliverable_of(emails),
    decreases emails.len(),
{
    let f = crate::idempotency::fanout_tasks(start, issue_id, emails);
    if emails.len() == 0 {
        assert(f.len() == 0);
    } else {
        assert(f.first() == TaskModel {
            task_id: start,
            newsletter_issue_id: issue_id,
            subscriber_email: emails.first(),
            claimed: false,
        });
        let start1 = (start + 1) as u64;
        assert(f.drop_first() =~= crate::idempotency::fanout_tasks(
            start1,
            issue_id,
            emails.drop_first(),
        ));
        lemma_fanout_recipients(start1, issue_id, emails.drop_first());
    }
}

/// The terminal completion of a task, at the model level: its row deleted,
/// everything else untouched.
pub open spec fn spec_finish_terminal(s: StoreModel, task_id: u64) -> StoreModel {
    StoreModel { tasks: s.tasks.remove(s.task_at(task_id)), ..s }
}

/// Draining is order-independent: two workers completing two distinct
/// tasks with terminal outcomes reach the same store whichever finishes
/// first.
pub proof fn lemma_terminal_completions_commute(s: StoreModel, a: u64, b: u64)
    requires
        s.wf(),
        a != b,
        s.has_task(a),
        s.has_task(b),
    ensures
        spec_finish_terminal(spec_finish_terminal(s, a), b) == spec_finish_terminal(
            spec_finish_terminal(s, b),
            a,
        ),
{
    let ia = s.task_at(a);
    let ib = s.task_at(b);
    assert(s.tasks[ia].task_id == a);
    assert(s.tasks[ib].task_id == b);
    assert(ia != ib);
    let sa = spec_finish_terminal(s, a);
    let sb = spec_finish_terminal(s, b);
    lemma_wf_task_remove(s, sa, ia);
    lemma_wf_task_remove(s, sb, ib);
    let ib2 = if ib < ia {
        ib
    } else {
        ib - 1
    };
    let ia2 = if ia < ib {
        ia
    } else {
        ia - 1
    };
    assert(sa.tasks[ib2] == s.tasks[ib]);
    lemma_task_at(sa, b, ib2);
    assert(sb.tasks[ia2] == s.tasks[ia]);
    lemma_task_at(sb, a, ia2);
    assert(sa.tasks.remove(ib2) =~= sb.tasks.remove(ia2));
    assert(spec_finish_terminal(sa, b) =~= spec_finish_terminal(sb, a));
}

/// The recipients of a list of send jobs, in order.
pub open spec fn job_recipients(jobs: Seq<SendJob>) -> Seq<Seq<char>> {
    jobs.map_values(|j: SendJob| j.to@)
}

/// Drain the backlog under an always-successful gateway: poll, send,
/// delete, until no pending task remains. This is the terminating,
/// order-insensitive core of the worker loop — it reaches zero pending
/// tasks in at most one iteration per task, attempts exactly one send per
/// pending deliverable task (in queue order), and drops exactly the tasks
/// whose stored address is invalid. Tasks other workers hold claimed are
/// left to them.
pub fn drain_backlog(store: &mut Store) -> (log: Vec<SendJob>)
    requires
        old(store)@.wf(),
    ensures
        final(store)@.wf(),
        pending_of(final(store)@.tasks).len() == 0,
        job_recipients(log@) == valid_recipients_of(old(store)@.tasks),
        final(store)@.subscribers == old(store)@.subscribers,
        final(store)@.issues == old(store)@.issues,
        final(store)@.idempotency == old(store)@.idempotency,
{
    let mut log: Vec<SendJob> = Vec::new();
    let mut done = false;
    proof {
        assert(job_recipients(log@) =~= Seq::<Seq<char>>::empty());
    }
    while !done
        invariant
            store@.wf(),
            job_recipients(log@) + valid_recipients_of(store@.tasks) == valid_recipients_of(
                old(store)@.tasks,
            ),
            done ==> pending_of(store@.tasks).len() == 0,
            store@.subscribers == old(store)@.subscribers,
            store@.issues == old(store)@.issues,
            store@.idempotency == old(store)@.idempotency,
        decreases pending_of(store@.tasks).len() + (if done {
            0int
        } else {
            1int
        }),
    {
        let ghost snap = store@;
        match begin_delivery(store) {
            DeliveryStep::Idle => {
                done = true;
            },
            DeliveryStep::InvalidRecipient { task_id, .. } => {
                proof {
                    lemma_remove_first_unclaimed(snap.tasks, snap.task_at(task_id));
                }
            },
            DeliveryStep::Send { task_id, job } => {
                let ghost mid = store@;
                let ghost ix = snap.task_at(task_id);
                proof {
                    assert(mid.tasks[ix].task_id == task_id);
                    lemma_task_at(mid, task_id, ix);
                }
                let ghost recipient = job.to@;
                finish_delivery(store, task_id, SendOutcome::Delivered);
                log.push(job);
                proof {
                    assert(store@.tasks =~= snap.tasks.remove(ix));
                    assert(store@ =~= (StoreModel { tasks: snap.tasks.remove(ix), ..snap }));
                    lemma_remove_first_unclaimed(snap.tasks, ix);
                    assert(job_recipients(log@) =~= job_recipients(log@.drop_last()) + seq![
                        recipient,
                    ]);
                    assert(job_recipients(log@) + valid_recipients_of(store@.tasks)
                        =~= valid_recipients_of(old(store)@.tasks));
                }
            },
        }
    }
    proof {
        lemma_pending_empty_iff_all_claimed(store@.tasks);
        assert(job_recipients(log@) + Seq::<Seq<char>>::empty() =~= job_recipients(log@));
    }
    log
}

} // verus!
