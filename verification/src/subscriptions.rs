//! New subscriptions: validation, the confirmation token, and the welcome
//! email that carries the confirmation link.
//!
//! A new subscriber enters as a raw form, is validated, and is stored with
//! a pending confirmation status together with a fresh random token; the
//! welcome email asks the subscriber to follow the confirmation link. Only
//! after confirmation does the subscriber receive newsletter issues.

use vstd::prelude::*;

verus! {

use vstd::string::StringExecFns;
use crate::domain::{FormData, NewSubscriber};
use crate::store::{StorageError, Store, StoreModel, SubscriberModel, SubscriberStatus, TokenModel};

/// An alphanumeric character: a–z, A–Z or 0–9.
pub open spec fn is_alphanumeric_char(c: char) -> bool {
    let u = c as u32;
    (0x30 <= u && u <= 0x39) || (0x41 <= u && u <= 0x5a) || (0x61 <= u && u <= 0x7a)
}

/// Relies on rand's `Alphanumeric` distribution, documented to sample
/// uniformly from a–z, A–Z and 0–9: one random character from that set,
/// as a one-character string. Nothing further is assumed of its value.
#[verifier::external_body]
fn random_alphanumeric() -> (r: String)
    ensures
        r@.len() == 1,
        is_alphanumeric_char(r@[0]),
{
    let c: u8 = rand::Rng::sample(&mut rand::thread_rng(), rand::distributions::Alphanumeric);
    (c as char).to_string()
}

/// A fresh subscription token: 25 random alphanumeric characters.
pub fn generate_subscription_token() -> (r: String)
    ensures
        r@.len() == 25,
        forall|i: int| 0 <= i < r@.len() ==> is_alphanumeric_char(#[trigger] r@[i]),
{
    let mut r = String::new();
    let mut i: usize = 0;
    while i < 25
        invariant
            0 <= i <= 25,
            r@.len() == i,
            forall|j: int| 0 <= j < r@.len() ==> is_alphanumeric_char(#[trigger] r@[j]),
        decreases 25 - i,
    {
        let c = random_alphanumeric();
        r.append(c.as_str());
        i += 1;
    }
    r
}

/// A failure to store a subscription token.
#[derive(Debug)]
pub struct StoreTokenError(pub StorageError);

impl StoreTokenError {
    /// The message the failure displays.
    pub fn message(&self) -> (m: String)
        ensures
            m@
                == "A database error was encountered while trying to store a subscription token."@,
    {
        String::from_str(
            "A database error was encountered while trying to store a subscription token.",
        )
    }
}

/// Save a confirmation token for an existing subscriber.
pub fn store_subscription_token(
    store: &mut Store,
    subscriber_id: u128,
    subscription_token: &str,
) -> (r: Result<(), StoreTokenError>)
    requires
        old(store)@.wf(),
    ensures
        final(store)@.wf(),
        (match r {
            Ok(()) => !old(store)@.has_token(subscription_token@) && old(store)@.has_subscriber(
                subscriber_id,
            ) && final(store)@ == (StoreModel {
                tokens: old(store)@.tokens.push(
                    TokenModel { token: subscription_token@, subscriber_id },
                ),
                ..old(store)@
            }),
            Err(StoreTokenError(StorageError::UniquenessViolation)) => old(store)@.has_token(
                subscription_token@,
            ) && *final(store) == *old(store),
            Err(StoreTokenError(StorageError::MissingReference)) => !old(store)@.has_token(
                subscription_token@,
            ) && !old(store)@.has_subscriber(subscriber_id) && *final(store) == *old(store),
        }),
{
    match store.store_token_row(subscriber_id, subscription_token.to_owned()) {
        Ok(()) => Ok(()),
        Err(e) => Err(StoreTokenError(e)),
    }
}

/// Failure of the subscription flow: invalid form data, reported to the
/// caller with no side effect, or an unexpected storage fault.
#[derive(Debug)]
pub enum SubscribeError {
    ValidationError(String),
    UnexpectedError(String),
}

impl SubscribeError {
    /// 400 for invalid form data, 500 for a storage fault.
    pub fn status_code(&self) -> (c: u16)
        ensures
            (match self {
                SubscribeError::ValidationError(_) => c == 400,
                SubscribeError::UnexpectedError(_) => c == 500,
            }),
    {
        match self {
            SubscribeError::ValidationError(_) => 400,
            SubscribeError::UnexpectedError(_) => 500,
        }
    }

    /// The message the failure displays.
    pub fn message(&self) -> (m: String)
        ensures
            (match self {
                SubscribeError::ValidationError(s) => m == s,
                SubscribeError::UnexpectedError(s) => m == s,
            }),
    {
        match self {
            SubscribeError::ValidationError(s) => s.clone(),
            SubscribeError::UnexpectedError(s) => s.clone(),
        }
    }
}

/// The confirmation link of a token: the base URL followed by the
/// confirmation path and the token.
pub open spec fn confirmation_link(base_url: Seq<char>, token: Seq<char>) -> Seq<char> {
    base_url + "/subscriptions/confirm?subscription_token="@ + token
}

/// The HTML body of the welcome email.
pub open spec fn confirmation_html(link: Seq<char>) -> Seq<char> {
    "Welcome to our newsletter!<br />Click <a href=\""@ + link
        + "\">here</a> to confirm subscription."@
}

/// The plain-text body of the welcome email.
pub open spec fn confirmation_text(link: Seq<char>) -> Seq<char> {
    "Welcome to our newsletter! Visit "@ + link + " to confirm your subscription."@
}

/// One welcome email, ready for the Email Gateway.
#[derive(Debug)]
pub struct ConfirmationEmail {
    pub to: String,
    pub subject: String,
    pub html_body: String,
    pub text_body: String,
}

/// Build the welcome email that asks `to` to follow the confirmation link
/// for `subscription_token`.
pub fn build_confirmation_email(to: &str, base_url: &str, subscription_token: &str) -> (r:
    ConfirmationEmail)
    ensures
        r.to@ == to@,
        r.subject@ == "Welcome!"@,
        r.html_body@ == confirmation_html(confirmation_link(base_url@, subscription_token@)),
        r.text_body@ == confirmation_text(confirmation_link(base_url@, subscription_token@)),
{
    let mut link = base_url.to_owned();
    link.append("/subscriptions/confirm?subscription_token=");
    link.append(subscription_token);
    let mut html_body = String::from_str("Welcome to our newsletter!<br />Click <a href=\"");
    html_body.append(link.as_str());
    html_body.append("\">here</a> to confirm subscription.");
    let mut text_body = String::from_str("Welcome to our newsletter! Visit ");
    text_body.append(link.as_str());
    text_body.append(" to confirm your subscription.");
    ConfirmationEmail {
        to: to.to_owned(),
        subject: String::from_str("Welcome!"),
        html_body,
        text_body,
    }
}

/// Add a new subscriber: validate the form, store the subscriber with a
/// pending confirmation status together with the confirmation token, and
/// hand back the welcome email for the caller to send. The two rows are
/// written as one unit: a failure leaves the store unchanged.
pub fn subscribe(
    store: &mut Store,
    form: FormData,
    subscriber_id: u128,
    subscription_token: String,
    base_url: &str,
) -> (r: Result<ConfirmationEmail, SubscribeError>)
    requires
        old(store)@.wf(),
    ensures
        final(store)@.wf(),
        (match r {
            Ok(email) => {
                &&& crate::domain::valid_name(form.name@)
                &&& crate::domain::valid_email(form.email@)
                &&& !old(store)@.has_subscriber(subscriber_id)
                &&& !old(store)@.has_subscriber_email(form.email@)
                &&& !old(store)@.has_token(subscription_token@)
                &&& final(store)@ == (StoreModel {
                    subscribers: old(store)@.subscribers.push(
                        SubscriberModel {
                            id: subscriber_id,
                            email: form.email@,
                            name: form.name@,
                            status: SubscriberStatus::PendingConfirmation,
                        },
                    ),
                    tokens: old(store)@.tokens.push(
                        TokenModel { token: subscription_token@, subscriber_id },
                    ),
                    ..old(store)@
                })
                &&& email.to@ == form.email@
                &&& email.subject@ == "Welcome!"@
                &&& email.html_body@ == confirmation_html(
                    confirmation_link(base_url@, subscription_token@),
                )
                &&& email.text_body@ == confirmation_text(
                    confirmation_link(base_url@, subscription_token@),
                )
            },
            Err(SubscribeError::ValidationError(_)) => !(crate::domain::valid_name(form.name@)
                && crate::domain::valid_email(form.email@)) && *final(store) == *old(store),
            Err(SubscribeError::UnexpectedError(_)) => {
                &&& crate::domain::valid_name(form.name@)
                &&& crate::domain::valid_email(form.email@)
                &&& (old(store)@.has_subscriber(subscriber_id) || old(
                    store,
                )@.has_subscriber_email(form.email@) || old(store)@.has_token(subscription_token@))
                &&& final(store)@ == old(store)@
            },
        }),
{
    let new_subscriber = match NewSubscriber::try_from(form) {
        Ok(s) => s,
        Err(m) => {
            return Err(SubscribeError::ValidationError(m));
        },
    };
    let to = new_subscriber.email.as_str().to_owned();
    if let Err(_) = store.insert_subscriber(subscriber_id, new_subscriber) {
        return Err(
            SubscribeError::UnexpectedError(
                String::from_str("Failed to insert new subscriber in the database."),
            ),
        );
    }
    let ghost with_subscriber = store@;
    match store.store_token_row(subscriber_id, subscription_token.clone()) {
        Ok(()) => {},
        Err(_) => {
            proof {
                let mid = with_subscriber;
                assert(mid.subscribers[mid.subscribers.len() - 1].id == subscriber_id);
                assert(mid.has_subscriber(subscriber_id));
                assert(mid.has_token(subscription_token@));
                let j = choose|j: int|
                    0 <= j < mid.tokens.len() && (#[trigger] mid.tokens[j]).token
                        == subscription_token@;
                assert(old(store)@.tokens[j].token == subscription_token@);
                assert(old(store)@.has_token(subscription_token@));
            }
            // Roll the subscriber insert back: the two writes are one unit.
            let ghost before_pop = store@;
            proof {
                assert(before_pop == with_subscriber);
                assert(before_pop.subscribers.len() == old(store)@.subscribers.len() + 1);
            }
            store.subscribers.pop();
            proof {
                assert(store@.subscribers.len() == old(store)@.subscribers.len());
                assert forall|i: int|
                    0 <= i < store@.subscribers.len() implies store@.subscribers[i] == old(
                    store,
                )@.subscribers[i] by {
                    assert(store@.subscribers[i] == before_pop.subscribers[i]);
                }
                assert(store@.subscribers =~= old(store)@.subscribers);
                assert(store@ =~= old(store)@);
            }
            return Err(
                SubscribeError::UnexpectedError(
                    String::from_str("Failed to store subscription token in the database."),
                ),
            );
        },
    }
    proof {
        if old(store)@.has_token(subscription_token@) {
            let j = choose|j: int|
                0 <= j < old(store)@.tokens.len() && (#[trigger] old(store)@.tokens[j]).token
                    == subscription_token@;
            assert(with_subscriber.tokens[j].token == subscription_token@);
            assert(with_subscriber.has_token(subscription_token@));
        }
    }
    Ok(build_confirmation_email(to.as_str(), base_url, subscription_token.as_str()))
}

} // verus!
