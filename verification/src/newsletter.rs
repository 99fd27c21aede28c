//! Newsletter publish forms and their validation.
//!
//! A publish request arrives as the field set {title, text content, html
//! content, idempotency key}. Before anything touches storage, the three
//! content fields must be non-empty after trimming; an all-whitespace field
//! is rejected with a field-specific message and no side effect.

use vstd::prelude::*;

verus! {

use vstd::string::StrSliceExecFns;
use vstd::string::StringExecFns;
use crate::domain::{valid_email, SubscriberEmail};
use crate::http::{SavedResponse, SavedResponseModel, HttpHeader, HttpHeaderModel};
use crate::store::Store;

/// Whether `c` is a whitespace character (the Unicode `White_Space` set, the
/// characters trimming removes).
pub open spec fn is_space_char(c: char) -> bool {
    let u = c as u32;
    u == 0x20 || u == 0x09 || u == 0x0a || u == 0x0b || u == 0x0c || u == 0x0d || u == 0x85
        || u == 0xa0 || u == 0x1680 || (0x2000 <= u && u <= 0x200a) || u == 0x2028 || u == 0x2029
        || u == 0x202f || u == 0x205f || u == 0x3000
}

/// Whether `s` is empty after trimming: every character is whitespace.
pub open spec fn is_blank(s: Seq<char>) -> bool {
    forall|i: int| 0 <= i < s.len() ==> is_space_char(s[i])
}

/// Whether `s` trims to the empty string.
pub fn str_is_blank(s: &str) -> (r: bool)
    ensures
        r == is_blank(s@),
{
    let n = s.unicode_len();
    let mut i: usize = 0;
    while i < n
        invariant
            n == s@.len(),
            0 <= i <= n,
            forall|j: int| 0 <= j < i ==> is_space_char(s@[j]),
        decreases n - i,
    {
        let c = s.get_char(i);
        let u = c as u32;
        let space = u == 0x20 || u == 0x09 || u == 0x0a || u == 0x0b || u == 0x0c || u == 0x0d
            || u == 0x85 || u == 0xa0 || u == 0x1680 || (0x2000 <= u && u <= 0x200a) || u == 0x2028
            || u == 0x2029 || u == 0x202f || u == 0x205f || u == 0x3000;
        if !space {
            assert(!is_space_char(s@[i as int]));
            return false;
        }
        i += 1;
    }
    true
}

/// The publish form as the operator submits it.
#[derive(Debug)]
pub struct NewsletterFormData {
    pub title: String,
    pub content_text: String,
    pub content_html: String,
    pub idempotency_key: String,
}

/// The content of an issue to publish: the form without the idempotency key.
#[derive(Debug)]
pub struct NewsletterData {
    pub title: String,
    pub content_text: String,
    pub content_html: String,
}

impl NewsletterData {
    /// Bundle the three content fields.
    pub fn from(title: String, content_text: String, content_html: String) -> (r: Self)
        ensures
            r.title == title,
            r.content_text == content_text,
            r.content_html == content_html,
    {
        Self { title, content_text, content_html }
    }
}

/// Rejection of a publish form: a message naming the first missing field.
#[derive(Debug)]
pub enum NewsletterDataError {
    ValidationError(String),
}

impl NewsletterDataError {
    /// The human-readable message (what the error displays as).
    pub fn message(&self) -> (m: String)
        ensures
            (match self {
                NewsletterDataError::ValidationError(s) => m == s,
            }),
    {
        match self {
            NewsletterDataError::ValidationError(s) => s.clone(),
        }
    }
}

/// Whether a publish form's content is valid: no field is blank.
pub open spec fn form_data_valid(title: Seq<char>, text: Seq<char>, html: Seq<char>) -> bool {
    !is_blank(title) && !is_blank(text) && !is_blank(html)
}

/// Check the three content fields in order and report the first blank one,
/// with exactly the message the operator sees.
pub fn validate_form_data(data: &NewsletterData) -> (r: Result<(), NewsletterDataError>)
    ensures
        r is Ok <==> form_data_valid(data.title@, data.content_text@, data.content_html@),
        (match r {
            Ok(()) => true,
            Err(NewsletterDataError::ValidationError(m)) => {
                &&& is_blank(data.title@) ==> m@ == "Title is required field"@
                &&& !is_blank(data.title@) && is_blank(data.content_text@) ==> m@
                    == "Content text field is required"@
                &&& !is_blank(data.title@) && !is_blank(data.content_text@) && is_blank(
                    data.content_html@,
                ) ==> m@ == "Content html field is required"@
            },
        }),
{
    if str_is_blank(data.title.as_str()) {
        return Err(
            NewsletterDataError::ValidationError(String::from_str("Title is required field")),
        );
    }
    if str_is_blank(data.content_text.as_str()) {
        return Err(
            NewsletterDataError::ValidationError(
                String::from_str("Content text field is required"),
            ),
        );
    }
    if str_is_blank(data.content_html.as_str()) {
        return Err(
            NewsletterDataError::ValidationError(
                String::from_str("Content html field is required"),
            ),
        );
    }
    Ok(())
}

/// The success notification shown after a publish request is accepted,
/// on the first run and on every replay alike.
pub fn success_message() -> (m: String)
    ensures
        m@ == "Newsletters were sent to subscribers!"@,
{
    String::from_str("Newsletters were sent to subscribers!")
}

/// The confirmed subscribers as recipients: one entry per confirmed
/// subscriber, in table order — a parsed address where the stored one is
/// deliverable, an error to skip (with a warning) where it is not.
pub fn get_confirmed_subscribers(store: &Store) -> (r: Vec<Result<SubscriberEmail, String>>)
    ensures
        r@.len() == store@.confirmed_emails().len(),
        forall|i: int|
            0 <= i < r@.len() ==> (match #[trigger] r@[i] {
                Ok(e) => valid_email(store@.confirmed_emails()[i]) && e@
                    == store@.confirmed_emails()[i],
                Err(_) => !valid_email(store@.confirmed_emails()[i]),
            }),
{
    let emails = store.confirmed_subscriber_emails();
    let n = emails.len();
    let mut r: Vec<Result<SubscriberEmail, String>> = Vec::new();
    let mut i: usize = 0;
    while i < n
        invariant
            n == emails.len(),
            0 <= i <= n,
            emails@.map_values(|s: String| s@) == store@.confirmed_emails(),
            r@.len() == i,
            forall|j: int|
                0 <= j < i ==> (match #[trigger] r@[j] {
                    Ok(e) => valid_email(store@.confirmed_emails()[j]) && e@
                        == store@.confirmed_emails()[j],
                    Err(_) => !valid_email(store@.confirmed_emails()[j]),
                }),
        decreases n - i,
    {
        r.push(SubscriberEmail::parse(emails[i].clone()));
        i += 1;
    }
    r
}

/// The body of the older JSON publish endpoint.
#[derive(Debug)]
pub struct BodyData {
    pub title: String,
    pub content: Content,
}

/// Text and HTML renderings of a newsletter body.
#[derive(Debug)]
pub struct Content {
    pub text: String,
    pub html: String,
}

/// Failure of the older publish endpoint: bad credentials or an internal
/// fault.
#[derive(Debug)]
pub enum PublishError {
    AuthError(String),
    UnexpectedError(String),
}

/// The status code a publish failure maps to.
pub open spec fn publish_error_status(e: &PublishError) -> u16 {
    match e {
        PublishError::AuthError(_) => 401,
        PublishError::UnexpectedError(_) => 500,
    }
}

/// The response a publish failure maps to: a challenge for bad credentials,
/// a bare server error otherwise.
pub open spec fn publish_error_response_model(e: &PublishError) -> SavedResponseModel {
    match e {
        PublishError::AuthError(_) => SavedResponseModel {
            status_code: 401,
            headers: seq![
                HttpHeaderModel { name: "WWW-Authenticate"@, value: "Basic realm=\"publish\""@ },
            ],
            body: Seq::empty(),
        },
        PublishError::UnexpectedError(_) => SavedResponseModel {
            status_code: 500,
            headers: Seq::empty(),
            body: Seq::empty(),
        },
    }
}

impl PublishError {
    /// 401 for an authentication failure, 500 for an unexpected one.
    pub fn status_code(&self) -> (c: u16)
        ensures
            c == publish_error_status(self),
    {
        match self {
            PublishError::AuthError(_) => 401,
            PublishError::UnexpectedError(_) => 500,
        }
    }

    /// The full response for a failure: an authentication failure carries a
    /// `WWW-Authenticate` challenge naming the `publish` realm.
    pub fn error_response(&self) -> (r: SavedResponse)
        ensures
            r@ == publish_error_response_model(self),
    {
        match self {
            PublishError::UnexpectedError(_) => {
                let r = SavedResponse { status_code: 500, headers: Vec::new(), body: Vec::new() };
                assert(r@ =~= publish_error_response_model(self));
                r
            },
            PublishError::AuthError(_) => {
                let mut headers: Vec<HttpHeader> = Vec::new();
                headers.push(
                    HttpHeader {
                        name: String::from_str("WWW-Authenticate"),
                        value: String::from_str("Basic realm=\"publish\""),
                    },
                );
                let r = SavedResponse { status_code: 401, headers, body: Vec::new() };
                assert(r@.headers =~= publish_error_response_model(self).headers);
                assert(r@ =~= publish_error_response_model(self));
                r
            },
        }
    }

    /// The message the failure displays: authentication failures display a
    /// fixed word, unexpected ones carry their cause.
    pub fn message(&self) -> (m: String)
        ensures
            (match self {
                PublishError::AuthError(_) => m@ == "Authentication"@,
                PublishError::UnexpectedError(s) => m == s,
            }),
    {
        match self {
            PublishError::AuthError(_) => String::from_str("Authentication"),
            PublishError::UnexpectedError(s) => s.clone(),
        }
    }
}

} // verus!
