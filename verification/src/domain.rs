//! Subscriber names and email addresses, validated at the boundary.
//!
//! A new subscription arrives as raw form fields; only values that pass
//! validation become a [`NewSubscriber`]. The delivery worker reuses
//! [`valid_email`] to recognise stored addresses that can never be delivered
//! to.

use vstd::prelude::*;

verus! {

use vstd::string::StrSliceExecFns;
use vstd::string::StringExecFns;
use crate::newsletter::{is_space_char, is_blank};
use crate::helpers::find_char;

/// A deliverable email address: it has exactly one `@`, with a non-empty
/// local part before it and a non-empty domain after it, and contains no
/// whitespace.
pub open spec fn valid_email(s: Seq<char>) -> bool {
    &&& exists|i: int|
        0 < i < s.len() - 1 && s[i] == '@' && (forall|j: int|
            #![auto]
            0 <= j < s.len() && j != i ==> s[j] != '@')
    &&& forall|j: int| 0 <= j < s.len() ==> !is_space_char(#[trigger] s[j])
}

/// A character a subscriber name may not contain (markup and quoting
/// characters).
pub open spec fn forbidden_name_char(c: char) -> bool {
    c == '/' || c == '(' || c == ')' || c == '"' || c == '<' || c == '>' || c == '\\' || c == '{'
        || c == '}'
}

/// An acceptable subscriber name: non-blank, at most 256 characters, and
/// free of markup and quoting characters.
pub open spec fn valid_name(s: Seq<char>) -> bool {
    &&& !is_blank(s)
    &&& s.len() <= 256
    &&& forall|j: int| 0 <= j < s.len() ==> !forbidden_name_char(#[trigger] s[j])
}

/// A validated email address.
#[derive(Debug)]
pub struct SubscriberEmail {
    s: String,
}

impl View for SubscriberEmail {
    type V = Seq<char>;

    closed spec fn view(&self) -> Seq<char> {
        self.s@
    }
}

impl SubscriberEmail {
    /// Accept `s` as an email address exactly when it satisfies
    /// [`valid_email`].
    pub fn parse(s: String) -> (r: Result<Self, String>)
        ensures
            (match r {
                Ok(e) => e@ == s@ && valid_email(s@),
                Err(m) => !valid_email(s@) && m@ == "not a valid subscriber email"@,
            }),
    {
        if email_str_valid(s.as_str()) {
            Ok(SubscriberEmail { s })
        } else {
            Err(String::from_str("not a valid subscriber email"))
        }
    }

    /// The address as a string slice.
    pub fn as_str(&self) -> (r: &str)
        ensures
            r@ == self@,
    {
        self.s.as_str()
    }

    /// Surrender the inner string.
    pub fn into_string(self) -> (r: String)
        ensures
            r@ == self@,
    {
        self.s
    }
}

/// Decide [`valid_email`] for a string slice.
pub fn email_str_valid(s: &str) -> (r: bool)
    ensures
        r == valid_email(s@),
{
    let n = s.unicode_len();
    let at = match find_char(s, '@') {
        Some(i) => i,
        None => {
            return false;
        },
    };
    if !(0 < at && at + 1 < n) {
        return false;
    }
    // No second '@' after the first one.
    let mut i: usize = at + 1;
    while i < n
        invariant
            n == s@.len(),
            at + 1 <= i <= n,
            0 < at < n - 1,
            s@[at as int] == '@',
            forall|j: int| at < j < i ==> s@[j] != '@',
        decreases n - i,
    {
        if s.get_char(i) == '@' {
            proof {
                let a = at as int;
                let b = i as int;
                assert forall|k: int|
                    !(0 < k < s@.len() - 1 && s@[k] == '@' && (forall|j: int|
                        #![auto]
                        0 <= j < s@.len() && j != k ==> s@[j] != '@')) by {
                    if 0 < k < s@.len() - 1 && s@[k] == '@' {
                        if k != a {
                            assert(0 <= a < s@.len() && a != k && s@[a] == '@');
                        } else {
                            assert(0 <= b < s@.len() && b != k && s@[b] == '@');
                        }
                    }
                }
            }
            return false;
        }
        i += 1;
    }
    // No whitespace anywhere.
    let mut j: usize = 0;
    while j < n
        invariant
            n == s@.len(),
            0 <= j <= n,
            forall|k: int| 0 <= k < j ==> !is_space_char(#[trigger] s@[k]),
            0 < at < n - 1 && s@[at as int] == '@',
            forall|k: int| 0 <= k < n && k != at ==> s@[k] != '@',
        decreases n - j,
    {
        let c = s.get_char(j);
        let u = c as u32;
        let space = u == 0x20 || u == 0x09 || u == 0x0a || u == 0x0b || u == 0x0c || u == 0x0d
            || u == 0x85 || u == 0xa0 || u == 0x1680 || (0x2000 <= u && u <= 0x200a) || u == 0x2028
            || u == 0x2029 || u == 0x202f || u == 0x205f || u == 0x3000;
        if space {
            assert(is_space_char(s@[j as int]));
            return false;
        }
        j += 1;
    }
    true
}

/// A validated subscriber name.
#[derive(Debug)]
pub struct SubscriberName {
    s: String,
}

impl View for SubscriberName {
    type V = Seq<char>;

    closed spec fn view(&self) -> Seq<char> {
        self.s@
    }
}

impl SubscriberName {
    /// Accept `s` as a subscriber name exactly when it satisfies
    /// [`valid_name`].
    pub fn parse(s: String) -> (r: Result<Self, String>)
        ensures
            (match r {
                Ok(e) => e@ == s@ && valid_name(s@),
                Err(m) => !valid_name(s@) && m@ == "not a valid subscriber name"@,
            }),
    {
        if name_str_valid(s.as_str()) {
            Ok(SubscriberName { s })
        } else {
            Err(String::from_str("not a valid subscriber name"))
        }
    }

    /// The name as a string slice.
    pub fn as_str(&self) -> (r: &str)
        ensures
            r@ == self@,
    {
        self.s.as_str()
    }

    /// Surrender the inner string.
    pub fn into_string(self) -> (r: String)
        ensures
            r@ == self@,
    {
        self.s
    }
}

/// Decide [`valid_name`] for a string slice.
pub fn name_str_valid(s: &str) -> (r: bool)
    ensures
        r == valid_name(s@),
{
    let n = s.unicode_len();
    if n > 256 {
        return false;
    }
    let mut blank = true;
    let mut i: usize = 0;
    while i < n
        invariant
            n == s@.len(),
            0 <= i <= n,
            forall|j: int| 0 <= j < i ==> !forbidden_name_char(#[trigger] s@[j]),
            blank <==> (forall|j: int| 0 <= j < i ==> is_space_char(#[trigger] s@[j])),
        decreases n - i,
    {
        let c = s.get_char(i);
        if c == '/' || c == '(' || c == ')' || c == '"' || c == '<' || c == '>' || c == '\\'
            || c == '{' || c == '}' {
            assert(forbidden_name_char(s@[i as int]));
            return false;
        }
        let u = c as u32;
        let space = u == 0x20 || u == 0x09 || u == 0x0a || u == 0x0b || u == 0x0c || u == 0x0d
            || u == 0x85 || u == 0xa0 || u == 0x1680 || (0x2000 <= u && u <= 0x200a) || u == 0x2028
            || u == 0x2029 || u == 0x202f || u == 0x205f || u == 0x3000;
        if !space {
            assert(!is_space_char(s@[i as int]));
            blank = false;
        }
        i += 1;
    }
    !blank
}

/// The raw fields of a subscription form.
#[derive(Debug)]
pub struct FormData {
    pub email: String,
    pub name: String,
}

/// A validated new subscriber, ready to store.
#[derive(Debug)]
pub struct NewSubscriber {
    pub email: SubscriberEmail,
    pub name: SubscriberName,
}

impl NewSubscriber {
    /// Validate a subscription form, name first, then email; the error is
    /// the first failure's message.
    pub fn try_from(value: FormData) -> (r: Result<Self, String>)
        ensures
            (match r {
                Ok(s) => valid_name(value.name@) && valid_email(value.email@) && s.name@
                    == value.name@ && s.email@ == value.email@,
                Err(m) => {
                    &&& !(valid_name(value.name@) && valid_email(value.email@))
                    &&& !valid_name(value.name@) ==> m@ == "not a valid subscriber name"@
                    &&& valid_name(value.name@) && !valid_email(value.email@) ==> m@
                        == "not a valid subscriber email"@
                },
            }),
    {
        let name = match SubscriberName::parse(value.name) {
            Ok(n) => n,
            Err(m) => {
                return Err(m);
            },
        };
        let email = match SubscriberEmail::parse(value.email) {
            Ok(e) => e,
            Err(m) => {
                return Err(m);
            },
        };
        Ok(NewSubscriber { email, name })
    }
}

} // verus!
