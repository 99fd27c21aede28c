//! Credential handling: parsing HTTP Basic credentials, verifying a
//! password against a stored Argon2 hash, and the login flow's decisions.
//!
//! The cryptography itself — base64 decoding and Argon2 verification — is
//! done by its libraries; what this module verifies is everything around
//! those calls: the header grammar, the UTF-8 and split logic, the
//! timing-equalising fallback hash, and which error leaves on which input.

use vstd::prelude::*;

verus! {

use vstd::string::StrSliceExecFns;
use vstd::string::StringExecFns;
use vstd::utf8::{decode_utf8, encode_utf8, valid_utf8};
use crate::helpers::find_char;
use crate::http::{see_other, see_other_model, SavedResponse};
use crate::newsletter::PublishError;

/// Credentials as the authentication layer consumes them.
#[derive(Debug)]
pub struct Credentials {
    pub username: String,
    pub password: String,
}

/// The fields of the login form.
#[derive(Debug)]
pub struct LoginFormData {
    pub username: String,
    pub password: String,
}

impl From<LoginFormData> for Credentials {
    /// A login form carries exactly the credentials it names.
    fn from(value: LoginFormData) -> (r: Self) {
        Self { username: value.username, password: value.password }
    }
}

impl vstd::std_specs::convert::FromSpecImpl<LoginFormData> for Credentials {
    open spec fn obeys_from_spec() -> bool {
        true
    }

    open spec fn from_spec(v: LoginFormData) -> Self {
        Credentials { username: v.username, password: v.password }
    }
}

/// base64's decode error, carried through opaquely.
#[verifier::external_type_specification]
#[verifier::external_body]
pub struct ExDecodeError(base64::DecodeError);

/// The outcome of decoding `s` as standard-alphabet base64: the decoded
/// bytes, or nothing where `s` is not valid base64.
pub uninterp spec fn b64_decode_result(s: Seq<char>) -> Option<Seq<u8>>;

/// Relies on base64's `Engine::decode` with the standard-alphabet engine:
/// whether a string decodes, and to what, depends on the string alone.
#[verifier::external_body]
fn b64_decode(s: &str) -> (r: Result<Vec<u8>, base64::DecodeError>)
    ensures
        r is Ok <==> b64_decode_result(s@) is Some,
        r matches Ok(v) ==> Some(v@) == b64_decode_result(s@),
{
    base64::Engine::decode(&base64::engine::general_purpose::STANDARD, s)
}

/// Relies on std's `String::from_utf8`: it succeeds exactly on valid
/// UTF-8, and then yields the decoded characters of the bytes.
#[verifier::external_body]
fn utf8_to_string(bytes: Vec<u8>) -> (r: Option<String>)
    ensures
        r is Some <==> valid_utf8(bytes@),
        r matches Some(s) ==> s@ == decode_utf8(bytes@),
{
    String::from_utf8(bytes).ok()
}

/// Whether a stored password hash parses as a PHC string.
pub uninterp spec fn phc_parses(phc: Seq<char>) -> bool;

/// Whether Argon2 accepts `password` against the stored PHC hash `phc`
/// (algorithm, version, parameters and salt are all read from `phc`).
pub uninterp spec fn argon2_matches(phc: Seq<char>, password: Seq<u8>) -> bool;

/// Relies on argon2's `PasswordHash::new`: whether a stored hash parses as
/// a PHC string depends on the string alone.
#[verifier::external_body]
fn phc_string_parses(phc: &str) -> (r: bool)
    ensures
        r == phc_parses(phc@),
{
    argon2::PasswordHash::new(phc).is_ok()
}

/// Relies on argon2's `Argon2::verify_password`, with `PasswordHash::new`
/// re-parsing the hash the caller already checked. Algorithm, version,
/// parameters and salt all come from the PHC string itself, so whether the
/// candidate matches depends on the two arguments alone.
#[verifier::external_body]
fn argon2_verify(expected_phc: &str, candidate: &[u8]) -> (r: bool)
    requires
        phc_parses(expected_phc@),
    ensures
        r == argon2_matches(expected_phc@, candidate@),
{
    match argon2::PasswordHash::new(expected_phc) {
        Ok(hash) => argon2::PasswordVerifier::verify_password(
            &argon2::Argon2::default(),
            candidate,
            &hash,
        ).is_ok(),
        Err(_) => false,
    }
}

/// Whether `s` contains the character `c`.
pub open spec fn has_char(s: Seq<char>, c: char) -> bool {
    exists|i: int| 0 <= i < s.len() && s[i] == c
}

/// The index of the first occurrence of `c` in `s` (meaningful when
/// `has_char` holds).
pub open spec fn first_index_of(s: Seq<char>, c: char) -> int {
    choose|i: int| 0 <= i < s.len() && s[i] == c && (forall|j: int| 0 <= j < i ==> s[j] != c)
}

/// Splitting decoded credentials at the first colon: the username before
/// it, the password after it.
pub open spec fn split_credentials_model(s: Seq<char>) -> (Seq<char>, Seq<char>) {
    let i = first_index_of(s, ':');
    (s.take(i), s.skip(i + 1))
}

/// Whether `h` starts with the `Basic ` authorization scheme.
pub open spec fn basic_prefix_ok(h: Seq<char>) -> bool {
    h.len() >= 6 && h.take(6) == "Basic "@
}

/// Turn the decoded bytes of a `Basic` credential segment into
/// credentials: the bytes must be valid UTF-8 and contain a colon; the
/// username is everything before the first colon, the password everything
/// after it.
pub fn credentials_from_decoded(bytes: Vec<u8>) -> (r: Result<Credentials, String>)
    ensures
        r is Ok <==> valid_utf8(bytes@) && has_char(decode_utf8(bytes@), ':'),
        (match r {
            Ok(c) => (c.username@, c.password@) == split_credentials_model(decode_utf8(bytes@)),
            Err(m) => {
                &&& !valid_utf8(bytes@) ==> m@
                    == "The decoded credential string is not valid UTF8."@
                &&& valid_utf8(bytes@) && !has_char(decode_utf8(bytes@), ':') ==> m@
                    == "A password must be provided in 'Basic' auth."@
            },
        }),
{
    let s = match utf8_to_string(bytes) {
        Some(s) => s,
        None => {
            return Err(String::from_str("The decoded credential string is not valid UTF8."));
        },
    };
    let i = match find_char(s.as_str(), ':') {
        Some(i) => i,
        None => {
            return Err(String::from_str("A password must be provided in 'Basic' auth."));
        },
    };
    proof {
        assert(s@[i as int] == ':');
        assert(has_char(s@, ':'));
        let w = first_index_of(s@, ':');
        assert(0 <= w < s@.len() && s@[w] == ':' && (forall|j: int| 0 <= j < w ==> s@[j] != ':'));
        if w < i {
            assert(s@[w] != ':');
        } else if i < w {
            assert(s@[i as int] != ':');
        }
        assert(w == i as int);
    }
    let n = s.as_str().unicode_len();
    let username = s.as_str().substring_char(0, i).to_owned();
    let password = s.as_str().substring_char(i + 1, n).to_owned();
    proof {
        assert(username@ =~= s@.take(i as int));
        assert(password@ =~= s@.skip(i as int + 1));
    }
    Ok(Credentials { username, password })
}

/// Parse an `Authorization` header value as HTTP Basic credentials: the
/// `Basic ` scheme, then a base64 segment that decodes to
/// `username:password`.
pub fn basic_authentication(header_value: &str) -> (r: Result<Credentials, String>)
    ensures
        r is Ok <==> basic_prefix_ok(header_value@) && (b64_decode_result(
            header_value@.skip(6),
        ) matches Some(d) && valid_utf8(d) && has_char(decode_utf8(d), ':')),
        (match r {
            Ok(c) => {
                let d = b64_decode_result(header_value@.skip(6))->Some_0;
                (c.username@, c.password@) == split_credentials_model(decode_utf8(d))
            },
            Err(m) => {
                &&& !basic_prefix_ok(header_value@) ==> m@
                    == "The authorization scheme was not 'Basic'."@
                &&& basic_prefix_ok(header_value@) && b64_decode_result(
                    header_value@.skip(6),
                ) is None ==> m@ == "Failed to base64-decode 'Basic' credentials."@
                &&& basic_prefix_ok(header_value@) && (b64_decode_result(
                    header_value@.skip(6),
                ) matches Some(d) && !valid_utf8(d)) ==> m@
                    == "The decoded credential string is not valid UTF8."@
                &&& basic_prefix_ok(header_value@) && (b64_decode_result(
                    header_value@.skip(6),
                ) matches Some(d) && valid_utf8(d) && !has_char(decode_utf8(d), ':')) ==> m@
                    == "A password must be provided in 'Basic' auth."@
            },
        }),
{
    let n = header_value.unicode_len();
    let prefix_ok = n >= 6 && header_value.get_char(0) == 'B' && header_value.get_char(1) == 'a'
        && header_value.get_char(2) == 's' && header_value.get_char(3) == 'i'
        && header_value.get_char(4) == 'c' && header_value.get_char(5) == ' ';
    proof {
        reveal_strlit("Basic ");
        if prefix_ok {
            assert(header_value@.take(6) =~= "Basic "@);
        } else if header_value@.len() >= 6 && header_value@.take(6) == "Basic "@ {
            assert(header_value@.take(6)[0] == 'B');
            assert(header_value@.take(6)[1] == 'a');
            assert(header_value@.take(6)[2] == 's');
            assert(header_value@.take(6)[3] == 'i');
            assert(header_value@.take(6)[4] == 'c');
            assert(header_value@.take(6)[5] == ' ');
        }
    }
    if !prefix_ok {
        return Err(String::from_str("The authorization scheme was not 'Basic'."));
    }
    let segment = header_value.substring_char(6, n);
    proof {
        assert(segment@ =~= header_value@.skip(6));
    }
    let bytes = match b64_decode(segment) {
        Ok(bytes) => bytes,
        Err(_) => {
            return Err(String::from_str("Failed to base64-decode 'Basic' credentials."));
        },
    };
    credentials_from_decoded(bytes)
}

/// The PHC hash a missing user is "verified" against, so that a request
/// for an unknown username costs the same hashing work as one for a known
/// username.
pub open spec fn fallback_password_hash() -> Seq<char> {
    "$argon2id$v=19$m=15000,t=2,p=1$gZiV/M1gPc22ElAH/Jh1Hw$CWOrkoo7oJBQ/iyh7uJ0LO2aLEfrHwTWllSAxT0zRno"@
}

/// Verify a candidate password against a stored PHC hash: a hash that does
/// not parse is an internal fault, a parsing hash that rejects the
/// password an authentication failure.
pub fn verify_password_hash(expected_password_hash: &String, password_candidate: &String) -> (r:
    Result<(), PublishError>)
    ensures
        (match r {
            Ok(()) => phc_parses(expected_password_hash@) && argon2_matches(
                expected_password_hash@,
                encode_utf8(password_candidate@),
            ),
            Err(PublishError::UnexpectedError(m)) => !phc_parses(expected_password_hash@) && m@
                == "Failed to parse hash in PHC string format"@,
            Err(PublishError::AuthError(m)) => phc_parses(expected_password_hash@)
                && !argon2_matches(expected_password_hash@, encode_utf8(password_candidate@)) && m@
                == "Invalid password."@,
        }),
{
    if !phc_string_parses(expected_password_hash.as_str()) {
        return Err(
            PublishError::UnexpectedError(
                String::from_str("Failed to parse hash in PHC string format"),
            ),
        );
    }
    if argon2_verify(expected_password_hash.as_str(), password_candidate.as_str().as_bytes()) {
        Ok(())
    } else {
        Err(PublishError::AuthError(String::from_str("Invalid password.")))
    }
}

/// Decide a login attempt from the stored credentials of the claimed
/// username, fetched by the caller. An unknown username is still verified
/// — against the fallback hash — before it is rejected, so the timing
/// reveals nothing; only a known username whose hash accepts the password
/// yields its user id.
pub fn validate_credentials_with(
    stored_credentials: Option<(u128, String)>,
    credentials: &Credentials,
) -> (r: Result<u128, PublishError>)
    ensures
        (match r {
            Ok(uid) => (match stored_credentials {
                Some((id, h)) => uid == id && phc_parses(h@) && argon2_matches(
                    h@,
                    encode_utf8(credentials.password@),
                ),
                None => false,
            }),
            Err(PublishError::AuthError(m)) => (match stored_credentials {
                Some((_, h)) => phc_parses(h@) && !argon2_matches(
                    h@,
                    encode_utf8(credentials.password@),
                ) && m@ == "Invalid password."@,
                None => {
                    &&& phc_parses(fallback_password_hash())
                    &&& argon2_matches(
                        fallback_password_hash(),
                        encode_utf8(credentials.password@),
                    ) ==> m@ == "Unknown username"@
                    &&& !argon2_matches(
                        fallback_password_hash(),
                        encode_utf8(credentials.password@),
                    ) ==> m@ == "Invalid password."@
                },
            }),
            Err(PublishError::UnexpectedError(m)) => (match stored_credentials {
                Some((_, h)) => !phc_parses(h@),
                None => !phc_parses(fallback_password_hash()),
            }) && m@ == "Failed to parse hash in PHC string format"@,
        }),
{
    match stored_credentials {
        Some((user_id, stored_hash)) => {
            match verify_password_hash(&stored_hash, &credentials.password) {
                Ok(()) => Ok(user_id),
                Err(e) => Err(e),
            }
        },
        None => {
            let fallback = String::from_str(
                "$argon2id$v=19$m=15000,t=2,p=1$gZiV/M1gPc22ElAH/Jh1Hw$CWOrkoo7oJBQ/iyh7uJ0LO2aLEfrHwTWllSAxT0zRno",
            );
            match verify_password_hash(&fallback, &credentials.password) {
                Ok(()) => Err(PublishError::AuthError(String::from_str("Unknown username"))),
                Err(PublishError::AuthError(m)) => Err(PublishError::AuthError(m)),
                Err(e) => Err(e),
            }
        },
    }
}

/// Gate an admin page on a session: a session that carries a user id
/// passes it through, an anonymous one is sent to the login form.
pub fn reject_anonymous_users(session_user_id: Option<u128>) -> (r: Result<u128, SavedResponse>)
    ensures
        (match r {
            Ok(user_id) => session_user_id == Some(user_id),
            Err(response) => session_user_id is None && response@ == see_other_model("/login"@),
        }),
{
    match session_user_id {
        Some(user_id) => Ok(user_id),
        None => Err(see_other("/login")),
    }
}

/// Failure of a login attempt: bad credentials, or an internal fault. The
/// payload carries the underlying cause; what the operator sees is the
/// fixed message.
#[derive(Debug)]
pub enum LoginError {
    AuthError(String),
    UnexpectedError(String),
}

impl LoginError {
    /// The message the failure displays.
    pub fn message(&self) -> (m: String)
        ensures
            (match self {
                LoginError::AuthError(_) => m@ == "Authentication failed"@,
                LoginError::UnexpectedError(_) => m@ == "Something went wrong"@,
            }),
    {
        match self {
            LoginError::AuthError(_) => String::from_str("Authentication failed"),
            LoginError::UnexpectedError(_) => String::from_str("Something went wrong"),
        }
    }
}

/// The flash message and redirect a failed login answers with.
pub fn login_redirect(err: &LoginError) -> (r: (String, SavedResponse))
    ensures
        r.0@ == (match err {
            LoginError::AuthError(_) => "Authentication failed"@,
            LoginError::UnexpectedError(_) => "Something went wrong"@,
        }),
        r.1@ == see_other_model("/login"@),
{
    (err.message(), see_other("/login"))
}

/// Decide a login attempt's response from the credential check: a verified
/// user is sent to the dashboard (the caller renews the session first), a
/// failure is classified and sent back to the login form with its flash
/// message.
pub fn login_decision(auth_result: Result<u128, PublishError>) -> (r: Result<
    (u128, SavedResponse),
    (LoginError, String, SavedResponse),
>)
    ensures
        (match r {
            Ok((user_id, response)) => auth_result matches Ok(uid) && user_id == uid && response@
                == see_other_model("/admin/dashboard"@),
            Err((err, flash, response)) => {
                &&& (match auth_result {
                    Ok(_) => false,
                    Err(PublishError::AuthError(m)) => err matches LoginError::AuthError(c) && c
                        == m,
                    Err(PublishError::UnexpectedError(m)) => err
                        matches LoginError::UnexpectedError(c) && c == m,
                })
                &&& flash@ == (match err {
                    LoginError::AuthError(_) => "Authentication failed"@,
                    LoginError::UnexpectedError(_) => "Something went wrong"@,
                })
                &&& response@ == see_other_model("/login"@)
            },
        }),
{
    match auth_result {
        Ok(user_id) => Ok((user_id, see_other("/admin/dashboard"))),
        Err(PublishError::AuthError(m)) => {
            let err = LoginError::AuthError(m);
            let (flash, response) = login_redirect(&err);
            Err((err, flash, response))
        },
        Err(PublishError::UnexpectedError(m)) => {
            let err = LoginError::UnexpectedError(m);
            let (flash, response) = login_redirect(&err);
            Err((err, flash, response))
        },
    }
}

} // verus!
