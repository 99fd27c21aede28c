//! Changing the operator's password: field checks and the decision order
//! of the change-password flow.

use vstd::prelude::*;

verus! {

use vstd::string::StringExecFns;
use vstd::utf8::encode_utf8;

/// The raw fields of the change-password form.
pub struct FormData {
    pub current_password: String,
    pub new_password: String,
    pub new_password_check: String,
}

/// Rejection of a proposed password, with its message.
#[derive(Debug)]
pub enum PasswordValidationError {
    InvalidPassword(String),
}

impl PasswordValidationError {
    /// The human-readable message (what the error displays as).
    pub fn message(&self) -> (m: String)
        ensures
            (match self {
                PasswordValidationError::InvalidPassword(s) => m == s,
            }),
    {
        match self {
            PasswordValidationError::InvalidPassword(s) => s.clone(),
        }
    }
}

/// An acceptable password length: strictly more than 8 bytes and at most
/// 129 bytes of UTF-8.
pub open spec fn password_length_ok(password: Seq<char>) -> bool {
    8 < encode_utf8(password).len() <= 129
}

/// Check a proposed password's length, rejecting one that is too short or
/// too long with the message the operator sees.
pub fn validate_password(password: &String) -> (r: Result<(), PasswordValidationError>)
    ensures
        r is Ok <==> password_length_ok(password@),
        (match r {
            Ok(()) => true,
            Err(PasswordValidationError::InvalidPassword(m)) => {
                &&& encode_utf8(password@).len() <= 8 ==> m@ == "Password is too short."@
                &&& encode_utf8(password@).len() > 129 ==> m@ == "Password is to long."@
            },
        }),
{
    let n = password.as_str().as_bytes().len();
    if n <= 8 {
        return Err(
            PasswordValidationError::InvalidPassword(String::from_str("Password is too short.")),
        );
    }
    if n > 129 {
        return Err(
            PasswordValidationError::InvalidPassword(String::from_str("Password is to long.")),
        );
    }
    Ok(())
}

/// The decision the change-password flow reaches, in its checking order:
/// the two new-password fields must match, the current password must have
/// been verified, and the new password must be acceptable; only then does
/// the change proceed.
pub enum ChangePasswordOutcome {
    MismatchedNewPasswords,
    IncorrectCurrentPassword,
    InvalidNewPassword(String),
    Proceed,
}

impl ChangePasswordOutcome {
    /// The notification shown for a rejected change, if any.
    pub fn flash_message(&self) -> (m: Option<String>)
        ensures
            (match self {
                ChangePasswordOutcome::MismatchedNewPasswords => m matches Some(s) && s@
                    == "You entered two different new passwords - the fields values must match."@,
                ChangePasswordOutcome::IncorrectCurrentPassword => m matches Some(s) && s@
                    == "The current password is incorrect."@,
                ChangePasswordOutcome::InvalidNewPassword(e) => m matches Some(s) && s == e,
                ChangePasswordOutcome::Proceed => m is None,
            }),
    {
        match self {
            ChangePasswordOutcome::MismatchedNewPasswords => Some(
                String::from_str(
                    "You entered two different new passwords - the fields values must match.",
                ),
            ),
            ChangePasswordOutcome::IncorrectCurrentPassword => Some(
                String::from_str("The current password is incorrect."),
            ),
            ChangePasswordOutcome::InvalidNewPassword(e) => Some(e.clone()),
            ChangePasswordOutcome::Proceed => None,
        }
    }
}

/// Decide the change-password flow for a submitted form, given whether the
/// supplied current password verified against the stored credentials. The
/// checks run in the order the flow performs them, and only a form that
/// passes all three proceeds to the stored-credential update.
pub fn change_password_plan(form: &FormData, current_password_valid: bool) -> (r:
    ChangePasswordOutcome)
    ensures
        (match r {
            ChangePasswordOutcome::MismatchedNewPasswords => form.new_password@
                != form.new_password_check@,
            ChangePasswordOutcome::IncorrectCurrentPassword => form.new_password@
                == form.new_password_check@ && !current_password_valid,
            ChangePasswordOutcome::InvalidNewPassword(m) => {
                &&& form.new_password@ == form.new_password_check@
                &&& current_password_valid
                &&& !password_length_ok(form.new_password@)
                &&& encode_utf8(form.new_password@).len() <= 8 ==> m@
                    == "Password is too short."@
                &&& encode_utf8(form.new_password@).len() > 129 ==> m@
                    == "Password is to long."@
            },
            ChangePasswordOutcome::Proceed => form.new_password@ == form.new_password_check@
                && current_password_valid && password_length_ok(form.new_password@),
        }),
{
    if !(form.new_password == form.new_password_check) {
        return ChangePasswordOutcome::MismatchedNewPasswords;
    }
    if !current_password_valid {
        return ChangePasswordOutcome::IncorrectCurrentPassword;
    }
    match validate_password(&form.new_password) {
        Err(e) => ChangePasswordOutcome::InvalidNewPassword(e.message()),
        Ok(()) => ChangePasswordOutcome::Proceed,
    }
}

} // verus!
