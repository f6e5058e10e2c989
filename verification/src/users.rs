//! User accounts: the account data model and the validation rules applied
//! when an account is created or signs in.

use vstd::prelude::*;

use crate::invitation::InvitationState;
use crate::strutil::str_eq;

verus! {

/// The privilege level of an account.
#[derive(Clone, Copy, Debug, PartialEq, Eq, Structural)]
pub enum UserRole {
    Admin,
    User,
}

/// Whether a role grants administration.
pub fn is_admin_role(role: &UserRole) -> (r: bool)
    ensures
        r == (*role is Admin),
{
    match *role {
        UserRole::Admin => true,
        UserRole::User => false,
    }
}

/// One account.
pub struct User {
    pub id: String,
    pub password: String,
    pub role: UserRole,
    pub api_key: String,
    /// Codes this account issued.
    pub invitations: Vec<String>,
}

/// A user-facing account failure.
pub enum UserError {
    Unauthorized(String),
    InvalidIdOrPassword(String),
    InvalidInvitationCode(String),
}

/// The request body of an account lookup.
pub struct ShowUserRequest {
    pub id: String,
}

/// The request body of an account creation.
pub struct NewUserRequest {
    pub id: String,
    pub password: String,
    pub invitation_code: String,
}

/// The request body of a sign-in.
pub struct LoginRequest {
    pub id: String,
    pub password: String,
}

/// A character an account id may hold: ASCII alphanumeric, `-` or `_`.
pub open spec fn id_char_ok(c: char) -> bool {
    ('a' <= c <= 'z') || ('A' <= c <= 'Z') || ('0' <= c <= '9') || c == '-' || c == '_'
}

/// A valid account id: 2 to 40 characters, each from [`id_char_ok`].
pub open spec fn valid_user_id_spec(s: Seq<char>) -> bool {
    2 <= s.len() <= 40 && forall|i: int| 0 <= i < s.len() ==> id_char_ok(#[trigger] s[i])
}

/// Checks an account id, as [`valid_user_id_spec`] describes it.
pub fn valid_user_id(id: &str) -> (r: bool)
    ensures
        r == valid_user_id_spec(id@),
{
    let n = id.unicode_len();
    if n < 2 || n > 40 {
        return false;
    }
    let mut i: usize = 0;
    while i < n
        invariant
            n == id@.len(),
            i <= n,
            forall|j: int| 0 <= j < i ==> id_char_ok(#[trigger] id@[j]),
        decreases n - i,
    {
        let c = id.get_char(i);
        let ok = ('a' <= c && c <= 'z') || ('A' <= c && c <= 'Z') || ('0' <= c && c <= '9') || c
            == '-' || c == '_';
        if !ok {
            return false;
        }
        i += 1;
    }
    true
}

/// A valid password: at least 8 characters.
pub open spec fn valid_password_spec(s: Seq<char>) -> bool {
    s.len() >= 8
}

/// Checks a password, as [`valid_password_spec`] describes it.
pub fn valid_password(password: &str) -> (r: bool)
    ensures
        r == valid_password_spec(password@),
{
    password.unicode_len() >= 8
}

/// Why an account creation is rejected.
#[derive(Clone, Copy, Debug, PartialEq, Eq, Structural)]
pub enum NewUserRejection {
    /// No unspent invitation with the given code exists.
    UnknownInvitation,
    /// The invitation was already spent.
    UsedInvitation,
    /// The id breaks [`valid_user_id_spec`].
    InvalidId,
    /// The password breaks [`valid_password_spec`].
    PasswordTooShort,
}

/// The validation verdict for an account creation: the invitation lookup's
/// result is judged first, then the id, then the password.
pub open spec fn new_user_validation(
    invitation: Option<InvitationState>,
    id: Seq<char>,
    password: Seq<char>,
) -> Result<(), NewUserRejection> {
    match invitation {
        None => Err(NewUserRejection::UnknownInvitation),
        Some(state) => {
            if state == InvitationState::Used {
                Err(NewUserRejection::UsedInvitation)
            } else if !valid_user_id_spec(id) {
                Err(NewUserRejection::InvalidId)
            } else if !valid_password_spec(password) {
                Err(NewUserRejection::PasswordTooShort)
            } else {
                Ok(())
            }
        },
    }
}

/// Validates an account creation, as [`new_user_validation`] describes it;
/// `invitation` is what the store found under the submitted code. The
/// account write itself stands outside.
pub fn validate_new_user(
    invitation: Option<InvitationState>,
    id: &str,
    password: &str,
) -> (r: Result<(), NewUserRejection>)
    ensures
        r == new_user_validation(invitation, id@, password@),
{
    match invitation {
        None => Err(NewUserRejection::UnknownInvitation),
        Some(state) => {
            if state == InvitationState::Used {
                Err(NewUserRejection::UsedInvitation)
            } else if !valid_user_id(id) {
                Err(NewUserRejection::InvalidId)
            } else if !valid_password(password) {
                Err(NewUserRejection::PasswordTooShort)
            } else {
                Ok(())
            }
        },
    }
}

/// Judges a sign-in against the stored password, answering as the account
/// service does: an unknown id and a wrong password are told apart.
/// `stored_password` is what the store found under the submitted id; issuing
/// the session token stands outside.
pub fn varify_password(stored_password: Option<&String>, password: &str) -> (r: Result<
    (),
    &'static str,
>)
    ensures
        match stored_password {
            None => r matches Err(m) && m@ == "invalid id"@,
            Some(sp) => {
                if sp@ == password@ {
                    r is Ok
                } else {
                    r matches Err(m) && m@ == "invalid password"@
                }
            },
        },
{
    match stored_password {
        None => Err("invalid id"),
        Some(sp) => {
            if str_eq(sp.as_str(), password) {
                Ok(())
            } else {
                Err("invalid password")
            }
        },
    }
}

} // verus!
