//! The user directory: the requests the gateway sends to the backend that
//! stores accounts, and how the backend's replies are read.
//!
//! Sending a request and receiving its reply is left to the caller, who hands
//! the reply back here, or `None` where none came (a network failure or a
//! timeout).

use vstd::prelude::*;
use vstd::utf8::{decode_utf8, encode_utf8};

verus! {

/// A created account as the backend reports it.
#[derive(Clone, Debug)]
pub struct Identity {
    pub username: String,
    pub email: String,
}

/// An account with its stored password representation.
#[derive(Clone, Debug)]
pub struct CredentialRecord {
    pub username: String,
    pub email: String,
    pub password_hash: String,
}

/// The variables of the backend's create-user operation.
#[derive(Clone, Debug)]
pub struct CreateUserMutation {
    pub username: String,
    pub email: String,
    pub password_hash: String,
}

/// The variables of the backend's get-user operation.
#[derive(Clone, Debug)]
pub struct GetUserQuery {
    pub username: String,
}

/// An error the backend reported: its machine-readable code, where it gave
/// one, and its message.
#[derive(Clone, Debug)]
pub struct BackendError {
    pub code: Option<String>,
    pub message: String,
}

/// The backend's reply to a create-user request: the created account, if it
/// reported one, and the errors it reported, if it reported an error list.
#[derive(Clone, Debug)]
pub struct CreateUserReply {
    pub data: Option<Identity>,
    pub errors: Option<Vec<BackendError>>,
}

/// The backend's reply to a get-user request: the accounts with the asked-for
/// username, if it reported a list, and the errors it reported, if it
/// reported an error list.
#[derive(Clone, Debug)]
pub struct GetUserReply {
    pub data: Option<Vec<CredentialRecord>>,
    pub errors: Option<Vec<BackendError>>,
}

/// Why a directory operation failed.
#[derive(Clone, Copy, Debug, PartialEq, Eq, Structural)]
pub enum DirectoryError {
    /// The backend refused the account it was asked to create (a duplicate).
    Conflict,
    /// No reply came from the backend.
    Unavailable,
    /// A reply came, but not one that answers the request.
    Inconsistent,
}

impl CreateUserMutation {
    /// The create-user request for an account.
    pub fn new(username: String, email: String, password_hash: String) -> (r: CreateUserMutation)
        ensures
            r.username@ == username@,
            r.email@ == email@,
            r.password_hash@ == password_hash@,
    {
        CreateUserMutation { username, email, password_hash }
    }
}

impl GetUserQuery {
    /// The get-user request for `username`.
    pub fn new(username: String) -> (r: GetUserQuery)
        ensures
            r.username@ == username@,
    {
        GetUserQuery { username }
    }
}

/// The code with which the backend reports that a write broke a uniqueness
/// or other constraint, as when the username is taken.
pub open spec fn constraint_violation_code() -> Seq<char> {
    CONSTRAINT_VIOLATION@
}

/// The code with which the backend reports that a write broke a constraint.
pub const CONSTRAINT_VIOLATION: &'static str = "constraint-violation";

/// Whether the reported error `e` says that the data was refused by a
/// constraint (a duplicate account).
pub open spec fn is_constraint_violation(e: BackendError) -> bool {
    e.code matches Some(c) && c@ == constraint_violation_code()
}

/// How the reply (or its absence) to a create-user request is read: no reply
/// is `Unavailable`; an error list with a constraint violation in it means
/// the backend refused the account (`Conflict`); any other error list, or a
/// reply without the created account, is `Inconsistent`; otherwise the
/// account the backend reports is the result.
pub open spec fn create_user_result(reply: Option<CreateUserReply>) -> Result<
    Identity,
    DirectoryError,
> {
    match reply {
        None => Err(DirectoryError::Unavailable),
        Some(rep) => match rep.errors {
            Some(errs) => if exists|i: int|
                0 <= i < errs@.len() && is_constraint_violation(#[trigger] errs@[i]) {
                Err(DirectoryError::Conflict)
            } else {
                Err(DirectoryError::Inconsistent)
            },
            None => match rep.data {
                None => Err(DirectoryError::Inconsistent),
                Some(id) => Ok(id),
            },
        },
    }
}

/// How the reply (or its absence) to `request` is read: no reply is
/// `Unavailable`; reported errors, a missing list, more than one account, or
/// an account with another username are `Inconsistent`; an empty list means
/// that no such account exists.
pub open spec fn get_user_result(request: GetUserQuery, reply: Option<GetUserReply>) -> Result<
    Option<CredentialRecord>,
    DirectoryError,
> {
    match reply {
        None => Err(DirectoryError::Unavailable),
        Some(rep) => if rep.errors is Some {
            Err(DirectoryError::Inconsistent)
        } else {
            match rep.data {
                None => Err(DirectoryError::Inconsistent),
                Some(rows) => if rows@.len() == 0 {
                    Ok(None)
                } else if rows@.len() == 1 && rows@[0].username@ == request.username@ {
                    Ok(Some(rows@[0]))
                } else {
                    Err(DirectoryError::Inconsistent)
                },
            }
        },
    }
}

/// Whether `a` and `b` hold the same text.
fn same_text(a: &str, b: &str) -> (r: bool)
    ensures
        r == (a@ == b@),
{
    let x = a.as_bytes();
    let y = b.as_bytes();
    proof {
        broadcast use vstd::utf8::encode_utf8_decode_utf8, vstd::utf8::encode_utf8_valid_utf8;

        assert(x@ == encode_utf8(a@));
        assert(y@ == encode_utf8(b@));
        assert(decode_utf8(encode_utf8(a@)) == a@);
        assert(decode_utf8(encode_utf8(b@)) == b@);
    }
    if x.len() != y.len() {
        return false;
    }
    let mut i: usize = 0;
    while i < x.len()
        invariant
            0 <= i <= x@.len(),
            x@.len() == y@.len(),
            x@ == encode_utf8(a@),
            y@ == encode_utf8(b@),
            forall|k: int| 0 <= k < i ==> x@[k] == y@[k],
        decreases x.len() - i,
    {
        if x[i] != y[i] {
            assert(x@[i as int] != y@[i as int]);
            return false;
        }
        i = i + 1;
    }
    assert(x@ =~= y@);
    true
}

/// Whether one of `errs` is a constraint violation.
fn has_constraint_violation(errs: &Vec<BackendError>) -> (r: bool)
    ensures
        r == exists|i: int| 0 <= i < errs@.len() && is_constraint_violation(#[trigger] errs@[i]),
{
    let mut i: usize = 0;
    while i < errs.len()
        invariant
            0 <= i <= errs@.len(),
            forall|k: int| 0 <= k < i ==> !is_constraint_violation(#[trigger] errs@[k]),
        decreases errs.len() - i,
    {
        match &errs[i].code {
            Some(c) => {
                if same_text(c.as_str(), CONSTRAINT_VIOLATION) {
                    assert(is_constraint_violation(errs@[i as int]));
                    return true;
                }
            },
            None => {},
        }
        i = i + 1;
    }
    false
}

/// Reads the backend's reply to a create-user request.
pub fn create_user_outcome(reply: Option<CreateUserReply>) -> (r: Result<Identity, DirectoryError>)
    ensures
        r == create_user_result(reply),
{
    match reply {
        None => Err(DirectoryError::Unavailable),
        Some(rep) => match rep.errors {
            Some(errs) => {
                if has_constraint_violation(&errs) {
                    Err(DirectoryError::Conflict)
                } else {
                    Err(DirectoryError::Inconsistent)
                }
            },
            None => match rep.data {
                None => Err(DirectoryError::Inconsistent),
                Some(id) => Ok(id),
            },
        },
    }
}

/// Reads the backend's reply to a get-user request.
pub fn get_user_outcome(request: &GetUserQuery, reply: Option<GetUserReply>) -> (r: Result<
    Option<CredentialRecord>,
    DirectoryError,
>)
    ensures
        r == get_user_result(*request, reply),
{
    match reply {
        None => Err(DirectoryError::Unavailable),
        Some(rep) => {
            if rep.errors.is_some() {
                return Err(DirectoryError::Inconsistent);
            }
            match rep.data {
                None => Err(DirectoryError::Inconsistent),
                Some(rows) => {
                    let mut rows = rows;
                    if rows.len() == 0 {
                        Ok(None)
                    } else if rows.len() == 1 {
                        match rows.pop() {
                            Some(row) => {
                                if row.username == request.username {
                                    Ok(Some(row))
                                } else {
                                    Err(DirectoryError::Inconsistent)
                                }
                            },
                            None => Err(DirectoryError::Inconsistent),
                        }
                    } else {
                        Err(DirectoryError::Inconsistent)
                    }
                },
            }
        },
    }
}

} // verus!
