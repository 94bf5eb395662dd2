use vstd::prelude::*;

verus! {

/// Errors returned by authentication operations.
#[derive(Debug, Clone, Copy, PartialEq, Eq, Structural)]
pub enum AuthError {
    InvalidCredentials,
    UserNotFound,
    SessionExpired,
}

impl AuthError {
    /// The variant's name, as `{:?}` prints it.
    pub open spec fn spec_debug_name(self) -> Seq<char> {
        match self {
            AuthError::InvalidCredentials => "InvalidCredentials"@,
            AuthError::UserNotFound => "UserNotFound"@,
            AuthError::SessionExpired => "SessionExpired"@,
        }
    }

    /// The variant's name, as `{:?}` prints it.
    pub fn debug_name(&self) -> (s: &'static str)
        ensures
            s@ == self.spec_debug_name(),
    {
        match self {
            AuthError::InvalidCredentials => "InvalidCredentials",
            AuthError::UserNotFound => "UserNotFound",
            AuthError::SessionExpired => "SessionExpired",
        }
    }
}

/// Port (trait) that abstracts user authentication and session management.
///
/// An adapter's abstract state is its view; the spec functions say what each
/// operation answers, and to which state it moves, as functions of that view.
pub trait AuthPort: View + Sized {
    /// The answer to `authenticate(username, password)` in state `m`.
    spec fn authenticate_spec(m: Self::V, username: Seq<char>, password: Seq<char>) -> Result<
        u32,
        AuthError,
    >;

    /// The state after `logout(uid)` in state `m`, and its answer.
    spec fn logout_spec(m: Self::V, uid: u32) -> (Self::V, Result<(), AuthError>);

    /// The answer to `is_admin(uid)` in state `m`.
    spec fn is_admin_spec(m: Self::V, uid: u32) -> bool;

    /// Validate credentials and return the UID on success.
    fn authenticate(&self, username: &str, password: &str) -> (r: Result<u32, AuthError>)
        ensures
            r == Self::authenticate_spec(self@, username@, password@),
    ;

    /// Invalidate the session associated with `uid`.
    fn logout(&mut self, uid: u32) -> (r: Result<(), AuthError>)
        ensures
            (final(self)@, r) == Self::logout_spec(old(self)@, uid),
    ;

    /// Return true if the user identified by `uid` has the Admin role.
    fn is_admin(&self, uid: u32) -> (r: bool)
        ensures
            r == Self::is_admin_spec(self@, uid),
    ;
}

} // verus!
