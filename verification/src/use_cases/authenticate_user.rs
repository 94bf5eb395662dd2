use vstd::prelude::*;
use crate::ports::auth::{AuthError, AuthPort};

verus! {

/// Use-case: verify user credentials and open a session.
pub struct AuthenticateUser<A: AuthPort> {
    auth: A,
}

impl<A: AuthPort> AuthenticateUser<A> {
    /// The authentication adapter this use-case drives.
    pub closed spec fn port(&self) -> A {
        self.auth
    }

    pub fn new(auth: A) -> (r: Self)
        ensures
            r.port() == auth,
    {
        AuthenticateUser { auth }
    }

    /// Execute the use-case: validate `username`/`password` and return the UID.
    /// Empty credentials are refused before the adapter is asked.
    pub fn execute(&self, username: &str, password: &str) -> (r: Result<u32, AuthError>)
        ensures
            username@.len() == 0 || password@.len() == 0 ==> r == Err::<u32, AuthError>(
                AuthError::InvalidCredentials,
            ),
            username@.len() > 0 && password@.len() > 0 ==> r == A::authenticate_spec(
                self.port()@,
                username@,
                password@,
            ),
    {
        if username.is_empty() || password.is_empty() {
            return Err(AuthError::InvalidCredentials);
        }
        self.auth.authenticate(username, password)
    }

    pub fn auth(&self) -> (r: &A)
        ensures
            *r == self.port(),
    {
        &self.auth
    }

    pub fn auth_mut(&mut self) -> (r: &mut A)
        ensures
            *r == old(self).port(),
            final(self).port() == *final(r),
    {
        &mut self.auth
    }
}

} // verus!
