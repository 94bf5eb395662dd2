use std::collections::HashSet;
use vstd::prelude::*;
use vstd::string::*;
use crate::ports::auth::{AuthError, AuthPort};
use crate::text::str_eq;

verus! {

broadcast use vstd::std_specs::hash::group_hash_axioms;

/// A user record as the adapter sees it: (username, password, uid, is_admin).
pub type UserRecord = (Seq<char>, Seq<char>, u32, bool);

/// The answer of `authenticate` when the scan starts at record `i`: the first
/// record with this username decides; with none, the user is not found.
pub open spec fn authenticate_from(
    users: Seq<UserRecord>,
    i: int,
    username: Seq<char>,
    password: Seq<char>,
) -> Result<u32, AuthError>
    decreases users.len() - i,
{
    if i < 0 || i >= users.len() {
        Err(AuthError::UserNotFound)
    } else if users[i].0 == username {
        if users[i].1 == password {
            Ok(users[i].2)
        } else {
            Err(AuthError::InvalidCredentials)
        }
    } else {
        authenticate_from(users, i + 1, username, password)
    }
}

/// The admin flag of the first record with this uid, scanning from record
/// `i`; false when there is none.
pub open spec fn admin_from(users: Seq<UserRecord>, i: int, uid: u32) -> bool
    decreases users.len() - i,
{
    if i < 0 || i >= users.len() {
        false
    } else if users[i].2 == uid {
        users[i].3
    } else {
        admin_from(users, i + 1, uid)
    }
}

/// Whether some record has this uid.
pub open spec fn has_uid(users: Seq<UserRecord>, uid: u32) -> bool {
    exists|i: int| 0 <= i < users.len() && #[trigger] users[i].2 == uid
}

/// Hardcoded user database for demonstration purposes.
/// Tuple layout: (username, password, uid, is_admin).
pub struct LocalAuthAdapter {
    users: Vec<(String, String, u32, bool)>,
    /// Set of UIDs that are currently logged-in.
    active_sessions: HashSet<u32>,
}

impl View for LocalAuthAdapter {
    /// The user records, and the set of logged-in UIDs.
    type V = (Seq<UserRecord>, Set<u32>);

    closed spec fn view(&self) -> (Seq<UserRecord>, Set<u32>) {
        (
            self.users@.map_values(
                |u: (String, String, u32, bool)| (u.0@, u.1@, u.2, u.3),
            ),
            self.active_sessions@,
        )
    }
}

impl LocalAuthAdapter {
    pub fn new() -> (r: Self)
        ensures
            r@.0 == seq![
                ("admin"@, "admin123"@, 0u32, true),
                ("user"@, "user123"@, 1u32, false),
                ("guest"@, "guest"@, 2u32, false),
            ],
            r@.1 == Set::<u32>::empty(),
    {
        let mut users: Vec<(String, String, u32, bool)> = Vec::new();
        users.push((String::from_str("admin"), String::from_str("admin123"), 0, true));
        users.push((String::from_str("user"), String::from_str("user123"), 1, false));
        users.push((String::from_str("guest"), String::from_str("guest"), 2, false));
        let r = LocalAuthAdapter { users, active_sessions: HashSet::new() };
        assert(r@.0 =~= seq![
            ("admin"@, "admin123"@, 0u32, true),
            ("user"@, "user123"@, 1u32, false),
            ("guest"@, "guest"@, 2u32, false),
        ]);
        r
    }
}

impl LocalAuthAdapter {
    /// Whether some user record carries `uid`.
    fn has_user(&self, uid: u32) -> (r: bool)
        ensures
            r == has_uid(self@.0, uid),
    {
        let mut i: usize = 0;
        while i < self.users.len()
            invariant
                i <= self.users@.len(),
                forall|j: int| 0 <= j < i ==> self@.0[j].2 != uid,
            decreases self.users@.len() - i,
        {
            if self.users[i].2 == uid {
                assert(self@.0[i as int].2 == uid);
                return true;
            }
            i = i + 1;
        }
        false
    }
}

impl Default for LocalAuthAdapter {
    fn default() -> (r: Self)
        ensures
            r@.0 == seq![
                ("admin"@, "admin123"@, 0u32, true),
                ("user"@, "user123"@, 1u32, false),
                ("guest"@, "guest"@, 2u32, false),
            ],
            r@.1 == Set::<u32>::empty(),
    {
        Self::new()
    }
}

impl AuthPort for LocalAuthAdapter {
    open spec fn authenticate_spec(m: Self::V, username: Seq<char>, password: Seq<char>) -> Result<
        u32,
        AuthError,
    > {
        authenticate_from(m.0, 0, username, password)
    }

    open spec fn logout_spec(m: Self::V, uid: u32) -> (Self::V, Result<(), AuthError>) {
        if has_uid(m.0, uid) {
            ((m.0, m.1.remove(uid)), Ok(()))
        } else {
            (m, Err(AuthError::UserNotFound))
        }
    }

    open spec fn is_admin_spec(m: Self::V, uid: u32) -> bool {
        admin_from(m.0, 0, uid)
    }

    fn authenticate(&self, username: &str, password: &str) -> (r: Result<u32, AuthError>) {
        let mut i: usize = 0;
        while i < self.users.len()
            invariant
                i <= self.users@.len(),
                authenticate_from(self@.0, 0, username@, password@) == authenticate_from(
                    self@.0,
                    i as int,
                    username@,
                    password@,
                ),
            decreases self.users@.len() - i,
        {
            let u = &self.users[i];
            if str_eq(u.0.as_str(), username) {
                if str_eq(u.1.as_str(), password) {
                    return Ok(u.2);
                } else {
                    return Err(AuthError::InvalidCredentials);
                }
            }
            i = i + 1;
        }
        Err(AuthError::UserNotFound)
    }

    fn logout(&mut self, uid: u32) -> (r: Result<(), AuthError>) {
        if self.has_user(uid) {
            self.active_sessions.remove(&uid);
            Ok(())
        } else {
            Err(AuthError::UserNotFound)
        }
    }

    fn is_admin(&self, uid: u32) -> (r: bool) {
        let mut i: usize = 0;
        while i < self.users.len()
            invariant
                i <= self.users@.len(),
                admin_from(self@.0, 0, uid) == admin_from(self@.0, i as int, uid),
            decreases self.users@.len() - i,
        {
            if self.users[i].2 == uid {
                return self.users[i].3;
            }
            i = i + 1;
        }
        false
    }
}

proof fn lemma_authenticated_uid_known(
    users: Seq<UserRecord>,
    i: int,
    username: Seq<char>,
    password: Seq<char>,
    uid: u32,
)
    requires
        0 <= i,
        authenticate_from(users, i, username, password) == Ok::<u32, AuthError>(uid),
    ensures
        has_uid(users, uid),
    decreases users.len() - i,
{
    if i < users.len() {
        if users[i].0 == username {
            assert(users[i].2 == uid);
        } else {
            lemma_authenticated_uid_known(users, i + 1, username, password, uid);
        }
    }
}

/// The uid that a successful login hands out belongs to a user, so logging
/// it out succeeds; and logging out changes neither whose credentials are
/// accepted nor who is an administrator.
pub proof fn law_login_then_logout(
    m: (Seq<UserRecord>, Set<u32>),
    username: Seq<char>,
    password: Seq<char>,
    uid: u32,
    other_user: Seq<char>,
    other_password: Seq<char>,
    other_uid: u32,
)
    requires
        LocalAuthAdapter::authenticate_spec(m, username, password) == Ok::<u32, AuthError>(uid),
    ensures
        LocalAuthAdapter::logout_spec(m, uid).1 == Ok::<(), AuthError>(()),
        LocalAuthAdapter::authenticate_spec(
            LocalAuthAdapter::logout_spec(m, uid).0,
            other_user,
            other_password,
        ) == LocalAuthAdapter::authenticate_spec(m, other_user, other_password),
        LocalAuthAdapter::is_admin_spec(LocalAuthAdapter::logout_spec(m, uid).0, other_uid)
            == LocalAuthAdapter::is_admin_spec(m, other_uid),
{
    lemma_authenticated_uid_known(m.0, 0, username, password, uid);
}

} // verus!
