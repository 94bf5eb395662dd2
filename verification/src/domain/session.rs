use vstd::prelude::*;
use vstd::string::*;
use vstd::utf8::*;
use crate::text::{buffer_text, buffer_text_bytes, buffer_text_chars, name_buffer, padded_prefix};

verus! {

/// Role assigned to a user, controlling privilege level.
#[derive(Debug, Clone, Copy, PartialEq, Eq, Structural)]
pub enum Role {
    Admin,
    User,
    Guest,
}

/// A system user with a fixed-size name buffer.
#[derive(Debug, Clone)]
pub struct User {
    pub uid: u32,
    /// Username stored as UTF-8 bytes in a fixed 32-byte array.
    pub name: [u8; 32],
    pub role: Role,
}

impl User {
    /// Create a new user. `name_str` is truncated to 31 bytes if longer.
    pub fn new(uid: u32, name_str: &str, role: Role) -> (r: Self)
        ensures
            r.uid == uid,
            r.name@ == padded_prefix(name_str.spec_bytes(), 31, 32),
            r.role == role,
    {
        let name = name_buffer::<32>(name_str);
        User { uid, name, role }
    }

    /// Returns the username as a string slice (trimming trailing nulls).
    pub fn name_str(&self) -> (r: &str)
        ensures
            valid_utf8(buffer_text_bytes(self.name@)) ==> r.spec_bytes() == buffer_text_bytes(
                self.name@,
            ),
            !valid_utf8(buffer_text_bytes(self.name@)) ==> r@ == "<invalid>"@,
            r@ == buffer_text_chars(self.name@),
    {
        buffer_text(&self.name)
    }
}

/// An active login session associated with a user.
#[derive(Debug, Clone)]
pub struct Session {
    pub user: User,
    pub active: bool,
    /// Session lifetime in seconds; 0 means no expiry.
    pub timeout_secs: u64,
}

impl Session {
    pub fn new(user: User, timeout_secs: u64) -> (r: Self)
        ensures
            r.user == user,
            r.active,
            r.timeout_secs == timeout_secs,
    {
        Session { user, active: true, timeout_secs }
    }

    pub fn invalidate(&mut self)
        ensures
            !final(self).active,
            final(self).user == old(self).user,
            final(self).timeout_secs == old(self).timeout_secs,
    {
        self.active = false;
    }
}

} // verus!
