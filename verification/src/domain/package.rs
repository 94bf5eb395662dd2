use vstd::prelude::*;
use vstd::string::*;
use vstd::utf8::*;
use crate::text::{buffer_text, buffer_text_bytes, buffer_text_chars, name_buffer, padded_prefix};

verus! {

/// Lifecycle state of a package installation.
#[derive(Debug, Clone, Copy, PartialEq, Eq, Structural)]
pub enum InstallState {
    Pending,
    Installing,
    Installed,
    Failed,
    RolledBack,
}

/// A software package with cryptographic signing metadata.
#[derive(Debug, Clone)]
pub struct Package {
    /// Package name stored as UTF-8 bytes in a fixed 64-byte array.
    pub name: [u8; 64],
    /// Semver-like version string in a fixed 16-byte array.
    pub version: [u8; 16],
    /// Whether the package carries a valid digital signature.
    pub signed: bool,
    pub state: InstallState,
}

impl Package {
    /// Create a new package entry. Names/versions are truncated to fit.
    pub fn new(name_str: &str, version_str: &str, signed: bool) -> (r: Self)
        ensures
            r.name@ == padded_prefix(name_str.spec_bytes(), 63, 64),
            r.version@ == padded_prefix(version_str.spec_bytes(), 15, 16),
            r.signed == signed,
            r.state == InstallState::Pending,
    {
        let name = name_buffer::<64>(name_str);
        let version = name_buffer::<16>(version_str);
        Package { name, version, signed, state: InstallState::Pending }
    }

    /// A copy of this package, field by field.
    pub fn clone_package(&self) -> (r: Self)
        ensures
            r.name@ == self.name@,
            r.version@ == self.version@,
            r.signed == self.signed,
            r.state == self.state,
    {
        Package { name: self.name, version: self.version, signed: self.signed, state: self.state }
    }

    /// Returns the package name as a string slice.
    pub fn name_str(&self) -> (r: &str)
        ensures
            valid_utf8(buffer_text_bytes(self.name@)) ==> r.spec_bytes() == buffer_text_bytes(
                self.name@,
            ),
            !valid_utf8(buffer_text_bytes(self.name@)) ==> r@ == "<invalid>"@,
            r@ == buffer_text_chars(self.name@),
    {
        buffer_text(&self.name)
    }

    /// Returns the version string.
    pub fn version_str(&self) -> (r: &str)
        ensures
            valid_utf8(buffer_text_bytes(self.version@)) ==> r.spec_bytes() == buffer_text_bytes(
                self.version@,
            ),
            !valid_utf8(buffer_text_bytes(self.version@)) ==> r@ == "<invalid>"@,
            r@ == buffer_text_chars(self.version@),
    {
        buffer_text(&self.version)
    }
}

} // verus!
