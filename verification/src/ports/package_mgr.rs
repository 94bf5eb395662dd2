use vstd::prelude::*;
use crate::ports::filesystem::names_view;

verus! {

/// Errors returned by package-management operations.
#[derive(Debug, Clone, Copy, PartialEq, Eq, Structural)]
pub enum PkgError {
    NotFound,
    SignatureInvalid,
    DependencyConflict,
    RollbackFailed,
}

impl PkgError {
    /// The variant's name, as `{:?}` prints it.
    pub open spec fn spec_debug_name(self) -> Seq<char> {
        match self {
            PkgError::NotFound => "NotFound"@,
            PkgError::SignatureInvalid => "SignatureInvalid"@,
            PkgError::DependencyConflict => "DependencyConflict"@,
            PkgError::RollbackFailed => "RollbackFailed"@,
        }
    }

    /// The variant's name, as `{:?}` prints it.
    pub fn debug_name(&self) -> (s: &'static str)
        ensures
            s@ == self.spec_debug_name(),
    {
        match self {
            PkgError::NotFound => "NotFound",
            PkgError::SignatureInvalid => "SignatureInvalid",
            PkgError::DependencyConflict => "DependencyConflict",
            PkgError::RollbackFailed => "RollbackFailed",
        }
    }
}

/// Port (trait) that abstracts software package management.
///
/// An adapter's abstract state is its view; the spec functions say what each
/// operation answers, and to which state it moves, as functions of that view.
pub trait PackageManagerPort: View + Sized {
    spec fn install_spec(m: Self::V, pkg: Seq<char>) -> (Self::V, Result<(), PkgError>);

    spec fn remove_spec(m: Self::V, pkg: Seq<char>) -> (Self::V, Result<(), PkgError>);

    spec fn list_installed_spec(m: Self::V) -> Seq<Seq<char>>;

    spec fn update_all_spec(m: Self::V) -> (Self::V, Result<(), PkgError>);

    /// Install the package identified by `pkg` name.
    fn install(&mut self, pkg: &str) -> (r: Result<(), PkgError>)
        ensures
            (final(self)@, r) == Self::install_spec(old(self)@, pkg@),
    ;

    /// Remove a previously installed package.
    fn remove(&mut self, pkg: &str) -> (r: Result<(), PkgError>)
        ensures
            (final(self)@, r) == Self::remove_spec(old(self)@, pkg@),
    ;

    /// Return the names of all currently installed packages.
    fn list_installed(&self) -> (r: Vec<String>)
        ensures
            names_view(r) == Self::list_installed_spec(self@),
    ;

    /// Update all installed packages to the latest available version.
    fn update_all(&mut self) -> (r: Result<(), PkgError>)
        ensures
            (final(self)@, r) == Self::update_all_spec(old(self)@),
    ;
}

} // verus!
