use vstd::prelude::*;
use crate::ports::package_mgr::{PackageManagerPort, PkgError};

verus! {

/// Use-case: install a named package through the package-manager port.
pub struct InstallPackage<M: PackageManagerPort> {
    manager: M,
}

impl<M: PackageManagerPort> InstallPackage<M> {
    /// The package-manager adapter this use-case drives.
    pub closed spec fn port(&self) -> M {
        self.manager
    }

    pub fn new(manager: M) -> (r: Self)
        ensures
            r.port() == manager,
    {
        InstallPackage { manager }
    }

    /// Install the package `pkg_name`. An empty name is refused before the
    /// adapter is asked. There is no hardened mode here that checks package
    /// signatures: whether an unsigned package is refused is up to the
    /// adapter, and the local adapter marks every package it installs as
    /// signed.
    pub fn execute(&mut self, pkg_name: &str) -> (r: Result<(), PkgError>)
        ensures
            pkg_name@.len() == 0 ==> r == Err::<(), PkgError>(PkgError::NotFound)
                && final(self).port() == old(self).port(),
            pkg_name@.len() > 0 ==> (final(self).port()@, r) == M::install_spec(
                old(self).port()@,
                pkg_name@,
            ),
    {
        if pkg_name.is_empty() {
            return Err(PkgError::NotFound);
        }
        self.manager.install(pkg_name)
    }

    pub fn manager(&self) -> (r: &M)
        ensures
            *r == self.port(),
    {
        &self.manager
    }

    pub fn manager_mut(&mut self) -> (r: &mut M)
        ensures
            *r == old(self).port(),
            final(self).port() == *final(r),
    {
        &mut self.manager
    }
}

} // verus!
