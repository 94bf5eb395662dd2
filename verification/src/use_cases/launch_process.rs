use vstd::prelude::*;
use crate::ports::process_mgr::{ProcessError, ProcessManagerPort};

verus! {

/// Use-case: spawn a new process through the process-manager port.
pub struct LaunchProcess<P: ProcessManagerPort> {
    manager: P,
}

impl<P: ProcessManagerPort> LaunchProcess<P> {
    /// The process-manager adapter this use-case drives.
    pub closed spec fn port(&self) -> P {
        self.manager
    }

    pub fn new(manager: P) -> (r: Self)
        ensures
            r.port() == manager,
    {
        LaunchProcess { manager }
    }

    /// Execute the use-case: request the manager to spawn a process with the
    /// given `name` and `priority`. Returns the new PID on success. An empty
    /// name is refused before the adapter is asked.
    pub fn execute(&mut self, name: &str, priority: u8) -> (r: Result<u32, ProcessError>)
        requires
            name@.len() > 0 ==> P::spawn_ready(old(self).port()@),
        ensures
            name@.len() == 0 ==> r == Err::<u32, ProcessError>(ProcessError::PermissionDenied)
                && final(self).port() == old(self).port(),
            name@.len() > 0 ==> (final(self).port()@, r) == P::spawn_spec(
                old(self).port()@,
                name@,
                priority,
            ),
    {
        if name.is_empty() {
            return Err(ProcessError::PermissionDenied);
        }
        self.manager.spawn(name, priority)
    }

    /// Expose the inner manager (useful for chaining use-cases).
    pub fn manager(&self) -> (r: &P)
        ensures
            *r == self.port(),
    {
        &self.manager
    }

    pub fn manager_mut(&mut self) -> (r: &mut P)
        ensures
            *r == old(self).port(),
            final(self).port() == *final(r),
    {
        &mut self.manager
    }
}

} // verus!
