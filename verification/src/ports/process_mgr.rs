use vstd::prelude::*;

verus! {

/// Errors returned by process-management operations.
#[derive(Debug, Clone, Copy, PartialEq, Eq, Structural)]
pub enum ProcessError {
    NotFound,
    PermissionDenied,
    ResourceExhausted,
}

impl ProcessError {
    /// The variant's name, as `{:?}` prints it.
    pub open spec fn spec_debug_name(self) -> Seq<char> {
        match self {
            ProcessError::NotFound => "NotFound"@,
            ProcessError::PermissionDenied => "PermissionDenied"@,
            ProcessError::ResourceExhausted => "ResourceExhausted"@,
        }
    }

    /// The variant's name, as `{:?}` prints it.
    pub fn debug_name(&self) -> (s: &'static str)
        ensures
            s@ == self.spec_debug_name(),
    {
        match self {
            ProcessError::NotFound => "NotFound",
            ProcessError::PermissionDenied => "PermissionDenied",
            ProcessError::ResourceExhausted => "ResourceExhausted",
        }
    }
}

/// The (pid, name) pairs of a process listing, names as characters.
pub open spec fn process_list_view(v: Vec<(u32, String)>) -> Seq<(u32, Seq<char>)> {
    v@.map_values(|e: (u32, String)| (e.0, e.1@))
}

/// Port (trait) that abstracts process lifecycle management.
///
/// An adapter's abstract state is its view; the spec functions say what each
/// operation answers, and to which state it moves, as functions of that view.
pub trait ProcessManagerPort: View + Sized {
    /// Whether `spawn` can run in state `m` (an adapter that counts PIDs
    /// cannot hand out one past its counter's range).
    spec fn spawn_ready(m: Self::V) -> bool;

    spec fn spawn_spec(m: Self::V, name: Seq<char>, priority: u8) -> (Self::V, Result<u32, ProcessError>);

    spec fn kill_spec(m: Self::V, pid: u32) -> (Self::V, Result<(), ProcessError>);

    spec fn list_processes_spec(m: Self::V) -> Seq<(u32, Seq<char>)>;

    /// Whether `spawn` can run now.
    fn can_spawn(&self) -> (r: bool)
        ensures
            r == Self::spawn_ready(self@),
    ;

    /// Spawn a new process with the given `name` and scheduling `priority`.
    /// Returns the assigned PID on success.
    fn spawn(&mut self, name: &str, priority: u8) -> (r: Result<u32, ProcessError>)
        requires
            Self::spawn_ready(old(self)@),
        ensures
            (final(self)@, r) == Self::spawn_spec(old(self)@, name@, priority),
    ;

    /// Terminate the process identified by `pid`.
    fn kill(&mut self, pid: u32) -> (r: Result<(), ProcessError>)
        ensures
            (final(self)@, r) == Self::kill_spec(old(self)@, pid),
    ;

    /// Return a snapshot of all running processes as (pid, name) pairs.
    fn list_processes(&self) -> (r: Vec<(u32, String)>)
        ensures
            process_list_view(r) == Self::list_processes_spec(self@),
    ;
}

} // verus!
