use vstd::prelude::*;
use vstd::string::*;
use vstd::utf8::*;
use crate::text::{buffer_text, buffer_text_bytes, buffer_text_chars, name_buffer, padded_prefix};

verus! {

/// Represents the execution state of a process.
#[derive(Debug, Clone, Copy, PartialEq, Eq, Structural)]
pub enum ProcessState {
    Running,
    Sleeping,
    Stopped,
    Zombie,
}

/// A kernel process entity with a fixed-size name buffer.
#[derive(Debug, Clone)]
pub struct Process {
    pub pid: u32,
    /// Process name stored as UTF-8 bytes in a fixed 64-byte array.
    pub name: [u8; 64],
    pub state: ProcessState,
    /// Scheduling priority, 0 = lowest, 255 = highest.
    pub priority: u8,
}

impl Process {
    /// Create a new process. `name_str` is truncated to 63 bytes if longer.
    pub fn new(pid: u32, name_str: &str, priority: u8) -> (r: Self)
        ensures
            r.pid == pid,
            r.name@ == padded_prefix(name_str.spec_bytes(), 63, 64),
            r.state == ProcessState::Running,
            r.priority == priority,
    {
        let name = name_buffer::<64>(name_str);
        Process { pid, name, state: ProcessState::Running, priority }
    }

    /// A copy of this process, field by field.
    pub fn clone_process(&self) -> (r: Self)
        ensures
            r.pid == self.pid,
            r.name@ == self.name@,
            r.state == self.state,
            r.priority == self.priority,
    {
        Process { pid: self.pid, name: self.name, state: self.state, priority: self.priority }
    }

    /// Returns the process name as a string slice (trimming trailing nulls).
    pub fn name_str(&self) -> (r: &str)
        ensures
            valid_utf8(buffer_text_bytes(self.name@)) ==> r.spec_bytes() == buffer_text_bytes(
                self.name@,
            ),
            !valid_utf8(buffer_text_bytes(self.name@)) ==> r@ == "<invalid>"@,
            r@ == buffer_text_chars(self.name@),
    {
        buffer_text(&self.name)
    }
}

} // verus!
