use vstd::prelude::*;
use vstd::string::*;
use crate::fmt::{decimal, parse_u32, parse_u32_spec, push_decimal, trim, trimmed};
use crate::infrastructure::process::SchedulerAdapter;
use crate::ports::process_mgr::ProcessManagerPort;

verus! {

/// The process panel's form: a name and priority to launch, a pid to kill,
/// and the status line of the last action.
pub struct ProcessMonitor {
    pub new_proc_name: String,
    pub new_proc_priority: u8,
    pub status: String,
    pub kill_input: String,
}

impl ProcessMonitor {
    pub fn new() -> (r: Self)
        ensures
            r.new_proc_name@ == Seq::<char>::empty(),
            r.new_proc_priority == 5,
            r.status@ == Seq::<char>::empty(),
            r.kill_input@ == Seq::<char>::empty(),
    {
        ProcessMonitor {
            new_proc_name: String::new(),
            new_proc_priority: 5,
            status: String::new(),
            kill_input: String::new(),
        }
    }

    /// The Run button: launch a process with the typed name and priority,
    /// report it in the status line and clear the name. Nothing happens
    /// while the name is empty.
    pub fn run_process(&mut self, proc_mgr: &mut SchedulerAdapter)
        requires
            old(self).new_proc_name@.len() > 0 ==> SchedulerAdapter::spawn_ready(old(proc_mgr)@),
        ensures
            old(self).new_proc_name@.len() == 0 ==> *final(self) == *old(self) && final(proc_mgr)@
                == old(proc_mgr)@,
            old(self).new_proc_name@.len() > 0 ==> {
                let k = SchedulerAdapter::spawn_spec(
                    old(proc_mgr)@,
                    old(self).new_proc_name@,
                    old(self).new_proc_priority,
                );
                &&& final(proc_mgr)@ == k.0
                &&& final(self).status@ == match k.1 {
                    Ok(pid) => "Launched '"@ + old(self).new_proc_name@ + "' -> PID "@ + decimal(
                        pid as nat,
                    ),
                    Err(e) => "Error: "@ + e.spec_debug_name(),
                }
                &&& final(self).new_proc_name@ == Seq::<char>::empty()
                &&& final(self).new_proc_priority == old(self).new_proc_priority
                &&& final(self).kill_input == old(self).kill_input
            },
    {
        if self.new_proc_name.as_str().is_empty() {
            return;
        }
        let priority = self.new_proc_priority;
        match proc_mgr.spawn(self.new_proc_name.as_str(), priority) {
            Ok(pid) => {
                let mut s = String::from_str("Launched '");
                s.append(self.new_proc_name.as_str());
                s.append("' -> PID ");
                push_decimal(&mut s, pid as u64);
                self.status = s;
            },
            Err(e) => {
                let mut s = String::from_str("Error: ");
                s.append(e.debug_name());
                self.status = s;
            },
        }
        self.new_proc_name = String::new();
    }

    /// The Kill button: kill the process whose pid is typed (surrounding
    /// whitespace ignored), report it in the status line and clear the input.
    pub fn kill_process(&mut self, proc_mgr: &mut SchedulerAdapter)
        ensures
            match parse_u32_spec(trimmed(old(self).kill_input@)) {
                Some(pid) => {
                    let k = SchedulerAdapter::kill_spec(old(proc_mgr)@, pid);
                    &&& final(proc_mgr)@ == k.0
                    &&& final(self).status@ == match k.1 {
                        Ok(_) => "Killed PID "@ + decimal(pid as nat),
                        Err(e) => "Error: "@ + e.spec_debug_name(),
                    }
                },
                None => final(proc_mgr)@ == old(proc_mgr)@ && final(self).status@ == "Invalid PID"@,
            },
            final(self).kill_input@ == Seq::<char>::empty(),
            final(self).new_proc_name == old(self).new_proc_name,
            final(self).new_proc_priority == old(self).new_proc_priority,
    {
        match parse_u32(trim(self.kill_input.as_str())) {
            Some(pid) => match proc_mgr.kill(pid) {
                Ok(()) => {
                    let mut s = String::from_str("Killed PID ");
                    push_decimal(&mut s, pid as u64);
                    self.status = s;
                },
                Err(e) => {
                    let mut s = String::from_str("Error: ");
                    s.append(e.debug_name());
                    self.status = s;
                },
            },
            None => {
                self.status = String::from_str("Invalid PID");
            },
        }
        self.kill_input = String::new();
    }
}

} // verus!
