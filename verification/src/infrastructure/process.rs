use vstd::prelude::*;
use vstd::string::*;
use vstd::utf8::*;
use crate::domain::process::{Process, ProcessState};
use crate::ports::process_mgr::{process_list_view, ProcessError, ProcessManagerPort};
use crate::text::{buffer_text_chars, padded_prefix};

verus! {

/// A process as the scheduler sees it: (pid, name buffer, state, priority).
pub type ProcView = (u32, Seq<u8>, ProcessState, u8);

pub open spec fn proc_view(p: Process) -> ProcView {
    (p.pid, p.name@, p.state, p.priority)
}

/// Most processes the scheduler holds at once.
pub open spec fn max_processes() -> int {
    1024
}

/// The processes of `s` whose pid is not `pid`, in their order.
pub open spec fn without_pid(s: Seq<ProcView>, pid: u32) -> Seq<ProcView>
    decreases s.len(),
{
    if s.len() == 0 {
        Seq::empty()
    } else {
        let r = without_pid(s.drop_last(), pid);
        if s.last().0 == pid {
            r
        } else {
            r.push(s.last())
        }
    }
}

/// Whether some process of `s` has pid `pid`.
pub open spec fn has_pid(s: Seq<ProcView>, pid: u32) -> bool {
    exists|i: int| 0 <= i < s.len() && #[trigger] s[i].0 == pid
}

/// Simple round-robin-capable scheduler backed by a Vec of processes.
pub struct SchedulerAdapter {
    processes: Vec<Process>,
    next_pid: u32,
}

impl View for SchedulerAdapter {
    /// The processes in spawn order, and the next pid to hand out.
    type V = (Seq<ProcView>, u32);

    closed spec fn view(&self) -> (Seq<ProcView>, u32) {
        (self.processes@.map_values(|p: Process| proc_view(p)), self.next_pid)
    }
}

impl SchedulerAdapter {
    pub fn new() -> (r: Self)
        ensures
            r@ == (Seq::<ProcView>::empty(), 1u32),
    {
        let r = SchedulerAdapter { processes: Vec::new(), next_pid: 1 };
        assert(r@.0 =~= Seq::<ProcView>::empty());
        r
    }

    /// Return a reference to the process list (useful for inspection).
    pub fn processes(&self) -> (r: &[Process])
        ensures
            r@.map_values(|p: Process| proc_view(p)) == self@.0,
    {
        self.processes.as_slice()
    }
}

impl Default for SchedulerAdapter {
    fn default() -> (r: Self)
        ensures
            r@ == (Seq::<ProcView>::empty(), 1u32),
    {
        Self::new()
    }
}

impl ProcessManagerPort for SchedulerAdapter {
    open spec fn spawn_ready(m: Self::V) -> bool {
        m.0.len() >= max_processes() || m.1 < u32::MAX
    }

    open spec fn spawn_spec(m: Self::V, name: Seq<char>, priority: u8) -> (Self::V, Result<u32, ProcessError>) {
        if m.0.len() >= max_processes() {
            (m, Err(ProcessError::ResourceExhausted))
        } else {
            (
                (
                    m.0.push(
                        (m.1, padded_prefix(encode_utf8(name), 63, 64), ProcessState::Running, priority),
                    ),
                    (m.1 + 1) as u32,
                ),
                Ok(m.1),
            )
        }
    }

    open spec fn kill_spec(m: Self::V, pid: u32) -> (Self::V, Result<(), ProcessError>) {
        if has_pid(m.0, pid) {
            ((without_pid(m.0, pid), m.1), Ok(()))
        } else {
            (m, Err(ProcessError::NotFound))
        }
    }

    open spec fn list_processes_spec(m: Self::V) -> Seq<(u32, Seq<char>)> {
        m.0.map_values(|p: ProcView| (p.0, buffer_text_chars(p.1)))
    }

    fn can_spawn(&self) -> (r: bool) {
        self.processes.len() >= 1024 || self.next_pid < u32::MAX
    }

    fn spawn(&mut self, name: &str, priority: u8) -> (r: Result<u32, ProcessError>) {
        if self.processes.len() >= 1024 {
            return Err(ProcessError::ResourceExhausted);
        }
        let pid = self.next_pid;
        self.next_pid = self.next_pid + 1;
        let ghost old_procs = self.processes@;
        self.processes.push(Process::new(pid, name, priority));
        assert(self@.0 =~= old_procs.map_values(|p: Process| proc_view(p)).push(
            (pid, padded_prefix(encode_utf8(name@), 63, 64), ProcessState::Running, priority),
        ));
        Ok(pid)
    }

    fn kill(&mut self, pid: u32) -> (r: Result<(), ProcessError>) {
        let ghost s = self@.0;
        let mut found = false;
        let mut kept: Vec<Process> = Vec::new();
        let mut i: usize = 0;
        while i < self.processes.len()
            invariant
                s == self@.0,
                i <= s.len(),
                kept@.map_values(|p: Process| proc_view(p)) == without_pid(s.take(i as int), pid),
                found == has_pid(s.take(i as int), pid),
            decreases s.len() - i,
        {
            let ghost before = kept@;
            assert(s.take(i + 1).drop_last() =~= s.take(i as int));
            if self.processes[i].pid == pid {
                found = true;
                assert(s.take(i + 1)[i as int].0 == pid);
            } else {
                kept.push(self.processes[i].clone_process());
                assert(kept@.map_values(|p: Process| proc_view(p)) =~= before.map_values(
                    |p: Process| proc_view(p),
                ).push(s[i as int]));
                assert forall|j: int|
                    0 <= j < i + 1 && #[trigger] s.take(i + 1)[j].0 == pid implies s.take(
                    i as int,
                )[j].0 == pid by {}
            }
            assert(found == has_pid(s.take(i + 1), pid)) by {
                if has_pid(s.take(i as int), pid) {
                    let j = choose|j: int| 0 <= j < i && #[trigger] s.take(i as int)[j].0 == pid;
                    assert(s.take(i + 1)[j].0 == pid);
                }
            }
            i = i + 1;
        }
        assert(s.take(s.len() as int) =~= s);
        if found {
            // The killed process is removed right away.
            self.processes = kept;
            Ok(())
        } else {
            Err(ProcessError::NotFound)
        }
    }

    fn list_processes(&self) -> (r: Vec<(u32, String)>) {
        let mut out: Vec<(u32, String)> = Vec::new();
        let mut i: usize = 0;
        while i < self.processes.len()
            invariant
                i <= self.processes@.len(),
                process_list_view(out) =~= Self::list_processes_spec(self@).take(i as int),
            decreases self.processes@.len() - i,
        {
            let p = &self.processes[i];
            let ghost before = out@;
            out.push((p.pid, String::from_str(p.name_str())));
            proof {
                let spec = Self::list_processes_spec(self@);
                assert(self@.0[i as int] == proc_view(*p));
                assert(spec[i as int] == (p.pid, buffer_text_chars(p.name@)));
                assert(spec.take(i + 1) =~= spec.take(i as int).push(spec[i as int]));
                assert(out@ =~= before.push(out@[i as int]));
            }
            i = i + 1;
        }
        out
    }
}


/// Every pid of `s` is below `next`, and no two processes share a pid.
pub open spec fn pids_fresh(s: Seq<ProcView>, next: u32) -> bool {
    &&& forall|i: int| 0 <= i < s.len() ==> #[trigger] s[i].0 < next
    &&& forall|i: int, j: int| 0 <= i < j < s.len() ==> #[trigger] s[i].0 != #[trigger] s[j].0
}

/// A spawn that succeeds hands out a pid that no process has, and keeps the
/// pids distinct and below the counter.
pub proof fn law_spawn_gives_fresh_pid(m: (Seq<ProcView>, u32), name: Seq<char>, priority: u8)
    requires
        pids_fresh(m.0, m.1),
        SchedulerAdapter::spawn_ready(m),
    ensures
        SchedulerAdapter::spawn_spec(m, name, priority).1 matches Ok(pid) ==> !has_pid(m.0, pid),
        pids_fresh(
            SchedulerAdapter::spawn_spec(m, name, priority).0.0,
            SchedulerAdapter::spawn_spec(m, name, priority).0.1,
        ),
{
    if m.0.len() < max_processes() {
        let s2 = SchedulerAdapter::spawn_spec(m, name, priority).0.0;
        assert forall|i: int, j: int| 0 <= i < j < s2.len() implies #[trigger] s2[i].0
            != #[trigger] s2[j].0 by {
            if j == s2.len() - 1 {
                assert(s2[i].0 == m.0[i].0);
            } else {
                assert(s2[i] == m.0[i] && s2[j] == m.0[j]);
            }
        }
        assert forall|i: int| 0 <= i < s2.len() implies #[trigger] s2[i].0 < (m.1 + 1) as u32 by {
            if i < m.0.len() {
                assert(s2[i] == m.0[i]);
            }
        }
    }
}

/// After a kill, no process with that pid is left, and the others stay.
pub proof fn law_kill_removes(s: Seq<ProcView>, pid: u32)
    ensures
        !has_pid(without_pid(s, pid), pid),
        forall|p: ProcView| p.0 != pid ==> (#[trigger] without_pid(s, pid).contains(p) <==> s.contains(p)),
    decreases s.len(),
{
    if s.len() > 0 {
        law_kill_removes(s.drop_last(), pid);
        let r = without_pid(s.drop_last(), pid);
        let w = without_pid(s, pid);
        assert forall|p: ProcView| p.0 != pid implies (#[trigger] w.contains(p) <==> s.contains(p)) by {
            if w.contains(p) {
                let k = choose|k: int| 0 <= k < w.len() && w[k] == p;
                if k < r.len() {
                    assert(r[k] == p);
                    assert(r.contains(p));
                    let q = choose|q: int| 0 <= q < s.drop_last().len() && s.drop_last()[q] == p;
                    assert(s[q] == p);
                } else {
                    assert(s[s.len() - 1] == p);
                }
            }
            if s.contains(p) {
                let k = choose|k: int| 0 <= k < s.len() && s[k] == p;
                if k < s.len() - 1 {
                    assert(s.drop_last()[k] == p);
                    assert(s.drop_last().contains(p));
                    assert(r.contains(p) <==> s.drop_last().contains(p));
                    assert(r.contains(p));
                    let q = choose|q: int| 0 <= q < r.len() && r[q] == p;
                    assert(w[q] == p);
                } else {
                    assert(w[w.len() - 1] == p);
                }
            }
        }
        if has_pid(w, pid) {
            let k = choose|k: int| 0 <= k < w.len() && #[trigger] w[k].0 == pid;
            if k < r.len() {
                assert(r[k].0 == pid);
            }
        }
    } else {
        assert forall|p: ProcView| p.0 != pid implies (#[trigger] without_pid(s, pid).contains(p)
            <==> s.contains(p)) by {}
    }
}

proof fn lemma_without_absent(s: Seq<ProcView>, pid: u32)
    requires
        !has_pid(s, pid),
    ensures
        without_pid(s, pid) == s,
    decreases s.len(),
{
    if s.len() > 0 {
        assert(s.last() == s[s.len() - 1]);
        assert(!has_pid(s.drop_last(), pid)) by {
            if has_pid(s.drop_last(), pid) {
                let k = choose|k: int| 0 <= k < s.drop_last().len() && #[trigger] s.drop_last()[k].0 == pid;
                assert(s[k].0 == pid);
            }
        }
        lemma_without_absent(s.drop_last(), pid);
        assert(s.drop_last().push(s.last()) =~= s);
    }
}

/// Killing the process that a spawn just started gives back the processes
/// from before the spawn (the pid counter stays advanced).
pub proof fn law_kill_undoes_spawn(m: (Seq<ProcView>, u32), name: Seq<char>, priority: u8)
    requires
        pids_fresh(m.0, m.1),
        SchedulerAdapter::spawn_ready(m),
        m.0.len() < max_processes(),
    ensures
        SchedulerAdapter::spawn_spec(m, name, priority).1 == Ok::<u32, ProcessError>(m.1),
        SchedulerAdapter::kill_spec(SchedulerAdapter::spawn_spec(m, name, priority).0, m.1) == (
            (m.0, (m.1 + 1) as u32),
            Ok::<(), ProcessError>(()),
        ),
{
    let s2 = SchedulerAdapter::spawn_spec(m, name, priority).0.0;
    assert(s2[s2.len() - 1].0 == m.1);
    assert(has_pid(s2, m.1));
    assert(!has_pid(m.0, m.1));
    lemma_without_absent(m.0, m.1);
    assert(s2.drop_last() =~= m.0);
}

} // verus!
