//! The processes that are known, and which of them are still there.
use std::collections::HashMap;
use vstd::prelude::*;
use vstd::std_specs::hash::spec_keys_iter;
use vstd::std_specs::iter::IteratorSpec;

verus! {

broadcast use vstd::std_specs::hash::group_hash_axioms;

/// The number that the kernel knows a process by.
pub type Pid = i32;

/// A process. `T` is what its reader keeps of it.
#[derive(Debug)]
pub struct Process<T> {
    /// Set by the reader when it comes upon the process, and taken back once the
    /// processes that it did not come upon have been dropped.
    pub updated: bool,
    pub data: T,
}

impl<T> Process<T> {
    /// The same process, waiting for the next reading.
    pub open spec fn settled(self) -> Process<T> {
        Process { updated: false, ..self }
    }
}

/// What is left of the processes after a reading: those that it came upon, each
/// waiting for the next one.
pub open spec fn survivors<T>(tasks: Map<Pid, Process<T>>) -> Map<Pid, Process<T>> {
    Map::new(
        |pid: Pid| tasks.contains_key(pid) && tasks[pid].updated,
        |pid: Pid| tasks[pid].settled(),
    )
}

/// Every process that is left waits for the next reading.
pub proof fn law_survivors_wait<T>(tasks: Map<Pid, Process<T>>, pid: Pid)
    requires
        survivors(tasks).contains_key(pid),
    ensures
        !survivors(tasks)[pid].updated,
        survivors(tasks)[pid].data == tasks[pid].data,
{
}

/// The processes that are left are those that the reading came upon, every one of them
/// whatever its number, and no other.
pub proof fn law_read_processes_stay<T>(tasks: Map<Pid, Process<T>>, pid: Pid)
    ensures
        tasks.contains_key(pid) && tasks[pid].updated ==> survivors(tasks).contains_key(pid),
        survivors(tasks).contains_key(pid) ==> tasks.contains_key(pid) && tasks[pid].updated,
        survivors(tasks).contains_key(pid) ==> survivors(tasks)[pid] == (Process {
            updated: false,
            data: tasks[pid].data,
        }),
{
}

/// A process is dropped or kept on its own account: the others do not matter.
pub proof fn law_each_process_stands_alone<T>(
    tasks: Map<Pid, Process<T>>,
    others: Map<Pid, Process<T>>,
    pid: Pid,
)
    requires
        tasks.contains_key(pid) == others.contains_key(pid),
        tasks.contains_key(pid) ==> tasks[pid] == others[pid],
    ensures
        survivors(tasks).contains_key(pid) == survivors(others).contains_key(pid),
        survivors(tasks).contains_key(pid) ==> survivors(tasks)[pid] == survivors(others)[pid],
{
}

/// A process that the next reading does not come upon is gone after it.
pub proof fn law_unread_processes_go<T>(tasks: Map<Pid, Process<T>>)
    ensures
        survivors(survivors(tasks)) == Map::<Pid, Process<T>>::empty(),
{
    assert(survivors(survivors(tasks)) =~= Map::<Pid, Process<T>>::empty());
}

/// The processes, by their number.
#[derive(Debug)]
pub struct ProcessList<T> {
    pub tasks: HashMap<Pid, Process<T>>,
}

impl<T> ProcessList<T> {
    /// No process.
    pub fn new() -> (r: ProcessList<T>)
        ensures
            r.tasks@ == Map::<Pid, Process<T>>::empty(),
    {
        ProcessList { tasks: HashMap::new() }
    }

    /// The numbers of the processes.
    fn pids(&self) -> (r: Vec<Pid>)
        ensures
            forall|pid: Pid| r@.contains(pid) <==> self.tasks@.contains_key(pid),
    {
        let mut r: Vec<Pid> = Vec::new();
        let ghost keys = spec_keys_iter(&self.tasks).remaining().unref();
        for pid in it: self.tasks.keys()
            invariant
                it.seq().unref() == keys,
                r@ == keys.take(it.index()),
        {
            r.push(*pid);
            assert(keys.take(it.index() + 1) =~= keys.take(it.index()).push(*pid));
        }
        proof {
            assert(r@ =~= keys);
            assert forall|pid: Pid| r@.contains(pid) <==> self.tasks@.contains_key(pid) by {
                assert(keys.to_set().contains(pid) <==> self.tasks@.dom().contains(pid));
            }
        }
        r
    }

    /// Drops the processes that the last reading did not come upon.
    pub fn drop_unread(&mut self)
        ensures
            final(self).tasks@ == survivors(old(self).tasks@),
            forall|pid: Pid| #[trigger]
                final(self).tasks@.contains_key(pid) <==> old(self).tasks@.contains_key(pid)
                    && old(self).tasks@[pid].updated,
            forall|pid: Pid| #[trigger]
                final(self).tasks@.contains_key(pid) ==> final(self).tasks@[pid] == (Process {
                    updated: false,
                    data: old(self).tasks@[pid].data,
                }),
    {
        let ghost all = self.tasks@;
        let pids = self.pids();
        let mut kept: HashMap<Pid, Process<T>> = HashMap::new();
        let mut i: usize = 0;
        while i < pids.len()
            invariant
                i <= pids@.len(),
                forall|pid: Pid|
                    #[trigger] self.tasks@.contains_key(pid) <==> all.contains_key(pid)
                        && !pids@.take(i as int).contains(pid),
                forall|pid: Pid| #[trigger]
                    self.tasks@.contains_key(pid) ==> self.tasks@[pid] == all[pid],
                forall|pid: Pid|
                    #[trigger] kept@.contains_key(pid) <==> survivors(all).contains_key(pid)
                        && pids@.take(i as int).contains(pid),
                forall|pid: Pid| #[trigger]
                    kept@.contains_key(pid) ==> kept@[pid] == survivors(all)[pid],
            decreases pids@.len() - i,
        {
            let pid: Pid = pids[i];
            let ghost seen = pids@.take(i as int);
            proof {
                assert(pids@.take(i + 1) =~= seen.push(pid));
                assert forall|p: Pid| pids@.take(i + 1).contains(p) <==> seen.contains(p) || p
                    == pid by {
                    if seen.contains(p) {
                        let k = seen.index_of(p);
                        assert(pids@.take(i + 1)[k] == p);
                    }
                    if p == pid {
                        assert(pids@.take(i + 1)[i as int] == p);
                    }
                }
            }
            match self.tasks.remove(&pid) {
                Some(task) => {
                    if task.updated {
                        kept.insert(pid, Process { updated: false, data: task.data });
                    }
                },
                None => {},
            }
            i = i + 1;
        }
        self.tasks = kept;
        proof {
            assert(pids@.take(i as int) =~= pids@);
            assert(self.tasks@ =~= survivors(all));
        }
    }

    /// Leaves a process, if it is known, waiting for the next reading. Says whether
    /// it is known.
    pub fn settle(&mut self, pid: Pid) -> (known: bool)
        ensures
            known == old(self).tasks@.contains_key(pid),
            final(self).tasks@ == if known {
                old(self).tasks@.insert(pid, old(self).tasks@[pid].settled())
            } else {
                old(self).tasks@
            },
    {
        let ghost all = self.tasks@;
        match self.tasks.remove(&pid) {
            Some(task) => {
                self.tasks.insert(pid, Process { updated: false, data: task.data });
                assert(self.tasks@ =~= all.insert(pid, all[pid].settled()));
                true
            },
            None => {
                assert(self.tasks@ =~= all);
                false
            },
        }
    }
}

/// What a refresh of the processes is to bring up to date.
#[derive(Clone, Copy, Debug, PartialEq, Eq, Structural)]
pub struct ProcessRefreshKind {
    pub cpu: bool,
}

impl ProcessRefreshKind {
    /// Whether the share that each has of the processors is asked for.
    pub fn cpu(&self) -> (r: bool)
        ensures
            r == self.cpu,
    {
        self.cpu
    }
}

} // verus!
