//! Refreshing the processes.
use crate::cpu::{cpu_views, get_raw_times, Cpu, CpuRefreshKind};
use crate::cpu_refresh::CpuReading;
use crate::process::{survivors, Pid, Process, ProcessList, ProcessRefreshKind};
use crate::stat::{cpu_times, has_all_cpus_line, listed_cpus};
use crate::system::{Host, System};
use crate::text::file_lines;
use std::collections::HashMap;
use vstd::prelude::*;

verus! {

broadcast use vstd::std_specs::hash::group_hash_axioms;

/// What the usage of the processors by a process is measured against: the time
/// that has passed on all of them together, shared among them.
#[derive(Clone, Copy, Debug, PartialEq, Eq, Structural)]
pub struct CpuShare {
    /// The time that has passed on all processors together.
    pub total_time: u64,
    /// How many processors there are.
    pub cpus: usize,
}

/// What the reader of a single process comes back with.
#[derive(Debug)]
pub enum ProcessLookup<T> {
    /// A process that was not known yet, with its number.
    Added(Pid, Process<T>),
    /// A process that was known, and is up to date now.
    Known,
    /// There is no such process.
    Missing,
}

/// The processes, once what the reader of one came back with is among them.
pub open spec fn with_lookup<T>(
    tasks: Map<Pid, Process<T>>,
    lookup: ProcessLookup<T>,
) -> Map<Pid, Process<T>> {
    match lookup {
        ProcessLookup::Added(pid, process) => tasks.insert(pid, process),
        _ => tasks,
    }
}

/// The processes with one of them, if it is known, waiting for the next reading.
pub open spec fn with_settled<T>(tasks: Map<Pid, Process<T>>, pid: Pid) -> Map<Pid, Process<T>> {
    if tasks.contains_key(pid) {
        tasks.insert(pid, tasks[pid].settled())
    } else {
        tasks
    }
}

/// The time from an old total to a new one: one tick where the total went back.
pub open spec fn time_passed(now: nat, before: nat) -> nat {
    if before > now {
        1
    } else {
        (now - before) as nat
    }
}

/// The time from an old total to a new one: one tick where the total went back or
/// stood still.
pub open spec fn time_passed_at_least_a_tick(now: nat, before: nat) -> nat {
    if before >= now {
        1
    } else {
        (now - before) as nat
    }
}

/// Processors that say the same say the same one by one.
proof fn lemma_same_views(a: Seq<Cpu>, b: Seq<Cpu>)
    requires
        cpu_views(a) == cpu_views(b),
    ensures
        a.len() == b.len(),
        forall|i: int| 0 <= i < a.len() ==> (#[trigger] a[i])@ == b[i]@,
{
    assert(cpu_views(a).len() == a.len() && cpu_views(b).len() == b.len());
    assert forall|i: int| 0 <= i < a.len() implies (#[trigger] a[i])@ == b[i]@ by {
        assert(cpu_views(a)[i] == a[i]@);
        assert(cpu_views(b)[i] == b[i]@);
    }
}

impl<H: Host> System<H> {
    /// Whether the processors are what a refresh of the processes leaves: read, where the
    /// usage is asked for and they have not been since the processes last were.
    pub open spec fn cpus_read_if_needed(
        self,
        before: System<H>,
        refresh_kind: ProcessRefreshKind,
        reading: CpuReading,
    ) -> bool {
        if refresh_kind.cpu && before.need_cpus_update {
            self.cpus_refreshed(before, true, true, reading)
        } else {
            self.same_cpus(before)
        }
    }

    /// Whether this is the system that was, without the processes that the last reading
    /// did not come upon.
    pub open spec fn is_clearing_of(
        self,
        before: System<H>,
        refresh_kind: ProcessRefreshKind,
        reading: CpuReading,
    ) -> bool {
        &&& self.process_list.tasks@ == survivors(before.process_list.tasks@)
        &&& self.cpus_read_if_needed(before, refresh_kind, reading)
        &&& self == (System {
            process_list: self.process_list,
            global_cpu: self.global_cpu,
            cpus: self.cpus,
            need_cpus_update: before.need_cpus_update && !(refresh_kind.cpu
                && reading.stat is Some),
            ..before
        })
    }

    /// Whether this is the system that was, with those of the processes `tasks` that
    /// their reading came upon. The processors count as not read since.
    pub open spec fn is_processes_refresh_of(
        self,
        before: System<H>,
        refresh_kind: ProcessRefreshKind,
        tasks: Map<Pid, Process<H::Process>>,
        reading: CpuReading,
    ) -> bool {
        &&& self.process_list.tasks@ == survivors(tasks)
        &&& self.cpus_read_if_needed(before, refresh_kind, reading)
        &&& self == (System {
            process_list: self.process_list,
            global_cpu: self.global_cpu,
            cpus: self.cpus,
            need_cpus_update: true,
            ..before
        })
    }

    /// Whether this is the system that was, with what the reader of process `pid` came back
    /// with, `found` says whether there is such a process, and the share is what its usage
    /// is to be measured against.
    pub open spec fn is_process_refresh_of(
        self,
        before: System<H>,
        pid: Pid,
        refresh_kind: ProcessRefreshKind,
        lookup: ProcessLookup<H::Process>,
        reading: CpuReading,
        found: bool,
        share: Option<CpuShare>,
    ) -> bool {
        &&& found == !(lookup is Missing)
        &&& if refresh_kind.cpu && found {
            self.cpus_refreshed(before, true, true, reading)
        } else {
            self.same_cpus(before)
        }
        &&& self.need_cpus_update == (before.need_cpus_update && !(refresh_kind.cpu && found
            && reading.stat is Some))
        &&& self.process_list.tasks@ == if !found {
            before.process_list.tasks@
        } else if refresh_kind.cpu && self.cpus@.len() == 0 {
            with_lookup(before.process_list.tasks@, lookup)
        } else {
            with_settled(with_lookup(before.process_list.tasks@, lookup), pid)
        }
        &&& self == (System {
            process_list: self.process_list,
            global_cpu: self.global_cpu,
            cpus: self.cpus,
            need_cpus_update: self.need_cpus_update,
            ..before
        })
        &&& share is Some == (found && refresh_kind.cpu && self.cpus@.len() > 0 && with_lookup(
            before.process_list.tasks@,
            lookup,
        ).contains_key(pid))
        &&& share matches Some(s) ==> {
            &&& s.cpus == self.cpus@.len()
            &&& s.total_time == time_passed_at_least_a_tick(
                self.global_cpu.values.total(),
                self.global_cpu.old_values.total(),
            )
        }
    }

    /// Whether the share is what the usage of all processes is to be measured against,
    /// given where it is asked for and there is a processor.
    pub open spec fn is_share_of_time(self, usage: bool, share: Option<CpuShare>) -> bool {
        &&& share is Some == (usage && self.cpus@.len() > 0)
        &&& share matches Some(s) ==> {
            &&& s.cpus == self.cpus@.len()
            &&& s.total_time == time_passed(
                self.global_cpu.values.total(),
                self.global_cpu.old_values.total(),
            )
        }
    }

    /// One reading of the processors serves a refresh of them and one of the processes
    /// that follows: the second does not read them again.
    pub proof fn law_one_reading_serves_both(
        start: System<H>,
        cpus_read: System<H>,
        processes_read: System<H>,
        only_global: bool,
        cpu_kind: CpuRefreshKind,
        reading: CpuReading,
        frequencies_wanted: bool,
        process_kind: ProcessRefreshKind,
        tasks: Map<Pid, Process<H::Process>>,
        next_reading: CpuReading,
    )
        requires
            cpus_read.is_cpu_refresh_of(start, only_global, cpu_kind, reading, frequencies_wanted),
            reading.stat is Some,
            processes_read.is_processes_refresh_of(cpus_read, process_kind, tasks, next_reading),
        ensures
            processes_read.same_cpus(cpus_read),
    {
    }

    /// A refresh of all processes keeps every process that its reading came upon, with what
    /// was read of it, and no other. The memory, the components, the disks, the networks and
    /// the users stay as they were.
    pub proof fn law_processes_are_those_read(
        self,
        before: System<H>,
        refresh_kind: ProcessRefreshKind,
        tasks: Map<Pid, Process<H::Process>>,
        reading: CpuReading,
        pid: Pid,
    )
        requires
            self.is_processes_refresh_of(before, refresh_kind, tasks, reading),
        ensures
            self.process_list.tasks@.contains_key(pid) <==> tasks.contains_key(pid)
                && tasks[pid].updated,
            self.process_list.tasks@.contains_key(pid) ==> self.process_list.tasks@[pid]
                == (Process { updated: false, data: tasks[pid].data }),
            self.need_cpus_update,
            self.same_but_processes_and_cpus(before),
    {
    }

    /// Clearing keeps every process that the last reading came upon, with what was read of
    /// it, and no other. The memory, the components, the disks, the networks and the users
    /// stay as they were, and so does whether the processors are to be read, unless they
    /// have been.
    pub proof fn law_clearing_keeps_those_read(
        self,
        before: System<H>,
        refresh_kind: ProcessRefreshKind,
        reading: CpuReading,
        pid: Pid,
    )
        requires
            self.is_clearing_of(before, refresh_kind, reading),
        ensures
            self.process_list.tasks@.contains_key(pid)
                <==> before.process_list.tasks@.contains_key(pid)
                && before.process_list.tasks@[pid].updated,
            self.process_list.tasks@.contains_key(pid) ==> self.process_list.tasks@[pid]
                == (Process { updated: false, data: before.process_list.tasks@[pid].data }),
            self.same_but_processes_and_cpus(before),
            !refresh_kind.cpu || reading.stat is None ==> self.need_cpus_update
                == before.need_cpus_update,
            refresh_kind.cpu && reading.stat is Some ==> !self.need_cpus_update,
    {
    }

    /// Whether all but the processes, the processors and whether these are to be read is as
    /// it was.
    pub open spec fn same_but_processes_and_cpus(self, before: System<H>) -> bool {
        &&& self.mem_total == before.mem_total
        &&& self.mem_free == before.mem_free
        &&& self.mem_available == before.mem_available
        &&& self.mem_buffers == before.mem_buffers
        &&& self.mem_page_cache == before.mem_page_cache
        &&& self.mem_slab_reclaimable == before.mem_slab_reclaimable
        &&& self.swap_total == before.swap_total
        &&& self.swap_free == before.swap_free
        &&& self.components == before.components
        &&& self.disks == before.disks
        &&& self.networks == before.networks
        &&& self.users == before.users
        &&& self.info == before.info
        &&& self.got_cpu_frequency == before.got_cpu_frequency
    }

    /// The processes are not measured by what was read before them: all processors together
    /// are read for them where the usage is asked for and nobody has read them since, and
    /// left alone otherwise. Each one is listed where none was known, and left alone as well.
    pub proof fn law_processes_have_the_cpus_read(
        self,
        before: System<H>,
        refresh_kind: ProcessRefreshKind,
        tasks: Map<Pid, Process<H::Process>>,
        reading: CpuReading,
        stat: &[u8],
        k: int,
    )
        requires
            self.is_processes_refresh_of(before, refresh_kind, tasks, reading)
                || self.is_clearing_of(before, refresh_kind, reading),
        ensures
            refresh_kind.cpu && before.need_cpus_update && reading.stat == Some(stat)
                && has_all_cpus_line(stat@) ==> {
                &&& self.global_cpu.values == cpu_times(file_lines(stat@)[0])
                &&& self.global_cpu.old_values == before.global_cpu.values
                &&& before.cpus@.len() == 0 ==> self.cpus@.len() == listed_cpus(stat@)
                &&& before.cpus@.len() == 0 && 0 <= k < self.cpus@.len()
                    ==> self.cpus@[k].values == cpu_times(file_lines(stat@)[k + 1])
                &&& before.cpus@.len() > 0 ==> self.cpus@.len() == before.cpus@.len()
                &&& before.cpus@.len() > 0 && 0 <= k < self.cpus@.len() ==> self.cpus@[k]@
                    == before.cpus@[k]@
            },
            !refresh_kind.cpu || !before.need_cpus_update || reading.stat is None ==> {
                &&& self.global_cpu@ == before.global_cpu@
                &&& self.cpus@.len() == before.cpus@.len()
                &&& forall|i: int|
                    0 <= i < self.cpus@.len() ==> (#[trigger] self.cpus@[i])@ == before.cpus@[i]@
            },
    {
        self.lemma_views_of_cpus(k);
        before.lemma_views_of_cpus(k);
        if !refresh_kind.cpu || !before.need_cpus_update || reading.stat is None {
            assert(self.same_cpus(before));
            lemma_same_views(self.cpus@, before.cpus@);
        }
    }

    proof fn lemma_views_of_cpus(self, k: int)
        ensures
            cpu_views(self.cpus@).len() == self.cpus@.len(),
            0 <= k < self.cpus@.len() ==> cpu_views(self.cpus@)[k] == self.cpus@[k]@,
            self.global_cpu@.values == self.global_cpu.values,
            self.global_cpu@.old_values == self.global_cpu.old_values,
    {
    }

    /// A refresh of one process changes no other: every process that was known under
    /// another number is still known, just as it was, and none is known that was not,
    /// except what the reader came back with.
    pub proof fn law_other_processes_stay(
        self,
        before: System<H>,
        pid: Pid,
        refresh_kind: ProcessRefreshKind,
        lookup: ProcessLookup<H::Process>,
        reading: CpuReading,
        found: bool,
        share: Option<CpuShare>,
        other: Pid,
    )
        requires
            self.is_process_refresh_of(
                before,
                pid,
                refresh_kind,
                lookup,
                reading,
                found,
                share,
            ),
            other != pid,
            !(lookup matches ProcessLookup::Added(number, _) && number == other),
        ensures
            self.process_list.tasks@.contains_key(other)
                == before.process_list.tasks@.contains_key(other),
            before.process_list.tasks@.contains_key(other) ==> self.process_list.tasks@[other]
                == before.process_list.tasks@[other],
    {
    }

    /// What a refresh of one process does with that process: one that the reader came back
    /// with is known from then on, one that is known waits for the next reading unless the
    /// usage is asked for and there is no processor, and where there is none nothing
    /// changes at all.
    pub proof fn law_the_process_is_taken(
        self,
        before: System<H>,
        pid: Pid,
        refresh_kind: ProcessRefreshKind,
        lookup: ProcessLookup<H::Process>,
        reading: CpuReading,
        found: bool,
        share: Option<CpuShare>,
    )
        requires
            self.is_process_refresh_of(
                before,
                pid,
                refresh_kind,
                lookup,
                reading,
                found,
                share,
            ),
        ensures
            lookup is Missing ==> {
                &&& !found
                &&& share is None
                &&& self.process_list.tasks@ == before.process_list.tasks@
                &&& self.global_cpu@ == before.global_cpu@
                &&& self.need_cpus_update == before.need_cpus_update
            },
            !(lookup is Missing) ==> found,
            lookup matches ProcessLookup::Added(number, process) ==> {
                &&& self.process_list.tasks@.contains_key(number)
                &&& self.process_list.tasks@[number].data == process.data
                &&& number != pid ==> self.process_list.tasks@[number] == process
                &&& refresh_kind.cpu && self.cpus@.len() == 0
                    ==> self.process_list.tasks@[number] == process
            },
            lookup is Known ==> {
                &&& self.process_list.tasks@.contains_key(pid)
                    == before.process_list.tasks@.contains_key(pid)
                &&& self.process_list.tasks@.contains_key(pid)
                    ==> self.process_list.tasks@[pid].data == before.process_list.tasks@[pid].data
                &&& self.process_list.tasks@.contains_key(pid) && refresh_kind.cpu
                    && self.cpus@.len() == 0 ==> self.process_list.tasks@[pid].updated
                    == before.process_list.tasks@[pid].updated
            },
            found && !(refresh_kind.cpu && self.cpus@.len() == 0)
                && self.process_list.tasks@.contains_key(pid)
                ==> !self.process_list.tasks@[pid].updated,
            self.same_but_processes_and_cpus(before),
    {
    }

    /// Where a process is found and its usage is asked for, all processors together are read
    /// anew each time, and otherwise they are left alone. Each one is listed where none was
    /// known, and left alone as well. The usage is measured against the time
    /// between that reading and the one before, at least a tick, and the number of
    /// processors.
    pub proof fn law_a_found_process_has_the_cpus_read(
        self,
        before: System<H>,
        pid: Pid,
        refresh_kind: ProcessRefreshKind,
        lookup: ProcessLookup<H::Process>,
        reading: CpuReading,
        found: bool,
        share: Option<CpuShare>,
        stat: &[u8],
        k: int,
    )
        requires
            self.is_process_refresh_of(
                before,
                pid,
                refresh_kind,
                lookup,
                reading,
                found,
                share,
            ),
        ensures
            !(lookup is Missing) && refresh_kind.cpu && reading.stat == Some(stat)
                && has_all_cpus_line(stat@) ==> {
                &&& self.global_cpu.values == cpu_times(file_lines(stat@)[0])
                &&& self.global_cpu.old_values == before.global_cpu.values
                &&& before.cpus@.len() == 0 ==> self.cpus@.len() == listed_cpus(stat@)
                &&& before.cpus@.len() == 0 && 0 <= k < self.cpus@.len()
                    ==> self.cpus@[k].values == cpu_times(file_lines(stat@)[k + 1])
                &&& before.cpus@.len() > 0 ==> self.cpus@.len() == before.cpus@.len()
                &&& before.cpus@.len() > 0 && 0 <= k < self.cpus@.len() ==> self.cpus@[k]@
                    == before.cpus@[k]@
                &&& !self.need_cpus_update
            },
            lookup is Missing || !refresh_kind.cpu || reading.stat is None ==> {
                &&& self.global_cpu@ == before.global_cpu@
                &&& self.cpus@.len() == before.cpus@.len()
                &&& forall|i: int|
                    0 <= i < self.cpus@.len() ==> (#[trigger] self.cpus@[i])@ == before.cpus@[i]@
                &&& self.need_cpus_update == before.need_cpus_update
            },
            share is Some <==> !(lookup is Missing) && refresh_kind.cpu && self.cpus@.len() > 0
                && self.process_list.tasks@.contains_key(pid),
            share matches Some(s) ==> {
                let now = self.global_cpu.values.total();
                let then = self.global_cpu.old_values.total();
                &&& s.cpus == self.cpus@.len()
                &&& s.total_time >= 1
                &&& then < now ==> then + s.total_time == now
                &&& then >= now ==> s.total_time == 1
            },
    {
        self.lemma_views_of_cpus(k);
        before.lemma_views_of_cpus(k);
        if lookup is Missing || !refresh_kind.cpu || reading.stat is None {
            assert(self.same_cpus(before));
            lemma_same_views(self.cpus@, before.cpus@);
        }
    }

    /// The usage of all processes is measured against the time between the last two
    /// readings of the processors, or a tick where their clock went back, and the number
    /// of processors: where it is asked for and there is a processor, and only there.
    pub proof fn law_share_of_time(self, usage: bool, share: Option<CpuShare>)
        requires
            self.is_share_of_time(usage, share),
        ensures
            share is Some <==> usage && self.cpus@.len() > 0,
            share matches Some(s) ==> {
                let now = self.global_cpu.values.total();
                let then = self.global_cpu.old_values.total();
                &&& s.cpus == self.cpus@.len()
                &&& then <= now ==> then + s.total_time == now
                &&& then > now ==> s.total_time == 1
            },
    {
    }

    /// All of every processor, in percent.
    pub open spec fn greatest_usage(self) -> nat {
        self.cpus@.len() * 100
    }

    /// Each processor can be used to a hundred percent: one more allows for as much more.
    pub proof fn law_each_cpu_allows_a_hundred_percent(self, other: System<H>)
        requires
            other.cpus@.len() == self.cpus@.len() + 1,
        ensures
            other.greatest_usage() == self.greatest_usage() + 100,
            self.cpus@.len() == 0 ==> self.greatest_usage() == 0,
    {
    }

    /// The greatest usage, in percent, that a process can have: all of every
    /// processor. A measured usage can come out greater, and is to be held to this.
    pub fn get_max_process_cpu_usage(&self) -> (r: u128)
        ensures
            r == self.greatest_usage(),
    {
        self.cpus.len() as u128 * 100
    }

    /// Whether [`System::clear_procs`] reads the processors.
    pub fn clear_procs_reads_cpus(&self, refresh_kind: ProcessRefreshKind) -> (r: bool)
        ensures
            r == (refresh_kind.cpu && self.need_cpus_update),
    {
        refresh_kind.cpu() && self.need_cpus_update
    }

    /// Drops the processes that the last reading did not come upon, and leaves the
    /// others waiting for the next one. Gives what their usage is to be measured
    /// against, if it is asked for and there is a processor.
    ///
    /// `reading` counts only where the usage is asked for and the processors have not
    /// been read since the processes last were.
    pub fn clear_procs(
        &mut self,
        refresh_kind: ProcessRefreshKind,
        reading: CpuReading,
    ) -> (share: Option<CpuShare>)
        requires
            refresh_kind.cpu && old(self).need_cpus_update ==> old(self).reading_usable(
                true,
                true,
                reading,
            ),
        ensures
            final(self).is_clearing_of(*old(self), refresh_kind, reading),
            final(self).is_share_of_time(refresh_kind.cpu, share),
    {
        let mut share: Option<CpuShare> = None;
        if refresh_kind.cpu() {
            if self.need_cpus_update {
                self.refresh_cpus(true, CpuRefreshKind::new().with_cpu_usage(), reading);
            }
            if !self.cpus.is_empty() {
                let (new_time, old_time) = get_raw_times(&self.global_cpu);
                let total_time: u64 = if old_time > new_time {
                    1
                } else {
                    new_time - old_time
                };
                share = Some(CpuShare { total_time, cpus: self.cpus.len() });
            }
        }
        self.process_list.drop_unread();
        share
    }

    /// Takes the processes as a reading of all of them has left them, and drops
    /// those that it did not come upon. Gives what their usage is to be measured
    /// against, if it is asked for and there is a processor.
    pub fn refresh_processes_specifics(
        &mut self,
        refresh_kind: ProcessRefreshKind,
        tasks: HashMap<Pid, Process<H::Process>>,
        reading: CpuReading,
    ) -> (share: Option<CpuShare>)
        requires
            refresh_kind.cpu && old(self).need_cpus_update ==> old(self).reading_usable(
                true,
                true,
                reading,
            ),
        ensures
            final(self).is_processes_refresh_of(*old(self), refresh_kind, tasks@, reading),
            final(self).is_share_of_time(refresh_kind.cpu, share),
    {
        self.process_list = ProcessList { tasks };
        let share = self.clear_procs(refresh_kind, reading);
        self.need_cpus_update = true;
        share
    }

    /// Takes what the reader of process `pid` came back with. Says whether there is
    /// such a process, and gives what its usage is to be measured against, if that is
    /// asked for, the process is known and there is a processor.
    ///
    /// `reading` counts only where there is such a process and the usage is asked for.
    pub fn refresh_process_specifics(
        &mut self,
        pid: Pid,
        refresh_kind: ProcessRefreshKind,
        lookup: ProcessLookup<H::Process>,
        reading: CpuReading,
    ) -> (r: (bool, Option<CpuShare>))
        requires
            refresh_kind.cpu && !(lookup is Missing) ==> old(self).reading_usable(
                true,
                true,
                reading,
            ),
        ensures
            final(self).is_process_refresh_of(
                *old(self),
                pid,
                refresh_kind,
                lookup,
                reading,
                r.0,
                r.1,
            ),
    {
        match lookup {
            ProcessLookup::Added(number, process) => {
                self.process_list.tasks.insert(number, process);
            },
            ProcessLookup::Known => {},
            ProcessLookup::Missing => {
                return (false, None);
            },
        }
        if refresh_kind.cpu() {
            self.refresh_cpus(true, CpuRefreshKind::new().with_cpu_usage(), reading);
            if self.cpus.is_empty() {
                return (true, None);
            }
            let (new_time, old_time) = get_raw_times(&self.global_cpu);
            let total_time: u64 = if old_time >= new_time {
                1
            } else {
                new_time - old_time
            };
            if self.process_list.settle(pid) {
                return (true, Some(CpuShare { total_time, cpus: self.cpus.len() }));
            }
        } else {
            self.process_list.settle(pid);
        }
        (true, None)
    }
}

} // verus!
