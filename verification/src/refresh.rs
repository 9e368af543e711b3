//! Refreshing several parts of the system in one pass.
use crate::cpu::{cpu_views, CpuRefreshKind, CpuView};
use crate::cpu_refresh::{
    is_greatest, refreshed_cpus, refreshed_global, stat_usable, wants_frequencies, CpuReading,
    CpuReadingView,
};
use crate::memory::meminfo_amount;
use crate::process::{survivors, Pid, Process, ProcessRefreshKind};
use crate::process_refresh::CpuShare;
use crate::stat::{cpu_name, cpu_times, has_all_cpus_line, listed_cpus};
use crate::system::{Host, System, SystemInfo, SystemView};
use crate::text::file_lines;
use std::collections::HashMap;
use vstd::prelude::*;

verus! {

broadcast use vstd::std_specs::hash::group_hash_axioms;

/// What a refresh is to bring up to date.
#[derive(Clone, Copy, Debug)]
pub struct RefreshKind {
    pub memory: bool,
    pub cpu: Option<CpuRefreshKind>,
    pub components_list: bool,
    pub processes: Option<ProcessRefreshKind>,
    pub disks_list: bool,
    pub users_list: bool,
}

impl RefreshKind {
    /// Nothing.
    pub open spec fn nothing() -> RefreshKind {
        RefreshKind {
            memory: false,
            cpu: None,
            components_list: false,
            processes: None,
            disks_list: false,
            users_list: false,
        }
    }

    /// Nothing.
    pub fn new() -> (r: RefreshKind)
        ensures
            r == RefreshKind::nothing(),
    {
        RefreshKind {
            memory: false,
            cpu: None,
            components_list: false,
            processes: None,
            disks_list: false,
            users_list: false,
        }
    }

    /// Whether the usage of the processors by the processes is asked for.
    pub open spec fn process_usage(self) -> bool {
        self.processes matches Some(kind) && kind.cpu
    }
}

/// Whoever asks for nothing asks for no part.
pub proof fn law_nothing_is_asked_for(refreshes: RefreshKind)
    ensures
        refreshes == RefreshKind::nothing() <==> !refreshes.memory && refreshes.cpu is None
            && !refreshes.components_list && refreshes.processes is None && !refreshes.disks_list
            && !refreshes.users_list,
        !RefreshKind::nothing().process_usage(),
        refreshes.processes is None ==> !refreshes.process_usage(),
        refreshes.processes matches Some(kind) ==> refreshes.process_usage() == kind.cpu,
{
}

/// What has been read for one pass. What is not asked for is not looked at.
pub struct Readings<'a, H: Host> {
    /// What `/proc/meminfo` holds, if it could be read.
    pub meminfo: Option<&'a str>,
    /// For the refresh of the processors.
    pub cpus: CpuReading<'a>,
    /// The frequency of each processor, where [`System::frequencies_to_read`] asks for it.
    pub frequencies: Vec<u64>,
    pub components: Vec<H::Component>,
    /// The processes as a reading of all of them has left them.
    pub tasks: HashMap<Pid, Process<H::Process>>,
    /// For the refresh of the processes, where [`System::reads_cpus_again`] asks for it.
    pub process_cpus: CpuReading<'a>,
    pub disks: Vec<H::Disk>,
    pub users: Vec<H::User>,
}

/// What [`Readings`] say.
#[verifier::ext_equal]
pub struct ReadingsView<H: Host> {
    pub meminfo: Option<Seq<char>>,
    pub cpus: CpuReadingView,
    pub frequencies: Seq<u64>,
    pub components: Seq<H::Component>,
    pub tasks: Map<Pid, Process<H::Process>>,
    pub process_cpus: CpuReadingView,
    pub disks: Seq<H::Disk>,
    pub users: Seq<H::User>,
}

impl<'a, H: Host> View for Readings<'a, H> {
    type V = ReadingsView<H>;

    open spec fn view(&self) -> ReadingsView<H> {
        ReadingsView {
            meminfo: match self.meminfo {
                Some(text) => Some(text@),
                None => None,
            },
            cpus: self.cpus@,
            frequencies: self.frequencies@,
            components: self.components@,
            tasks: self.tasks@,
            process_cpus: self.process_cpus@,
            disks: self.disks@,
            users: self.users@,
        }
    }
}

impl<H: Host> ReadingsView<H> {
    /// Nothing could be read, and nothing was found.
    pub open spec fn empty() -> ReadingsView<H> {
        let no_cpus = CpuReadingView { stat: None, vendor_id: seq![], brand: seq![] };
        ReadingsView {
            meminfo: None,
            cpus: no_cpus,
            frequencies: seq![],
            components: seq![],
            tasks: Map::empty(),
            process_cpus: no_cpus,
            disks: seq![],
            users: seq![],
        }
    }
}

impl<'a, H: Host> Readings<'a, H> {
    /// What readings say is all that has been read.
    pub proof fn law_a_view_says_everything(self)
        ensures
            self.meminfo is None <==> self@.meminfo is None,
            self.meminfo matches Some(text) ==> self@.meminfo == Some(text@),
            self@.cpus == self.cpus@,
            self@.frequencies == self.frequencies@,
            self@.components == self.components@,
            self@.tasks == self.tasks@,
            self@.process_cpus == self.process_cpus@,
            self@.disks == self.disks@,
            self@.users == self.users@,
            self.cpus.stat is None <==> self.cpus@.stat is None,
            self.cpus.stat matches Some(stat) ==> self.cpus@.stat == Some(stat@),
            self.cpus@.vendor_id == self.cpus.vendor_id@,
            self.cpus@.brand == self.cpus.brand@,
    {
    }

    /// Nothing could be read, and nothing was found.
    pub fn new() -> (r: Readings<'a, H>)
        ensures
            r@ == ReadingsView::<H>::empty(),
    {
        proof {
            reveal_strlit("");
        }
        let no_cpus = CpuReading { stat: None, vendor_id: "", brand: "" };
        assert(no_cpus.vendor_id@ =~= Seq::<char>::empty());
        Readings {
            meminfo: None,
            cpus: no_cpus,
            frequencies: Vec::new(),
            components: Vec::new(),
            tasks: HashMap::new(),
            process_cpus: no_cpus,
            disks: Vec::new(),
            users: Vec::new(),
        }
    }
}

/// The greatest of the numbers, or zero where there is none.
pub open spec fn greatest(numbers: Seq<u64>) -> u64
    decreases numbers.len(),
{
    if numbers.len() == 0 {
        0
    } else if greatest(numbers.drop_last()) > numbers.last() {
        greatest(numbers.drop_last())
    } else {
        numbers.last()
    }
}

/// The greatest of the numbers is one of them, and none is greater. Where there is none,
/// it is zero.
pub proof fn law_greatest(numbers: Seq<u64>, i: int)
    ensures
        0 <= i < numbers.len() ==> numbers[i] <= greatest(numbers),
        numbers.len() > 0 ==> numbers.contains(greatest(numbers)),
        numbers.len() == 0 ==> greatest(numbers) == 0,
{
    lemma_greatest_is_greatest(numbers);
}

/// There is one greatest number.
proof fn lemma_greatest(numbers: Seq<u64>, m: u64)
    requires
        is_greatest(numbers, m),
    ensures
        m == greatest(numbers),
    decreases numbers.len(),
{
    if numbers.len() > 0 {
        let front = numbers.drop_last();
        lemma_greatest_is_greatest(front);
        let g = greatest(front);
        if front.len() > 0 {
            let k = front.index_of(g);
            assert(numbers[k] == g);
        }
        assert(numbers[numbers.len() - 1] <= m);
        let k = numbers.index_of(m);
        if k < front.len() {
            assert(front[k] == m);
        }
    }
}

proof fn lemma_greatest_is_greatest(numbers: Seq<u64>)
    ensures
        is_greatest(numbers, greatest(numbers)),
    decreases numbers.len(),
{
    if numbers.len() > 0 {
        let front = numbers.drop_last();
        lemma_greatest_is_greatest(front);
        assert forall|i: int| 0 <= i < numbers.len() implies numbers[i] <= greatest(numbers) by {
            if i < front.len() {
                assert(front[i] <= greatest(front));
            }
        }
        if greatest(front) > numbers.last() {
            let k = front.index_of(greatest(front));
            assert(numbers[k] == greatest(numbers));
        } else {
            assert(numbers[numbers.len() - 1] == greatest(numbers));
        }
    }
}

impl<H: Host> SystemView<H> {
    /// The system once its memory has been refreshed.
    pub open spec fn after_memory(self, meminfo: Option<Seq<char>>) -> SystemView<H> {
        match meminfo {
            Some(data) => SystemView {
                mem_total: meminfo_amount(data, "MemTotal"@, self.mem_total),
                mem_free: meminfo_amount(data, "MemFree"@, self.mem_free),
                mem_available: meminfo_amount(data, "MemAvailable"@, self.mem_available),
                mem_buffers: meminfo_amount(data, "Buffers"@, self.mem_buffers),
                mem_page_cache: meminfo_amount(data, "Cached"@, self.mem_page_cache),
                mem_slab_reclaimable: meminfo_amount(
                    data,
                    "SReclaimable"@,
                    self.mem_slab_reclaimable,
                ),
                swap_total: meminfo_amount(data, "SwapTotal"@, self.swap_total),
                swap_free: meminfo_amount(data, "SwapFree"@, self.swap_free),
                ..self
            },
            None => self,
        }
    }

    /// The system once its processors have been read.
    pub open spec fn after_cpus(
        self,
        only_global: bool,
        usage: bool,
        reading: CpuReadingView,
    ) -> SystemView<H> {
        match reading.stat {
            Some(stat) => SystemView {
                global_cpu: refreshed_global(
                    self.global_cpu,
                    self.cpus.len() == 0,
                    usage,
                    stat,
                    reading.vendor_id,
                    reading.brand,
                ),
                cpus: refreshed_cpus(
                    self.cpus,
                    only_global,
                    usage,
                    stat,
                    reading.vendor_id,
                    reading.brand,
                ),
                need_cpus_update: false,
                ..self
            },
            None => self,
        }
    }

    /// The system once the frequencies of its processors have been read.
    pub open spec fn after_frequencies(self, frequencies: Seq<u64>) -> SystemView<H> {
        SystemView {
            global_cpu: CpuView { frequency: greatest(frequencies), ..self.global_cpu },
            cpus: Seq::new(
                self.cpus.len(),
                |i: int| CpuView { frequency: frequencies[i], ..self.cpus[i] },
            ),
            got_cpu_frequency: true,
            ..self
        }
    }

    /// The system once its processors have been refreshed, with their frequencies where
    /// the refresh wants them.
    pub open spec fn after_cpu_specifics(
        self,
        refresh_kind: CpuRefreshKind,
        reading: CpuReadingView,
        frequencies: Seq<u64>,
    ) -> SystemView<H> {
        let read = self.after_cpus(false, refresh_kind.cpu_usage, reading);
        if wants_frequencies(self.cpus.len() == 0, refresh_kind, reading.stat) {
            read.after_frequencies(frequencies)
        } else {
            read
        }
    }

    /// The system once its processes have been refreshed.
    pub open spec fn after_processes(
        self,
        refresh_kind: ProcessRefreshKind,
        tasks: Map<Pid, Process<H::Process>>,
        reading: CpuReadingView,
    ) -> SystemView<H> {
        let read = if refresh_kind.cpu && self.need_cpus_update {
            self.after_cpus(true, true, reading)
        } else {
            self
        };
        SystemView { tasks: survivors(tasks), need_cpus_update: true, ..read }
    }

    /// The system once everything that is asked for has been refreshed: the memory, the
    /// processors, the components, the processes, the disks and the users, in this order.
    pub open spec fn after_specifics(
        self,
        refreshes: RefreshKind,
        readings: ReadingsView<H>,
    ) -> SystemView<H> {
        let s = if refreshes.memory {
            self.after_memory(readings.meminfo)
        } else {
            self
        };
        let s = match refreshes.cpu {
            Some(kind) => s.after_cpu_specifics(kind, readings.cpus, readings.frequencies),
            None => s,
        };
        let s = if refreshes.components_list {
            SystemView { components: readings.components, ..s }
        } else {
            s
        };
        let s = match refreshes.processes {
            Some(kind) => s.after_processes(kind, readings.tasks, readings.process_cpus),
            None => s,
        };
        let s = if refreshes.disks_list {
            SystemView { disks: readings.disks, ..s }
        } else {
            s
        };
        if refreshes.users_list {
            SystemView { users: readings.users, ..s }
        } else {
            s
        }
    }

    /// Whether the refresh of the processes reads the processors: where the usage is
    /// asked for and they have not been read since the processes last were, nor in this
    /// pass.
    pub open spec fn cpus_read_again(
        self,
        refreshes: RefreshKind,
        reading: CpuReadingView,
    ) -> bool {
        refreshes.process_usage() && self.need_cpus_update && !(refreshes.cpu is Some
            && reading.stat is Some)
    }

    /// Whether a pass can use what has been read for it: what `/proc/stat` holds can be
    /// read, and there is a frequency for each processor where they are wanted.
    pub open spec fn readings_usable(
        self,
        refreshes: RefreshKind,
        readings: ReadingsView<H>,
    ) -> bool {
        &&& (refreshes.cpu matches Some(kind) ==> {
            &&& (readings.cpus.stat matches Some(stat) ==> stat_usable(
                stat,
                self.cpus.len(),
                false,
                kind.cpu_usage,
            ))
            &&& wants_frequencies(self.cpus.len() == 0, kind, readings.cpus.stat)
                ==> readings.frequencies.len() == self.after_cpus(
                false,
                kind.cpu_usage,
                readings.cpus,
            ).cpus.len()
        })
        &&& self.cpus_read_again(refreshes, readings.cpus) ==> (
        readings.process_cpus.stat matches Some(stat) ==> stat_usable(
            stat,
            self.cpus.len(),
            true,
            true,
        ))
    }
}

/// Whether the two have the same amounts of memory.
spec fn same_memory<H: Host>(a: SystemView<H>, b: SystemView<H>) -> bool {
    &&& a.mem_total == b.mem_total
    &&& a.mem_free == b.mem_free
    &&& a.mem_available == b.mem_available
    &&& a.mem_buffers == b.mem_buffers
    &&& a.mem_page_cache == b.mem_page_cache
    &&& a.mem_slab_reclaimable == b.mem_slab_reclaimable
    &&& a.swap_total == b.swap_total
    &&& a.swap_free == b.swap_free
}

/// Nothing that follows the refresh of the memory changes an amount.
proof fn lemma_memory_is_read_first<H: Host>(
    was: SystemView<H>,
    refreshes: RefreshKind,
    readings: ReadingsView<H>,
    read: SystemView<H>,
)
    requires
        read == if refreshes.memory {
            was.after_memory(readings.meminfo)
        } else {
            was
        },
    ensures
        same_memory(was.after_specifics(refreshes, readings), read),
{
    let cpus = match refreshes.cpu {
        Some(kind) => read.after_cpu_specifics(kind, readings.cpus, readings.frequencies),
        None => read,
    };
    assert(same_memory(cpus, read));
}

impl<H: Host> System<H> {
    /// Whether this is the system that was, refreshed in one pass, and the share is what
    /// the usage of its processes is to be measured against.
    pub open spec fn is_specifics_refresh_of(
        self,
        before: System<H>,
        refreshes: RefreshKind,
        readings: ReadingsView<H>,
        share: Option<CpuShare>,
    ) -> bool {
        &&& self@ == before@.after_specifics(refreshes, readings)
        &&& self.is_share_of_time(refreshes.process_usage(), share)
    }

    /// Whether this is a system made anew and refreshed in one pass, and the share is
    /// what the usage of its processes is to be measured against.
    pub open spec fn is_new_with_specifics(
        self,
        info: SystemInfo,
        networks: H::Networks,
        refreshes: RefreshKind,
        readings: ReadingsView<H>,
        share: Option<CpuShare>,
    ) -> bool {
        &&& self@ == SystemView::<H>::unread(info, networks).after_specifics(refreshes, readings)
        &&& self.is_share_of_time(refreshes.process_usage(), share)
    }

    /// To make a system with some refreshes is to make one with none, whatever has been
    /// read, and to refresh it once: where the same is read, all that the systems say is
    /// the same.
    pub proof fn law_making_is_refreshing(
        info: SystemInfo,
        networks: H::Networks,
        refreshes: RefreshKind,
        readings: ReadingsView<H>,
        made: System<H>,
        share: Option<CpuShare>,
        unused: ReadingsView<H>,
        bare: System<H>,
        no_share: Option<CpuShare>,
        refreshed: System<H>,
        later_share: Option<CpuShare>,
    )
        requires
            made.is_new_with_specifics(info, networks, refreshes, readings, share),
            bare.is_new_with_specifics(info, networks, RefreshKind::nothing(), unused, no_share),
            refreshed.is_specifics_refresh_of(bare, refreshes, readings, later_share),
        ensures
            made@ == refreshed@,
            share == later_share,
            no_share is None,
    {
        assert(made@.cpus.len() == made.cpus@.len());
        assert(refreshed@.cpus.len() == refreshed.cpus@.len());
        assert(made@.global_cpu.values == made.global_cpu.values);
        assert(refreshed@.global_cpu.values == refreshed.global_cpu.values);
        assert(made@.global_cpu.old_values == made.global_cpu.old_values);
        assert(refreshed@.global_cpu.old_values == refreshed.global_cpu.old_values);
    }

    /// A pass that asks for nothing changes nothing, whatever has been read.
    pub proof fn law_nothing_asked_for_changes_nothing(
        before: System<H>,
        after: System<H>,
        readings: ReadingsView<H>,
        share: Option<CpuShare>,
    )
        requires
            after.is_specifics_refresh_of(before, RefreshKind::nothing(), readings, share),
        ensures
            after@ == before@,
            share is None,
    {
    }

    /// A system that nothing was asked of when it was made knows nothing but what it was
    /// made with, whatever has been read.
    pub proof fn law_a_new_system_knows_nothing(
        self,
        info: SystemInfo,
        networks: H::Networks,
        readings: ReadingsView<H>,
        share: Option<CpuShare>,
        pid: Pid,
    )
        requires
            self.is_new_with_specifics(info, networks, RefreshKind::nothing(), readings, share),
        ensures
            !self.process_list.tasks@.contains_key(pid),
            self.mem_total == 0,
            self.mem_free == 0,
            self.mem_available == 0,
            self.mem_buffers == 0,
            self.mem_page_cache == 0,
            self.mem_slab_reclaimable == 0,
            self.swap_total == 0,
            self.swap_free == 0,
            self.global_cpu.name@.len() == 0,
            self.global_cpu.values.total() == 0,
            self.global_cpu.old_values.total() == 0,
            self.global_cpu.frequency == 0,
            self.global_cpu.vendor_id@.len() == 0,
            self.global_cpu.brand@.len() == 0,
            self.cpus@.len() == 0,
            self.components@.len() == 0,
            self.disks@.len() == 0,
            self.networks == networks,
            self.users@.len() == 0,
            self.need_cpus_update,
            self.info == info,
            !self.got_cpu_frequency,
            share is None,
    {
        let cpu = self.global_cpu@;
        assert(cpu.values == self.global_cpu.values);
        assert(cpu.old_values == self.global_cpu.old_values);
        assert(self@.cpus.len() == self.cpus@.len());
        assert(!self@.tasks.contains_key(pid));
    }

    /// Each list is replaced by what was found where it is asked for, whatever else is, and
    /// stays as it was where it is not. The networks always stay, and so does what holds
    /// for as long as the system runs.
    pub proof fn law_lists_are_refreshed_where_asked(
        self,
        before: System<H>,
        refreshes: RefreshKind,
        readings: ReadingsView<H>,
        share: Option<CpuShare>,
    )
        requires
            self.is_specifics_refresh_of(before, refreshes, readings, share),
        ensures
            refreshes.components_list ==> self.components@ == readings.components,
            !refreshes.components_list ==> self.components@ == before.components@,
            refreshes.disks_list ==> self.disks@ == readings.disks,
            !refreshes.disks_list ==> self.disks@ == before.disks@,
            refreshes.users_list ==> self.users@ == readings.users,
            !refreshes.users_list ==> self.users@ == before.users@,
            self.networks == before.networks,
            self.info == before.info,
    {
    }

    /// The memory is what `/proc/meminfo` gives where it is asked for and could be read,
    /// whatever else is asked for, and stays as it was otherwise.
    pub proof fn law_memory_is_refreshed_where_asked(
        self,
        before: System<H>,
        refreshes: RefreshKind,
        readings: ReadingsView<H>,
        share: Option<CpuShare>,
    )
        requires
            self.is_specifics_refresh_of(before, refreshes, readings, share),
        ensures
            refreshes.memory ==> (readings.meminfo matches Some(data) ==> self.memory_read(
                before,
                data,
            )),
            !refreshes.memory || readings.meminfo is None ==> {
                &&& self.mem_total == before.mem_total
                &&& self.mem_free == before.mem_free
                &&& self.mem_available == before.mem_available
                &&& self.mem_buffers == before.mem_buffers
                &&& self.mem_page_cache == before.mem_page_cache
                &&& self.mem_slab_reclaimable == before.mem_slab_reclaimable
                &&& self.swap_total == before.swap_total
                &&& self.swap_free == before.swap_free
            },
    {
        let read = if refreshes.memory {
            before@.after_memory(readings.meminfo)
        } else {
            before@
        };
        lemma_memory_is_read_first(before@, refreshes, readings, read);
    }

    /// The processes are those that their reading came upon where they are asked for,
    /// whatever else is, and stay as they were where they are not. Their usage is measured
    /// against the time between the last two readings of the processors.
    pub proof fn law_processes_are_refreshed_where_asked(
        self,
        before: System<H>,
        refreshes: RefreshKind,
        readings: ReadingsView<H>,
        share: Option<CpuShare>,
        pid: Pid,
    )
        requires
            self.is_specifics_refresh_of(before, refreshes, readings, share),
        ensures
            refreshes.processes is Some ==> {
                &&& self.process_list.tasks@.contains_key(pid) <==> readings.tasks.contains_key(pid)
                    && readings.tasks[pid].updated
                &&& self.process_list.tasks@.contains_key(pid) ==> self.process_list.tasks@[pid]
                    == (Process { updated: false, data: readings.tasks[pid].data })
                &&& self.need_cpus_update
            },
            refreshes.processes is None ==> {
                &&& self.process_list.tasks@ == before.process_list.tasks@
                &&& self.need_cpus_update == (before.need_cpus_update && !(refreshes.cpu is Some
                    && readings.cpus.stat is Some))
            },
            share is Some <==> self.cpus@.len() > 0 && (refreshes.processes matches Some(kind)
                && kind.cpu),
            share matches Some(s) ==> {
                let now = self.global_cpu.values.total();
                let then = self.global_cpu.old_values.total();
                &&& s.cpus == self.cpus@.len()
                &&& then <= now ==> then + s.total_time == now
                &&& then > now ==> s.total_time == 1
            },
    {
        assert(self@.tasks == self.process_list.tasks@);
        assert(before@.tasks == before.process_list.tasks@);
    }

    /// Where the processors are asked for and `/proc/stat` lists them, they are read for
    /// this pass once, whatever else is asked for: all of them together, and each one.
    pub proof fn law_cpus_are_refreshed_where_asked(
        self,
        before: System<H>,
        refreshes: RefreshKind,
        readings: ReadingsView<H>,
        share: Option<CpuShare>,
        kind: CpuRefreshKind,
        stat: Seq<u8>,
        i: int,
    )
        requires
            self.is_specifics_refresh_of(before, refreshes, readings, share),
            refreshes.cpu == Some(kind),
            readings.cpus.stat == Some(stat),
            has_all_cpus_line(stat),
        ensures
            kind.cpu_usage || before.cpus@.len() == 0 ==> {
                &&& self.global_cpu.values == cpu_times(file_lines(stat)[0])
                &&& self.global_cpu.old_values == before.global_cpu.values
            },
            !kind.cpu_usage && before.cpus@.len() > 0 ==> {
                &&& self.global_cpu.values == before.global_cpu.values
                &&& self.global_cpu.old_values == before.global_cpu.old_values
            },
            before.cpus@.len() == 0 ==> {
                &&& self.cpus@.len() == listed_cpus(stat)
                &&& self.global_cpu.vendor_id@ == readings.cpus.vendor_id
                &&& self.global_cpu.brand@ == readings.cpus.brand
                &&& 0 <= i < self.cpus@.len() ==> {
                    &&& self.cpus@[i].values == cpu_times(file_lines(stat)[i + 1])
                    &&& self.cpus@[i].name@ == cpu_name(file_lines(stat)[i + 1])
                    &&& self.cpus@[i].vendor_id@ == readings.cpus.vendor_id
                    &&& self.cpus@[i].brand@ == readings.cpus.brand
                }
            },
            before.cpus@.len() > 0 ==> {
                &&& self.cpus@.len() == before.cpus@.len()
                &&& 0 <= i < self.cpus@.len() ==> self.cpus@[i].name@ == before.cpus@[i].name@
                &&& 0 <= i < self.cpus@.len() && i < listed_cpus(stat) && kind.cpu_usage ==> {
                    &&& self.cpus@[i].values == cpu_times(file_lines(stat)[i + 1])
                    &&& self.cpus@[i].old_values == before.cpus@[i].values
                }
                &&& 0 <= i < self.cpus@.len() && (i >= listed_cpus(stat) || !kind.cpu_usage) ==> {
                    &&& self.cpus@[i].values == before.cpus@[i].values
                    &&& self.cpus@[i].old_values == before.cpus@[i].old_values
                }
            },
            kind.frequency ==> {
                &&& self.got_cpu_frequency
                &&& self.global_cpu.frequency == greatest(readings.frequencies)
                &&& 0 <= i < self.cpus@.len() ==> self.cpus@[i].frequency
                    == readings.frequencies[i]
            },
            !kind.frequency ==> {
                &&& self.got_cpu_frequency == before.got_cpu_frequency
                &&& self.global_cpu.frequency == before.global_cpu.frequency
                &&& 0 <= i < self.cpus@.len() && before.cpus@.len() > 0
                    ==> self.cpus@[i].frequency == before.cpus@[i].frequency
            },
    {
        self.lemma_views(i);
        before.lemma_views(i);
    }

    /// Where the processors are not asked for, or `/proc/stat` could not be opened, they are
    /// read only for the processes: where the usage by these is asked for, and they have
    /// not been read since the processes last were. Otherwise they stay as they were. Their
    /// frequencies stay in either case.
    pub proof fn law_cpus_not_asked_for_are_read_for_the_processes(
        self,
        before: System<H>,
        refreshes: RefreshKind,
        readings: ReadingsView<H>,
        share: Option<CpuShare>,
        stat: Seq<u8>,
        i: int,
    )
        requires
            self.is_specifics_refresh_of(before, refreshes, readings, share),
            refreshes.cpu is None || readings.cpus.stat is None,
        ensures
            self.got_cpu_frequency == before.got_cpu_frequency,
            refreshes.process_usage() && before.need_cpus_update && readings.process_cpus.stat
                == Some(stat) && has_all_cpus_line(stat) ==> {
                &&& self.global_cpu.values == cpu_times(file_lines(stat)[0])
                &&& self.global_cpu.old_values == before.global_cpu.values
                &&& self.global_cpu.frequency == before.global_cpu.frequency
                &&& before.cpus@.len() == 0 ==> self.cpus@.len() == listed_cpus(stat)
                &&& before.cpus@.len() == 0 && 0 <= i < self.cpus@.len() ==> self.cpus@[i].values
                    == cpu_times(file_lines(stat)[i + 1])
                &&& before.cpus@.len() > 0 ==> self.cpus@.len() == before.cpus@.len()
                &&& before.cpus@.len() > 0 && 0 <= i < self.cpus@.len() ==> self.cpus@[i]@
                    == before.cpus@[i]@
            },
            !refreshes.process_usage() || !before.need_cpus_update || readings.process_cpus.stat
                is None ==> {
                &&& self.global_cpu@ == before.global_cpu@
                &&& self.cpus@.len() == before.cpus@.len()
                &&& 0 <= i < self.cpus@.len() ==> self.cpus@[i]@ == before.cpus@[i]@
            },
    {
        self.lemma_views(i);
        before.lemma_views(i);
    }

    proof fn lemma_views(self, i: int)
        ensures
            self@.cpus.len() == self.cpus@.len(),
            0 <= i < self.cpus@.len() ==> self@.cpus[i] == self.cpus@[i]@,
            self@.global_cpu == self.global_cpu@,
    {
    }

    /// The processors are read again for the processes just where the usage by these is
    /// asked for, nobody has read them since the processes last were, and this pass does
    /// not read them anyway.
    pub proof fn law_when_cpus_are_read_again(
        self,
        refreshes: RefreshKind,
        kind: ProcessRefreshKind,
        reading: CpuReadingView,
    )
        ensures
            self@.cpus_read_again(refreshes, reading) ==> self.need_cpus_update
                && refreshes.processes is Some && (refreshes.cpu is None || reading.stat is None),
            self.need_cpus_update && refreshes.processes == Some(kind) && kind.cpu && (
            refreshes.cpu is None || reading.stat is None) ==> self@.cpus_read_again(
                refreshes,
                reading,
            ),
            refreshes.processes == Some(kind) && !kind.cpu ==> !self@.cpus_read_again(
                refreshes,
                reading,
            ),
    {
    }

    /// Readings can be used where `/proc/stat` could not be opened, and where neither the
    /// processors nor the usage by the processes is asked for; and where `/proc/stat` can be
    /// read and there is a frequency for each processor that will be known.
    pub proof fn law_which_readings_can_be_used(
        self,
        refreshes: RefreshKind,
        readings: ReadingsView<H>,
        kind: CpuRefreshKind,
        stat: Seq<u8>,
    )
        ensures
            readings.cpus.stat is None && readings.process_cpus.stat is None
                ==> self@.readings_usable(refreshes, readings),
            refreshes.cpu is None && !refreshes.process_usage() ==> self@.readings_usable(
                refreshes,
                readings,
            ),
            refreshes.cpu == Some(kind) && readings.cpus.stat == Some(stat) && stat_usable(
                stat,
                self.cpus@.len(),
                false,
                kind.cpu_usage,
            ) && !kind.frequency ==> self@.readings_usable(refreshes, readings),
            refreshes.cpu == Some(kind) && readings.cpus.stat == Some(stat) && stat_usable(
                stat,
                self.cpus@.len(),
                false,
                kind.cpu_usage,
            ) && readings.frequencies.len() == (if self.cpus@.len() == 0 {
                listed_cpus(stat)
            } else {
                self.cpus@.len()
            }) ==> self@.readings_usable(refreshes, readings),
            refreshes.cpu is None && readings.process_cpus.stat == Some(stat) && stat_usable(
                stat,
                self.cpus@.len(),
                true,
                true,
            ) ==> self@.readings_usable(refreshes, readings),
    {
        self.lemma_views(0);
    }

    /// Whether a pass reads the processors for the processes. `reading` is what has been
    /// read for the refresh of the processors, if that is asked for.
    pub fn reads_cpus_again(&self, refreshes: RefreshKind, reading: CpuReading) -> (r: bool)
        ensures
            r == self@.cpus_read_again(refreshes, reading@),
    {
        match refreshes.processes {
            Some(kind) => kind.cpu() && self.need_cpus_update && !(refreshes.cpu.is_some()
                && reading.stat.is_some()),
            None => false,
        }
    }

    /// Whether [`System::refresh_specifics`] can use what has been read for it.
    pub fn can_refresh_specifics(
        &self,
        refreshes: RefreshKind,
        readings: &Readings<'_, H>,
    ) -> (r: bool)
        ensures
            r == self@.readings_usable(refreshes, readings@),
    {
        assert(cpu_views(self.cpus@).len() == self.cpus@.len());
        if let Some(kind) = refreshes.cpu {
            if !self.can_refresh_cpus(false, kind, readings.cpus) {
                return false;
            }
            if let Some(n) = self.frequencies_to_read(kind, readings.cpus) {
                if readings.frequencies.len() != n {
                    return false;
                }
            }
        }
        !self.reads_cpus_again(refreshes, readings.cpus) || self.can_refresh_cpus(
            true,
            CpuRefreshKind::new().with_cpu_usage(),
            readings.process_cpus,
        )
    }

    /// Refreshes the processors, and their frequencies where the refresh wants them.
    fn take_cpus(&mut self, refresh_kind: CpuRefreshKind, reading: CpuReading, frequencies: &[u64])
        requires
            old(self).reading_usable(false, refresh_kind.cpu_usage, reading),
            wants_frequencies(old(self)@.cpus.len() == 0, refresh_kind, reading@.stat)
                ==> frequencies@.len() == old(self)@.after_cpus(
                false,
                refresh_kind.cpu_usage,
                reading@,
            ).cpus.len(),
        ensures
            final(self)@ == old(self)@.after_cpu_specifics(refresh_kind, reading@, frequencies@),
    {
        let ghost before = *self;
        assert(before@.cpus.len() == before.cpus@.len());
        let wanted = self.refresh_cpu_specifics(refresh_kind, reading);
        let ghost read = *self;
        assert(read@ == before@.after_cpus(false, refresh_kind.cpu_usage, reading@));
        assert(read@.cpus.len() == read.cpus@.len());
        if wanted {
            self.set_cpu_frequencies(frequencies);
            proof {
                lemma_greatest(frequencies@, self.global_cpu.frequency);
                assert(self@.cpus =~= read@.after_frequencies(frequencies@).cpus);
                assert(self@ == read@.after_frequencies(frequencies@));
            }
        }
    }

    /// Refreshes the processes. Gives what their usage is to be measured against.
    fn take_processes(
        &mut self,
        refresh_kind: ProcessRefreshKind,
        tasks: HashMap<Pid, Process<H::Process>>,
        reading: CpuReading,
    ) -> (share: Option<CpuShare>)
        requires
            refresh_kind.cpu && old(self).need_cpus_update ==> old(self).reading_usable(
                true,
                true,
                reading,
            ),
        ensures
            final(self)@ == old(self)@.after_processes(refresh_kind, tasks@, reading@),
            final(self).is_share_of_time(refresh_kind.cpu, share),
    {
        let ghost before = *self;
        assert(before@.cpus.len() == before.cpus@.len());
        self.refresh_processes_specifics(refresh_kind, tasks, reading)
    }

    /// Refreshes everything that is asked for from what has been read. Gives what the
    /// usage of the processes is to be measured against, if it is asked for and there is
    /// a processor.
    pub fn refresh_specifics(
        &mut self,
        refreshes: RefreshKind,
        readings: Readings<'_, H>,
    ) -> (share: Option<CpuShare>)
        requires
            old(self)@.readings_usable(refreshes, readings@),
        ensures
            final(self).is_specifics_refresh_of(*old(self), refreshes, readings@, share),
    {
        assert(self@.cpus.len() == self.cpus@.len());
        if refreshes.memory {
            let ghost before = *self;
            self.refresh_memory(readings.meminfo);
            assert(self@ == before@.after_memory(readings@.meminfo));
        }
        if let Some(kind) = refreshes.cpu {
            self.take_cpus(kind, readings.cpus, readings.frequencies.as_slice());
        }
        if refreshes.components_list {
            self.refresh_components_list(readings.components);
        }
        let mut share: Option<CpuShare> = None;
        if let Some(kind) = refreshes.processes {
            assert(self@.cpus.len() == self.cpus@.len());
            share = self.take_processes(kind, readings.tasks, readings.process_cpus);
        }
        if refreshes.disks_list {
            self.refresh_disks_list(readings.disks);
        }
        if refreshes.users_list {
            self.refresh_users_list(readings.users);
        }
        share
    }

    /// A system whose processes, memory, processors and the rest are unknown but for what
    /// is asked for, which is refreshed from what has been read. Gives, with it, what the
    /// usage of the processes is to be measured against, if it is asked for and there is
    /// a processor.
    pub fn new_with_specifics(
        info: SystemInfo,
        networks: H::Networks,
        refreshes: RefreshKind,
        readings: Readings<'_, H>,
    ) -> (r: (System<H>, Option<CpuShare>))
        requires
            SystemView::<H>::unread(info, networks).readings_usable(refreshes, readings@),
        ensures
            r.0.is_new_with_specifics(info, networks, refreshes, readings@, r.1),
    {
        let mut s = System::unread(info, networks);
        let share = s.refresh_specifics(refreshes, readings);
        (s, share)
    }
}

} // verus!
