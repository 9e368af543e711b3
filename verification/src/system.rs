//! The state of the system as it was last read.
use crate::cpu::{cpu_views, Cpu, CpuTimes, CpuView};
use crate::process::{Pid, Process, ProcessList};
use crate::stat::{as_unsigned, unsigned};
use std::cmp::Ordering;
use std::collections::HashMap;
use vstd::arithmetic::div_mod::lemma_fundamental_div_mod;
use vstd::prelude::*;

verus! {

broadcast use vstd::std_specs::hash::group_hash_axioms;

/// Whether the system can be read at all.
pub const IS_SUPPORTED: bool = true;

/// What the parts of the system that are carried along unread consist of.
pub trait Host {
    /// What is kept of a process.
    type Process;

    /// A part whose temperature can be read.
    type Component;

    type Disk;

    type Networks;

    type User;
}

/// What holds for as long as the system runs.
#[derive(Clone, Copy, Debug, PartialEq, Eq, Structural)]
pub struct SystemInfo {
    pub page_size_kb: u64,
    pub clock_cycle: u64,
    pub boot_time: u64,
}

/// A signed number divided by a positive one, rounded toward zero.
pub open spec fn truncated_quotient(a: int, b: int) -> int {
    if a >= 0 {
        a / b
    } else {
        -((-a) / b)
    }
}

/// The size of a page in KiB, as an unsigned number.
pub open spec fn page_size_in_kib(page_size: i64) -> int {
    as_unsigned(truncated_quotient(page_size as int, 1024) as i64)
}

/// A page is as many KiB as fit into it. A size that could not be had is taken as none,
/// and any other that is negative wraps.
pub proof fn law_page_size_in_kib(page_size: i64)
    ensures
        page_size >= 0 ==> page_size_in_kib(page_size) * 1024 <= page_size < (page_size_in_kib(
            page_size,
        ) + 1) * 1024,
        page_size <= -1024 ==> ({
            let kib = page_size_in_kib(page_size) - u64::MAX - 1;
            kib < 0 && (kib - 1) * 1024 < page_size <= kib * 1024
        }),
        -1024 < page_size < 0 ==> page_size_in_kib(page_size) == 0,
{
}

/// The quotient times the divisor falls short of the number by less than the divisor, on
/// the side of zero.
pub proof fn law_truncated_quotient(a: int, b: int)
    requires
        b > 0,
    ensures
        a >= 0 ==> 0 <= a - truncated_quotient(a, b) * b < b,
        a <= 0 ==> -b < a - truncated_quotient(a, b) * b <= 0,
{
    if a >= 0 {
        lemma_fundamental_div_mod(a, b);
        let q = a / b;
        assert(q * b == b * q) by (nonlinear_arith);
    } else {
        lemma_fundamental_div_mod(-a, b);
        let q = (-a) / b;
        assert((-q) * b == -(b * q)) by (nonlinear_arith);
    }
}

impl SystemInfo {
    /// From the page size in bytes and the clock ticks in a second, as the system
    /// configuration gives them, and the boot time in seconds since the epoch.
    pub fn new(page_size: i64, clock_ticks: i64, boot_time: u64) -> (r: SystemInfo)
        ensures
            r.page_size_kb == page_size_in_kib(page_size),
            r.clock_cycle == as_unsigned(clock_ticks),
            r.boot_time == boot_time,
    {
        SystemInfo {
            page_size_kb: unsigned(page_size / 1024),
            clock_cycle: unsigned(clock_ticks),
            boot_time,
        }
    }
}

/// The state of the system as it was last read.
pub struct System<H: Host> {
    pub process_list: ProcessList<H::Process>,
    pub mem_total: u64,
    pub mem_free: u64,
    pub mem_available: u64,
    pub mem_buffers: u64,
    pub mem_page_cache: u64,
    pub mem_slab_reclaimable: u64,
    pub swap_total: u64,
    pub swap_free: u64,
    pub global_cpu: Cpu,
    pub cpus: Vec<Cpu>,
    pub components: Vec<H::Component>,
    pub disks: Vec<H::Disk>,
    pub networks: H::Networks,
    pub users: Vec<H::User>,
    /// Cleared when the processors have been read and set when the processes have
    /// been, so that reading the processes reads the processors no more often than
    /// is needed.
    pub need_cpus_update: bool,
    pub info: SystemInfo,
    pub got_cpu_frequency: bool,
}

/// What a [`System`] says.
#[verifier::ext_equal]
pub struct SystemView<H: Host> {
    pub tasks: Map<Pid, Process<H::Process>>,
    pub mem_total: u64,
    pub mem_free: u64,
    pub mem_available: u64,
    pub mem_buffers: u64,
    pub mem_page_cache: u64,
    pub mem_slab_reclaimable: u64,
    pub swap_total: u64,
    pub swap_free: u64,
    pub global_cpu: CpuView,
    pub cpus: Seq<CpuView>,
    pub components: Seq<H::Component>,
    pub disks: Seq<H::Disk>,
    pub networks: H::Networks,
    pub users: Seq<H::User>,
    pub need_cpus_update: bool,
    pub info: SystemInfo,
    pub got_cpu_frequency: bool,
}

impl<H: Host> View for System<H> {
    type V = SystemView<H>;

    open spec fn view(&self) -> SystemView<H> {
        SystemView {
            tasks: self.process_list.tasks@,
            mem_total: self.mem_total,
            mem_free: self.mem_free,
            mem_available: self.mem_available,
            mem_buffers: self.mem_buffers,
            mem_page_cache: self.mem_page_cache,
            mem_slab_reclaimable: self.mem_slab_reclaimable,
            swap_total: self.swap_total,
            swap_free: self.swap_free,
            global_cpu: self.global_cpu@,
            cpus: cpu_views(self.cpus@),
            components: self.components@,
            disks: self.disks@,
            networks: self.networks,
            users: self.users@,
            need_cpus_update: self.need_cpus_update,
            info: self.info,
            got_cpu_frequency: self.got_cpu_frequency,
        }
    }
}

impl<H: Host> System<H> {
    /// What a system says is all that is kept of it.
    pub proof fn law_a_view_says_everything(self)
        ensures
            self@.tasks == self.process_list.tasks@,
            self@.mem_total == self.mem_total,
            self@.mem_free == self.mem_free,
            self@.mem_available == self.mem_available,
            self@.mem_buffers == self.mem_buffers,
            self@.mem_page_cache == self.mem_page_cache,
            self@.mem_slab_reclaimable == self.mem_slab_reclaimable,
            self@.swap_total == self.swap_total,
            self@.swap_free == self.swap_free,
            self@.global_cpu == self.global_cpu@,
            self@.cpus == cpu_views(self.cpus@),
            self@.components == self.components@,
            self@.disks == self.disks@,
            self@.networks == self.networks,
            self@.users == self.users@,
            self@.need_cpus_update == self.need_cpus_update,
            self@.info == self.info,
            self@.got_cpu_frequency == self.got_cpu_frequency,
    {
    }
}

impl<H: Host> SystemView<H> {
    /// A system of which nothing has been read but what holds for as long as it runs,
    /// and its networks.
    pub open spec fn unread(info: SystemInfo, networks: H::Networks) -> SystemView<H> {
        SystemView {
            tasks: Map::empty(),
            mem_total: 0,
            mem_free: 0,
            mem_available: 0,
            mem_buffers: 0,
            mem_page_cache: 0,
            mem_slab_reclaimable: 0,
            swap_total: 0,
            swap_free: 0,
            global_cpu: CpuView {
                name: seq![],
                values: CpuTimes::zero(),
                old_values: CpuTimes::zero(),
                frequency: 0,
                vendor_id: seq![],
                brand: seq![],
            },
            cpus: seq![],
            components: seq![],
            disks: seq![],
            networks,
            users: seq![],
            need_cpus_update: true,
            info,
            got_cpu_frequency: false,
        }
    }
}

/// The order that `compare` puts two items in is never in doubt, and is a total one:
/// turned around, it is the reverse, and what is not after a second item that is not
/// after a third is not after the third.
pub open spec fn orders_totally<D, F: Fn(&D, &D) -> Ordering>(compare: F) -> bool {
    &&& forall|a: &D, b: &D| #[trigger] compare.requires((a, b))
    &&& forall|a: &D, b: &D, x: Ordering, y: Ordering|
        #[trigger] compare.ensures((a, b), x) && #[trigger] compare.ensures((a, b), y) ==> x == y
    &&& forall|a: &D, b: &D, x: Ordering, y: Ordering|
        #[trigger] compare.ensures((a, b), x) && #[trigger] compare.ensures((b, a), y) ==> (x
            is Less <==> y is Greater)
    &&& forall|a: &D, b: &D, c: &D, x: Ordering, y: Ordering, z: Ordering|
        #[trigger] compare.ensures((a, b), x) && #[trigger] compare.ensures((b, c), y)
            && #[trigger] compare.ensures((a, c), z) && !(x is Greater) && !(y is Greater) ==> !(z
            is Greater)
}

/// `slice::sort_unstable_by`: the items are the same, put in the order of `compare`.
/// Which of two that it holds equal comes first is left open. It may panic where the
/// order is not total.
#[verifier::external_body]
fn sort_unstable_by<D, F: Fn(&D, &D) -> Ordering>(items: &mut Vec<D>, compare: F)
    requires
        orders_totally(compare),
    ensures
        final(items)@.to_multiset() == old(items)@.to_multiset(),
        forall|i: int, j: int, x: Ordering|
            0 <= i < j < final(items)@.len() && #[trigger] compare.ensures(
                (&final(items)@[i], &final(items)@[j]),
                x,
            ) ==> !(x is Greater),
{
    items.sort_unstable_by(compare);
}

impl<H: Host> System<H> {
    /// A system of which nothing has been read but what holds for as long as it runs,
    /// and its networks.
    pub(crate) fn unread(info: SystemInfo, networks: H::Networks) -> (r: System<H>)
        ensures
            r@ == SystemView::<H>::unread(info, networks),
    {
        System {
            process_list: ProcessList::new(),
            mem_total: 0,
            mem_free: 0,
            mem_available: 0,
            mem_buffers: 0,
            mem_page_cache: 0,
            mem_slab_reclaimable: 0,
            swap_total: 0,
            swap_free: 0,
            global_cpu: Cpu::new_with_values(
                String::new(),
                CpuTimes::zero(),
                0,
                String::new(),
                String::new(),
            ),
            cpus: Vec::with_capacity(4),
            components: Vec::new(),
            disks: Vec::with_capacity(2),
            networks,
            users: Vec::new(),
            need_cpus_update: true,
            info,
            got_cpu_frequency: false,
        }
    }

    /// Takes the components that have been found.
    pub fn refresh_components_list(&mut self, components: Vec<H::Component>)
        ensures
            *final(self) == (System { components, ..*old(self) }),
    {
        self.components = components;
    }

    /// Takes the disks that have been found.
    pub fn refresh_disks_list(&mut self, disks: Vec<H::Disk>)
        ensures
            *final(self) == (System { disks, ..*old(self) }),
    {
        self.disks = disks;
    }

    /// Takes the users that have been found.
    pub fn refresh_users_list(&mut self, users: Vec<H::User>)
        ensures
            *final(self) == (System { users, ..*old(self) }),
    {
        self.users = users;
    }

    /// The processes, by their number.
    pub fn processes(&self) -> (r: &HashMap<Pid, Process<H::Process>>)
        ensures
            *r == self.process_list.tasks,
    {
        &self.process_list.tasks
    }

    /// The process with this number, if it is known.
    pub fn process(&self, pid: Pid) -> (r: Option<&Process<H::Process>>)
        ensures
            r is Some == self.process_list.tasks@.contains_key(pid),
            r matches Some(process) ==> *process == self.process_list.tasks@[pid],
    {
        self.process_list.tasks.get(&pid)
    }

    /// The networks.
    pub fn networks(&self) -> (r: &H::Networks)
        ensures
            *r == self.networks,
    {
        &self.networks
    }

    /// The networks, to be changed.
    pub fn networks_mut(&mut self) -> (r: &mut H::Networks)
        ensures
            *r == old(self).networks,
            *final(self) == (System { networks: *final(r), ..*old(self) }),
    {
        &mut self.networks
    }

    /// All processors together.
    pub fn global_cpu_info(&self) -> (r: &Cpu)
        ensures
            *r == self.global_cpu,
    {
        &self.global_cpu
    }

    /// The processors.
    pub fn cpus(&self) -> (r: &[Cpu])
        ensures
            r@ == self.cpus@,
    {
        self.cpus.as_slice()
    }

    /// The components.
    pub fn components(&self) -> (r: &[H::Component])
        ensures
            r@ == self.components@,
    {
        self.components.as_slice()
    }

    /// The components, to be changed.
    pub fn components_mut(&mut self) -> (r: &mut [H::Component])
        ensures
            r@ == old(self).components@,
            final(self).components@ == final(r)@,
            *final(self) == (System { components: final(self).components, ..*old(self) }),
    {
        self.components.as_mut_slice()
    }

    /// The disks.
    pub fn disks(&self) -> (r: &[H::Disk])
        ensures
            r@ == self.disks@,
    {
        self.disks.as_slice()
    }

    /// The disks, to be changed.
    pub fn disks_mut(&mut self) -> (r: &mut [H::Disk])
        ensures
            r@ == old(self).disks@,
            final(self).disks@ == final(r)@,
            *final(self) == (System { disks: final(self).disks, ..*old(self) }),
    {
        self.disks.as_mut_slice()
    }

    /// Puts the disks in the order of `compare`.
    pub fn sort_disks_by<F: Fn(&H::Disk, &H::Disk) -> Ordering>(&mut self, compare: F)
        requires
            orders_totally(compare),
        ensures
            final(self).disks@.to_multiset() == old(self).disks@.to_multiset(),
            forall|i: int, j: int, x: Ordering|
                0 <= i < j < final(self).disks@.len() && #[trigger] compare.ensures(
                    (&final(self).disks@[i], &final(self).disks@[j]),
                    x,
                ) ==> !(x is Greater),
            *final(self) == (System { disks: final(self).disks, ..*old(self) }),
    {
        sort_unstable_by(&mut self.disks, compare);
    }

    /// The users.
    pub fn users(&self) -> (r: &[H::User])
        ensures
            r@ == self.users@,
    {
        self.users.as_slice()
    }
}

} // verus!
