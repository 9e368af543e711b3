//! What is known of one processor, or of all of them together.
use vstd::prelude::*;

verus! {

/// The counters of a `cpu` line of `/proc/stat`, in clock ticks, in the order in
/// which the kernel lists them.
#[derive(Clone, Copy, Debug, PartialEq, Eq, Structural)]
pub struct CpuTimes {
    pub user: u64,
    pub nice: u64,
    pub system: u64,
    pub idle: u64,
    pub iowait: u64,
    pub irq: u64,
    pub softirq: u64,
    pub steal: u64,
    pub guest: u64,
    pub guest_nice: u64,
}

/// The difference, or zero where it would be negative.
pub open spec fn less(a: u64, b: u64) -> nat {
    if a >= b {
        (a - b) as nat
    } else {
        0
    }
}

impl CpuTimes {
    /// The time that all the counters make together. The kernel counts guest time
    /// in `user` and in `nice` as well, where it is left out.
    pub open spec fn sum(self) -> nat {
        less(self.user, self.guest) + less(self.nice, self.guest_nice) + self.system as nat
            + self.irq as nat + self.softirq as nat + self.idle as nat + self.iowait as nat
            + self.guest as nat + self.guest_nice as nat + self.steal as nat
    }

    /// The sum, held at the greatest number that a counter can show.
    pub open spec fn total(self) -> nat {
        if self.sum() <= u64::MAX {
            self.sum()
        } else {
            u64::MAX as nat
        }
    }

    /// No time spent.
    pub open spec fn spec_zero() -> CpuTimes {
        CpuTimes {
            user: 0,
            nice: 0,
            system: 0,
            idle: 0,
            iowait: 0,
            irq: 0,
            softirq: 0,
            steal: 0,
            guest: 0,
            guest_nice: 0,
        }
    }

    /// No time spent.
    #[verifier::when_used_as_spec(spec_zero)]
    pub fn zero() -> (r: CpuTimes)
        ensures
            r == CpuTimes::zero(),
    {
        CpuTimes {
            user: 0,
            nice: 0,
            system: 0,
            idle: 0,
            iowait: 0,
            irq: 0,
            softirq: 0,
            steal: 0,
            guest: 0,
            guest_nice: 0,
        }
    }

    /// The time that all the counters make together.
    pub fn total_time(&self) -> (r: u64)
        ensures
            r == self.total(),
    {
        self.user.saturating_sub(self.guest).saturating_add(
            self.nice.saturating_sub(self.guest_nice),
        ).saturating_add(self.system).saturating_add(self.irq).saturating_add(
            self.softirq,
        ).saturating_add(self.idle).saturating_add(self.iowait).saturating_add(
            self.guest,
        ).saturating_add(self.guest_nice).saturating_add(self.steal)
    }
}

/// Guest time is counted once: it is a part of the user and nice times, so where these
/// hold it, the total is all the other counters together, held at the greatest number
/// that a counter can show.
pub proof fn law_guest_time_counts_once(t: CpuTimes)
    requires
        t.guest <= t.user,
        t.guest_nice <= t.nice,
    ensures
        ({
            let all = t.user + t.nice + t.system + t.idle + t.iowait + t.irq + t.softirq + t.steal;
            t.total() == if all <= u64::MAX {
                all
            } else {
                u64::MAX as int
            }
        }),
{
}

/// Guest time that the user or the nice time does not hold counts in its place.
pub proof fn law_guest_time_is_not_lost(t: CpuTimes)
    ensures
        t.user < t.guest ==> t.total() == (CpuTimes { user: t.guest, ..t }).total(),
        t.nice < t.guest_nice ==> t.total() == (CpuTimes { nice: t.guest_nice, ..t }).total(),
{
}

/// No time in all is no time in any counter.
pub proof fn law_no_time_spent(t: CpuTimes)
    ensures
        t.total() == 0 <==> t == CpuTimes::zero(),
        t.total() == 0 ==> t.user == 0 && t.nice == 0 && t.system == 0 && t.idle == 0 && t.iowait
            == 0 && t.irq == 0 && t.softirq == 0 && t.steal == 0 && t.guest == 0 && t.guest_nice
            == 0,
{
}

/// A processor, or all of them together.
#[derive(Debug)]
pub struct Cpu {
    /// The name that the kernel lists it by.
    pub name: String,
    /// The counters as they were last read.
    pub values: CpuTimes,
    /// The counters as they were read the time before.
    pub old_values: CpuTimes,
    /// In MHz.
    pub frequency: u64,
    pub vendor_id: String,
    pub brand: String,
}

/// What a [`Cpu`] says.
pub struct CpuView {
    pub name: Seq<char>,
    pub values: CpuTimes,
    pub old_values: CpuTimes,
    pub frequency: u64,
    pub vendor_id: Seq<char>,
    pub brand: Seq<char>,
}

impl CpuView {
    /// The same processor once its counters have been read anew.
    pub open spec fn after_set(self, times: CpuTimes) -> CpuView {
        CpuView { values: times, old_values: self.values, ..self }
    }
}

impl View for Cpu {
    type V = CpuView;

    open spec fn view(&self) -> CpuView {
        CpuView {
            name: self.name@,
            values: self.values,
            old_values: self.old_values,
            frequency: self.frequency,
            vendor_id: self.vendor_id@,
            brand: self.brand@,
        }
    }
}

/// What each of the processors says.
pub open spec fn cpu_views(cpus: Seq<Cpu>) -> Seq<CpuView> {
    Seq::new(cpus.len(), |i: int| cpus[i]@)
}

/// Counters read anew take the place of those before, which become the old ones; what
/// the processor is stays.
pub proof fn law_set_moves_the_counters_on(cpu: CpuView, times: CpuTimes, next: CpuTimes)
    ensures
        cpu.after_set(times).values == times,
        cpu.after_set(times).old_values == cpu.values,
        cpu.after_set(times).after_set(next).old_values == times,
        cpu.after_set(times).name == cpu.name,
        cpu.after_set(times).frequency == cpu.frequency,
        cpu.after_set(times).vendor_id == cpu.vendor_id,
        cpu.after_set(times).brand == cpu.brand,
{
}

/// What a processor says is all that is kept of it, and what processors say is what each
/// of them says, in order.
pub proof fn law_a_view_says_everything(cpu: Cpu, cpus: Seq<Cpu>, i: int)
    requires
        0 <= i < cpus.len(),
    ensures
        cpu@.name == cpu.name@,
        cpu@.values == cpu.values,
        cpu@.old_values == cpu.old_values,
        cpu@.frequency == cpu.frequency,
        cpu@.vendor_id == cpu.vendor_id@,
        cpu@.brand == cpu.brand@,
        cpu_views(cpus).len() == cpus.len(),
        cpu_views(cpus)[i] == cpus[i]@,
{
}

impl Cpu {
    /// A processor whose counters have been read once.
    pub fn new_with_values(
        name: String,
        values: CpuTimes,
        frequency: u64,
        vendor_id: String,
        brand: String,
    ) -> (r: Cpu)
        ensures
            r@ == (CpuView {
                name: name@,
                values,
                old_values: CpuTimes::zero(),
                frequency,
                vendor_id: vendor_id@,
                brand: brand@,
            }),
    {
        Cpu { name, values, old_values: CpuTimes::zero(), frequency, vendor_id, brand }
    }

    /// Takes the counters as they have been read anew.
    pub fn set(&mut self, values: CpuTimes)
        ensures
            final(self)@ == old(self)@.after_set(values),
    {
        self.old_values = self.values;
        self.values = values;
    }
}

/// The total time of the last reading, and that of the reading before.
pub fn get_raw_times(cpu: &Cpu) -> (r: (u64, u64))
    ensures
        r.0 == cpu.values.total(),
        r.1 == cpu.old_values.total(),
{
    (cpu.values.total_time(), cpu.old_values.total_time())
}

/// What a refresh of the processors is to bring up to date.
#[derive(Clone, Copy, Debug, PartialEq, Eq, Structural)]
pub struct CpuRefreshKind {
    pub cpu_usage: bool,
    pub frequency: bool,
}

impl CpuRefreshKind {
    /// Nothing.
    pub fn new() -> (r: CpuRefreshKind)
        ensures
            r == (CpuRefreshKind { cpu_usage: false, frequency: false }),
    {
        CpuRefreshKind { cpu_usage: false, frequency: false }
    }

    /// The usage as well.
    pub fn with_cpu_usage(self) -> (r: CpuRefreshKind)
        ensures
            r == (CpuRefreshKind { cpu_usage: true, ..self }),
    {
        CpuRefreshKind { cpu_usage: true, frequency: self.frequency }
    }

    /// The frequency as well.
    pub fn with_frequency(self) -> (r: CpuRefreshKind)
        ensures
            r == (CpuRefreshKind { frequency: true, ..self }),
    {
        CpuRefreshKind { cpu_usage: self.cpu_usage, frequency: true }
    }

    /// Whether the usage is asked for.
    pub fn cpu_usage(&self) -> (r: bool)
        ensures
            r == self.cpu_usage,
    {
        self.cpu_usage
    }

    /// Whether the frequency is asked for.
    pub fn frequency(&self) -> (r: bool)
        ensures
            r == self.frequency,
    {
        self.frequency
    }
}

} // verus!
