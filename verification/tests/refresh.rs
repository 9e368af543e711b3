use std::collections::HashMap;
use sysinfo::cpu::CpuRefreshKind;
use sysinfo::cpu_refresh::CpuReading;
use sysinfo::process::{Process, ProcessRefreshKind};
use sysinfo::process_refresh::CpuShare;
use sysinfo::refresh::{Readings, RefreshKind};
use sysinfo::system::{Host, System, SystemInfo};

struct Named;

impl Host for Named {
    type Process = &'static str;
    type Component = u8;
    type Disk = u32;
    type Networks = Vec<u8>;
    type User = &'static str;
}

const STAT: &[u8] = b"cpu  100\ncpu0 60\ncpu1 40\nintr\n";
const NEXT_STAT: &[u8] = b"cpu  150\ncpu0 80\ncpu1 70\nintr\n";
const MEMINFO: &str = "MemTotal: 1000 kB\nMemFree: 125 kB\n";

fn reading(stat: &'static [u8]) -> CpuReading<'static> {
    CpuReading { stat: Some(stat), vendor_id: "v", brand: "b" }
}

fn readings() -> Readings<'static, Named> {
    let mut tasks = HashMap::new();
    tasks.insert(1, Process { updated: true, data: "init" });
    tasks.insert(2, Process { updated: false, data: "gone" });
    Readings {
        meminfo: Some(MEMINFO),
        cpus: reading(STAT),
        frequencies: vec![1800, 2400],
        components: vec![3, 4],
        tasks,
        process_cpus: reading(NEXT_STAT),
        disks: vec![8],
        users: vec!["root"],
    }
}

fn everything() -> RefreshKind {
    RefreshKind {
        memory: true,
        cpu: Some(CpuRefreshKind::new().with_cpu_usage().with_frequency()),
        components_list: true,
        processes: Some(ProcessRefreshKind { cpu: true }),
        disks_list: true,
        users_list: true,
    }
}

fn made(refreshes: RefreshKind) -> (System<Named>, Option<CpuShare>) {
    System::new_with_specifics(SystemInfo::new(4096, 100, 7), vec![1, 2], refreshes, readings())
}

fn bare() -> System<Named> {
    made(RefreshKind::new()).0
}

fn refreshed(refreshes: RefreshKind) -> (System<Named>, Option<CpuShare>) {
    let mut s = bare();
    let share = s.refresh_specifics(refreshes, readings());
    (s, share)
}

fn assert_same(a: &System<Named>, b: &System<Named>) {
    assert_eq!(a.processes().len(), b.processes().len());
    for (pid, process) in a.processes() {
        let other = b.process(*pid).unwrap();
        assert_eq!((process.updated, process.data), (other.updated, other.data));
    }
    assert_eq!(a.total_memory(), b.total_memory());
    assert_eq!(a.free_memory(), b.free_memory());
    assert_eq!(a.available_memory(), b.available_memory());
    assert_eq!(a.mem_buffers, b.mem_buffers);
    assert_eq!(a.mem_page_cache, b.mem_page_cache);
    assert_eq!(a.mem_slab_reclaimable, b.mem_slab_reclaimable);
    assert_eq!(a.total_swap(), b.total_swap());
    assert_eq!(a.free_swap(), b.free_swap());
    assert_eq!(format!("{:?}", a.global_cpu_info()), format!("{:?}", b.global_cpu_info()));
    assert_eq!(format!("{:?}", a.cpus()), format!("{:?}", b.cpus()));
    assert_eq!(a.components(), b.components());
    assert_eq!(a.disks(), b.disks());
    assert_eq!(a.networks(), b.networks());
    assert_eq!(a.users(), b.users());
    assert_eq!(a.need_cpus_update, b.need_cpus_update);
    assert_eq!(a.info, b.info);
    assert_eq!(a.got_cpu_frequency, b.got_cpu_frequency);
}

#[test]
fn making_is_refreshing() {
    let kinds = [
        RefreshKind::new(),
        everything(),
        RefreshKind { memory: true, ..RefreshKind::new() },
        RefreshKind { cpu: None, ..everything() },
        RefreshKind { processes: None, ..everything() },
        RefreshKind { cpu: Some(CpuRefreshKind::new()), ..RefreshKind::new() },
    ];
    for kind in kinds {
        let (a, a_share) = made(kind);
        let (b, b_share) = refreshed(kind);
        assert_same(&a, &b);
        assert_eq!(a_share, b_share);
    }
}

#[test]
fn everything_can_be_refreshed_at_once() {
    let (s, share) = made(everything());
    assert_eq!(share, Some(CpuShare { total_time: 100, cpus: 2 }));
    assert_eq!(s.total_memory(), 1024);
    assert_eq!(s.free_memory(), 128);
    // The processors are read once, for both the refresh of them and of the processes.
    assert_eq!(s.global_cpu_info().values.user, 100);
    assert_eq!(s.global_cpu_info().frequency, 2400);
    assert_eq!(s.cpus()[0].frequency, 1800);
    assert_eq!(s.cpus()[1].values.user, 40);
    assert!(s.got_cpu_frequency);
    assert!(s.need_cpus_update);
    assert_eq!(s.components(), &[3, 4]);
    assert_eq!(s.processes().len(), 1);
    assert_eq!(s.process(1).unwrap().data, "init");
    assert_eq!(s.disks(), &[8]);
    assert_eq!(s.users(), &["root"]);
}

#[test]
fn only_what_is_asked_for_is_refreshed() {
    let (s, share) = made(RefreshKind { disks_list: true, ..RefreshKind::new() });
    assert_eq!(share, None);
    assert_eq!(s.disks(), &[8]);
    assert_eq!(s.total_memory(), 0);
    assert!(s.cpus().is_empty() && s.components().is_empty() && s.users().is_empty());
    assert!(s.processes().is_empty());
}

#[test]
fn a_pass_that_asks_for_nothing_changes_nothing() {
    let (mut s, _) = made(everything());
    assert_eq!(s.refresh_specifics(RefreshKind::new(), Readings::new()), None);
    assert_same(&s, &made(everything()).0);
}

#[test]
fn the_processes_have_the_processors_read_where_the_pass_did_not() {
    let kind = RefreshKind { cpu: None, ..everything() };
    assert!(bare().reads_cpus_again(kind, reading(STAT)));
    assert!(!bare().reads_cpus_again(everything(), reading(STAT)));
    let unopened = CpuReading { stat: None, vendor_id: "", brand: "" };
    assert!(bare().reads_cpus_again(everything(), unopened));
    let (s, share) = made(kind);
    assert_eq!(s.global_cpu_info().values.user, 150);
    assert_eq!(share, Some(CpuShare { total_time: 150, cpus: 2 }));
}

#[test]
fn a_frequency_is_read_for_each_processor() {
    let kind = CpuRefreshKind::new().with_frequency();
    assert_eq!(bare().frequencies_to_read(kind, reading(STAT)), Some(2));
    assert_eq!(bare().frequencies_to_read(CpuRefreshKind::new(), reading(STAT)), None);
    assert_eq!(bare().frequencies_to_read(kind, reading(b"intr 1\n")), None);
    assert_eq!(bare().frequencies_to_read(kind, reading(b"")), Some(0));
    let (s, _) = made(everything());
    assert_eq!(s.frequencies_to_read(kind, reading(b"intr 1\n")), Some(2));
}

#[test]
fn readings_that_cannot_be_used_are_told() {
    assert!(bare().can_refresh_specifics(everything(), &readings()));
    let mut few = readings();
    few.frequencies.pop();
    assert!(!bare().can_refresh_specifics(everything(), &few));
    assert!(bare().can_refresh_specifics(RefreshKind::new(), &few));
    let mut short = readings();
    short.cpus = reading(b"cp\n");
    assert!(!bare().can_refresh_specifics(everything(), &short));
    let mut short_again = readings();
    short_again.process_cpus = reading(b"cp\n");
    assert!(bare().can_refresh_specifics(everything(), &short_again));
    let kind = RefreshKind { cpu: None, ..everything() };
    assert!(!bare().can_refresh_specifics(kind, &short_again));
}
