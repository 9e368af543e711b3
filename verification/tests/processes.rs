use std::collections::HashMap;
use sysinfo::cpu::CpuRefreshKind;
use sysinfo::cpu_refresh::CpuReading;
use sysinfo::process::{Process, ProcessRefreshKind};
use sysinfo::process_refresh::{CpuShare, ProcessLookup};
use sysinfo::refresh::{Readings, RefreshKind};
use sysinfo::system::{Host, System, SystemInfo, IS_SUPPORTED};

struct Named;

impl Host for Named {
    type Process = &'static str;
    type Component = u8;
    type Disk = (u32, &'static str);
    type Networks = Vec<u8>;
    type User = &'static str;
}

const STAT: &[u8] = b"cpu  100\ncpu0 60\ncpu1 40\nintr\n";
const NEXT_STAT: &[u8] = b"cpu  150\ncpu0 80\ncpu1 70\nintr\n";
const CPU: ProcessRefreshKind = ProcessRefreshKind { cpu: true };
const PLAIN: ProcessRefreshKind = ProcessRefreshKind { cpu: false };

fn new_system() -> System<Named> {
    let info = SystemInfo::new(4096, 100, 7);
    System::new_with_specifics(info, vec![1, 2], RefreshKind::new(), Readings::new()).0
}

fn reading(stat: &[u8]) -> CpuReading<'_> {
    CpuReading { stat: Some(stat), vendor_id: "v", brand: "b" }
}

fn nothing_read() -> CpuReading<'static> {
    CpuReading { stat: None, vendor_id: "", brand: "" }
}

fn task(updated: bool, data: &'static str) -> Process<&'static str> {
    Process { updated, data }
}

fn tasks() -> HashMap<i32, Process<&'static str>> {
    let mut m = HashMap::new();
    m.insert(1, task(true, "init"));
    m.insert(2, task(false, "gone"));
    m.insert(3, task(true, "shell"));
    m
}

#[test]
fn processes_that_were_not_read_go() {
    let mut s = new_system();
    s.process_list.tasks = tasks();
    assert_eq!(s.clear_procs(PLAIN, nothing_read()), None);
    assert_eq!(s.processes().len(), 2);
    assert_eq!(s.process(1).unwrap().data, "init");
    assert!(!s.process(1).unwrap().updated);
    assert!(s.process(2).is_none());
    assert!(!s.process(3).unwrap().updated);
    // What no reading has come upon since goes too.
    s.clear_procs(PLAIN, nothing_read());
    assert!(s.processes().is_empty());
}

#[test]
fn clearing_reads_the_processors_where_it_must() {
    let mut s = new_system();
    assert!(s.clear_procs_reads_cpus(CPU));
    assert!(!s.clear_procs_reads_cpus(PLAIN));
    assert_eq!(s.clear_procs(CPU, reading(STAT)), Some(CpuShare { total_time: 100, cpus: 2 }));
    assert!(!s.need_cpus_update);
    assert!(!s.clear_procs_reads_cpus(CPU));
    // The second text is not looked at.
    assert_eq!(s.clear_procs(CPU, reading(NEXT_STAT)), Some(CpuShare { total_time: 100, cpus: 2 }));
}

#[test]
fn without_a_processor_there_is_no_share() {
    let mut s = new_system();
    assert_eq!(s.clear_procs(CPU, nothing_read()), None);
    assert!(s.need_cpus_update);
}

#[test]
fn a_total_that_went_back_counts_as_a_tick() {
    let mut s = new_system();
    s.refresh_cpus(true, CpuRefreshKind::new().with_cpu_usage(), reading(NEXT_STAT));
    s.refresh_cpus(true, CpuRefreshKind::new().with_cpu_usage(), reading(STAT));
    assert_eq!(s.clear_procs(CPU, nothing_read()), Some(CpuShare { total_time: 1, cpus: 2 }));
    // One that stood still counts as nothing here.
    s.refresh_cpus(true, CpuRefreshKind::new().with_cpu_usage(), reading(STAT));
    assert_eq!(s.clear_procs(CPU, nothing_read()), Some(CpuShare { total_time: 0, cpus: 2 }));
}

#[test]
fn all_processes_are_refreshed_at_once() {
    let mut s = new_system();
    let share = s.refresh_processes_specifics(CPU, tasks(), reading(STAT));
    assert_eq!(share, Some(CpuShare { total_time: 100, cpus: 2 }));
    assert_eq!(s.processes().len(), 2);
    assert!(s.need_cpus_update);
    let share = s.refresh_processes_specifics(CPU, HashMap::new(), reading(NEXT_STAT));
    assert_eq!(share, Some(CpuShare { total_time: 50, cpus: 2 }));
    assert!(s.processes().is_empty());
}

#[test]
fn one_reading_of_the_processors_serves_both() {
    let mut s = new_system();
    s.refresh_cpu_specifics(CpuRefreshKind::new().with_cpu_usage(), reading(STAT));
    s.refresh_processes_specifics(CPU, tasks(), reading(NEXT_STAT));
    assert_eq!(s.global_cpu_info().values.user, 100);
    assert!(s.need_cpus_update);
}

#[test]
fn a_single_process_is_added() {
    let mut s = new_system();
    let lookup = ProcessLookup::Added(9, task(true, "new"));
    let r = s.refresh_process_specifics(9, CPU, lookup, reading(STAT));
    assert_eq!(r, (true, Some(CpuShare { total_time: 100, cpus: 2 })));
    assert_eq!(s.process(9).unwrap().data, "new");
    assert!(!s.process(9).unwrap().updated);
    assert!(!s.need_cpus_update);
}

#[test]
fn a_single_process_that_is_known_is_settled() {
    let mut s = new_system();
    s.process_list.tasks = tasks();
    let r = s.refresh_process_specifics(1, PLAIN, ProcessLookup::Known, nothing_read());
    assert_eq!(r, (true, None));
    assert!(!s.process(1).unwrap().updated);
    assert!(s.process(3).unwrap().updated);
    assert!(s.need_cpus_update);
}

#[test]
fn a_single_process_that_is_missing_changes_nothing() {
    let mut s = new_system();
    s.process_list.tasks = tasks();
    let r = s.refresh_process_specifics(1, CPU, ProcessLookup::Missing, nothing_read());
    assert_eq!(r, (false, None));
    assert!(s.process(1).unwrap().updated);
    assert_eq!(s.processes().len(), 3);
}

#[test]
fn a_single_process_without_a_processor_keeps_its_mark() {
    let mut s = new_system();
    let lookup = ProcessLookup::Added(9, task(true, "new"));
    let r = s.refresh_process_specifics(9, CPU, lookup, nothing_read());
    assert_eq!(r, (true, None));
    assert!(s.process(9).unwrap().updated);
}

#[test]
fn for_a_single_process_at_least_a_tick_passes() {
    let mut s = new_system();
    s.process_list.tasks = tasks();
    s.refresh_process_specifics(1, CPU, ProcessLookup::Known, reading(STAT));
    let r = s.refresh_process_specifics(1, CPU, ProcessLookup::Known, reading(STAT));
    assert_eq!(r, (true, Some(CpuShare { total_time: 1, cpus: 2 })));
    // The processors are read each time.
    let r = s.refresh_process_specifics(1, CPU, ProcessLookup::Known, reading(NEXT_STAT));
    assert_eq!(r, (true, Some(CpuShare { total_time: 50, cpus: 2 })));
    // One that is not known has no share.
    let r = s.refresh_process_specifics(8, CPU, ProcessLookup::Known, reading(NEXT_STAT));
    assert_eq!(r, (true, None));
}

#[test]
fn the_greatest_usage_is_all_of_every_processor() {
    let mut s = new_system();
    assert_eq!(s.get_max_process_cpu_usage(), 0);
    s.refresh_cpus(true, CpuRefreshKind::new(), reading(STAT));
    assert_eq!(s.get_max_process_cpu_usage(), 200);
}

#[test]
fn a_new_system_knows_nothing_yet() {
    let s = new_system();
    assert!(IS_SUPPORTED);
    assert!(s.processes().is_empty());
    assert_eq!(s.cpus().len(), 0);
    assert_eq!(s.total_memory(), 0);
    assert_eq!(s.networks(), &vec![1, 2]);
    assert_eq!(s.boot_time(), 7);
    assert_eq!(s.components().len() + s.disks().len() + s.users().len(), 0);
    assert!(s.need_cpus_update);
    assert!(!s.got_cpu_frequency);
}

#[test]
fn what_is_carried_along_can_be_replaced_and_changed() {
    let mut s = new_system();
    s.refresh_components_list(vec![3, 4]);
    s.refresh_disks_list(vec![(2, "b")]);
    s.refresh_users_list(vec!["root"]);
    s.components_mut()[0] = 5;
    s.disks_mut()[0].0 = 7;
    s.networks_mut().push(3);
    assert_eq!(s.components(), &[5, 4]);
    assert_eq!(s.disks(), &[(7, "b")]);
    assert_eq!(s.users(), &["root"]);
    assert_eq!(s.networks(), &vec![1, 2, 3]);
}

#[test]
fn disks_are_put_in_order() {
    let mut s = new_system();
    s.refresh_disks_list(vec![(3, "c"), (1, "a"), (2, "b")]);
    s.sort_disks_by(|a, b| a.0.cmp(&b.0));
    assert_eq!(s.disks(), &[(1, "a"), (2, "b"), (3, "c")]);
    s.sort_disks_by(|a, b| b.1.cmp(a.1));
    assert_eq!(s.disks(), &[(3, "c"), (2, "b"), (1, "a")]);
}
