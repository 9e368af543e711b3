use sysinfo::cpu::{get_raw_times, Cpu, CpuRefreshKind, CpuTimes};
use sysinfo::cpu_refresh::CpuReading;
use sysinfo::refresh::{Readings, RefreshKind};
use sysinfo::stat::{boot_time, boot_time_from_stat, can_read_boot_time};
use sysinfo::system::{Host, System, SystemInfo};

struct Bare;

impl Host for Bare {
    type Process = ();
    type Component = ();
    type Disk = ();
    type Networks = ();
    type User = ();
}

const STAT: &[u8] = b"cpu  10 20 30 40 50 60 70 80 5 6\n\
cpu0 1 2 3 4 5 6 7 8 9 10\n\
cpu1 11 12 13 14 15\n\
intr 1 2 3\n\
btime 1633450260\n\
processes 1\n";

const NEXT_STAT: &[u8] = b"cpu  110 20 30 40 50 60 70 80 5 6\n\
cpu0 101 2 3 4 5 6 7 8 9 10\n\
cpu1 111 12 13 14 15\n\
intr 1 2 3\n";

fn new_system() -> System<Bare> {
    let info = SystemInfo::new(4096, 100, 7);
    System::new_with_specifics(info, (), RefreshKind::new(), Readings::new()).0
}

fn reading(stat: &[u8]) -> CpuReading<'_> {
    CpuReading { stat: Some(stat), vendor_id: "GenuineIntel", brand: "i7" }
}

fn usage() -> CpuRefreshKind {
    CpuRefreshKind::new().with_cpu_usage()
}

fn times(v: [u64; 10]) -> CpuTimes {
    CpuTimes {
        user: v[0],
        nice: v[1],
        system: v[2],
        idle: v[3],
        iowait: v[4],
        irq: v[5],
        softirq: v[6],
        steal: v[7],
        guest: v[8],
        guest_nice: v[9],
    }
}

#[test]
fn the_first_refresh_learns_the_processors() {
    let mut s = new_system();
    // Whatever is asked for, the first time around everything is taken.
    assert!(s.can_refresh_cpus(true, CpuRefreshKind::new(), reading(STAT)));
    assert!(!s.refresh_cpus(true, CpuRefreshKind::new(), reading(STAT)));
    assert!(!s.need_cpus_update);
    let global = s.global_cpu_info();
    assert_eq!(global.name, "cpu");
    assert_eq!(global.vendor_id, "GenuineIntel");
    assert_eq!(global.brand, "i7");
    assert_eq!(global.values, times([10, 20, 30, 40, 50, 60, 70, 80, 5, 6]));
    assert_eq!(global.old_values, CpuTimes::zero());
    assert_eq!(s.cpus().len(), 2);
    assert_eq!(s.cpus()[0].name, "cpu0");
    assert_eq!(s.cpus()[0].values, times([1, 2, 3, 4, 5, 6, 7, 8, 9, 10]));
    assert_eq!(s.cpus()[1].name, "cpu1");
    assert_eq!(s.cpus()[1].values, times([11, 12, 13, 14, 15, 0, 0, 0, 0, 0]));
    assert_eq!(s.cpus()[1].vendor_id, "GenuineIntel");
    assert_eq!(s.cpus()[1].frequency, 0);
}

#[test]
fn a_later_refresh_keeps_the_processors() {
    let mut s = new_system();
    s.refresh_cpu_specifics(usage(), reading(STAT));
    let other = CpuReading { stat: Some(NEXT_STAT), vendor_id: "other", brand: "other" };
    assert!(!s.refresh_cpu_specifics(usage(), other));
    assert_eq!(s.cpus().len(), 2);
    assert_eq!(s.cpus()[0].name, "cpu0");
    assert_eq!(s.cpus()[0].vendor_id, "GenuineIntel");
    assert_eq!(s.global_cpu_info().brand, "i7");
}

#[test]
fn a_reading_is_measured_against_the_one_before() {
    let mut s = new_system();
    s.refresh_cpu_specifics(usage(), reading(STAT));
    s.refresh_cpu_specifics(usage(), reading(NEXT_STAT));
    assert_eq!(s.global_cpu_info().old_values.user, 10);
    assert_eq!(s.global_cpu_info().values.user, 110);
    assert_eq!(s.cpus()[1].old_values.user, 11);
    assert_eq!(s.cpus()[1].values.user, 111);
    let (new, old) = get_raw_times(s.global_cpu_info());
    assert_eq!(new - old, 100);
}

#[test]
fn only_all_processors_together_may_be_asked_for() {
    let mut s = new_system();
    s.refresh_cpu_specifics(usage(), reading(STAT));
    s.refresh_cpus(true, usage(), reading(NEXT_STAT));
    assert_eq!(s.global_cpu_info().values.user, 110);
    assert_eq!(s.cpus()[0].values.user, 1);
}

#[test]
fn without_usage_the_counters_stay() {
    let mut s = new_system();
    s.refresh_cpu_specifics(usage(), reading(STAT));
    let kind = CpuRefreshKind::new().with_frequency();
    // Nothing of the text is looked at.
    assert!(s.can_refresh_cpus(false, kind, reading(b"?")));
    assert!(s.refresh_cpu_specifics(kind, reading(b"?")));
    assert_eq!(s.global_cpu_info().values.user, 10);
}

#[test]
fn a_file_that_cannot_be_opened_changes_nothing() {
    let mut s = new_system();
    let none = CpuReading { stat: None, vendor_id: "v", brand: "b" };
    assert!(!s.refresh_cpu_specifics(usage().with_frequency(), none));
    assert!(s.need_cpus_update);
    assert_eq!(s.cpus().len(), 0);
    assert_eq!(s.global_cpu_info().vendor_id, "");
}

#[test]
fn a_file_that_begins_otherwise_is_refused() {
    let mut s = new_system();
    let kind = usage().with_frequency();
    let stat = b"intr 1 2 3\ncpu  1 2 3\n";
    assert!(s.can_refresh_cpus(false, kind, reading(stat)));
    assert!(!s.refresh_cpu_specifics(kind, reading(stat)));
    assert!(!s.need_cpus_update);
    assert_eq!(s.cpus().len(), 0);
    assert_eq!(s.global_cpu_info().vendor_id, "");
}

#[test]
fn an_empty_file_lists_no_processor() {
    let mut s = new_system();
    assert!(s.refresh_cpu_specifics(usage().with_frequency(), reading(b"")));
    assert_eq!(s.cpus().len(), 0);
    assert_eq!(s.global_cpu_info().name, "");
    assert_eq!(s.global_cpu_info().vendor_id, "GenuineIntel");
}

#[test]
fn what_cannot_be_read_is_told_beforehand() {
    let s = new_system();
    assert!(!s.can_refresh_cpus(false, usage(), reading(b"cpu\n")));
    assert!(!s.can_refresh_cpus(false, usage(), reading(b"cpu  1 -2\n")));
    assert!(!s.can_refresh_cpus(false, usage(), reading(b"cpu  1\ncpu0 x\nin")));
    assert!(!s.can_refresh_cpus(false, usage(), reading(b"cpu  1\ncpu0 1\nin")));
    assert!(!s.can_refresh_cpus(false, usage(), reading(b"cpu  1\ncpu\xff 1\nintr\n")));
    assert!(s.can_refresh_cpus(false, usage(), reading(b"cpu  1\ncpu0 1\nintr\n")));
    let mut known = new_system();
    known.refresh_cpu_specifics(usage(), reading(b"cpu  1\ncpu0 1\nintr\n"));
    assert!(!known.can_refresh_cpus(false, usage(), reading(STAT)));
    assert!(known.can_refresh_cpus(true, usage(), reading(STAT)));
}

#[test]
fn fewer_processors_leave_the_others_as_they_were() {
    let mut s = new_system();
    s.refresh_cpu_specifics(usage(), reading(STAT));
    s.refresh_cpu_specifics(usage(), reading(b"cpu  9\ncpu0 8\nintr\n"));
    assert_eq!(s.cpus().len(), 2);
    assert_eq!(s.cpus()[0].values.user, 8);
    assert_eq!(s.cpus()[1].values.user, 11);
}

#[test]
fn the_greatest_frequency_is_that_of_all() {
    let mut s = new_system();
    s.refresh_cpu_specifics(usage(), reading(STAT));
    s.set_cpu_frequencies(&[1800, 2400]);
    assert_eq!(s.cpus()[0].frequency, 1800);
    assert_eq!(s.cpus()[1].frequency, 2400);
    assert_eq!(s.global_cpu_info().frequency, 2400);
    assert!(s.got_cpu_frequency);
    let mut none = new_system();
    none.set_cpu_frequencies(&[]);
    assert_eq!(none.global_cpu_info().frequency, 0);
}

#[test]
fn totals_leave_out_guest_time_that_is_counted_twice() {
    assert_eq!(times([10, 20, 30, 40, 50, 60, 70, 80, 5, 6]).total_time(), 360);
    assert_eq!(times([1, 0, 0, 0, 0, 0, 0, 0, 5, 0]).total_time(), 5);
    assert_eq!(times([u64::MAX, 1, 0, 0, 0, 0, 0, 0, 0, 0]).total_time(), u64::MAX);
}

#[test]
fn a_processor_starts_without_a_past() {
    let mut cpu = Cpu::new_with_values(
        "cpu3".to_owned(),
        times([7, 0, 0, 0, 0, 0, 0, 0, 0, 0]),
        3,
        "v".to_owned(),
        "b".to_owned(),
    );
    assert_eq!(get_raw_times(&cpu), (7, 0));
    cpu.set(times([9, 0, 0, 0, 0, 0, 0, 0, 0, 0]));
    assert_eq!(get_raw_times(&cpu), (9, 7));
}

#[test]
fn the_boot_time_stands_in_its_line() {
    assert_eq!(boot_time_from_stat(STAT), Some(1633450260));
    assert_eq!(boot_time_from_stat(b"btime\n"), Some(0));
    assert_eq!(boot_time_from_stat(b"btime   12 13"), Some(12));
    assert_eq!(boot_time_from_stat(b"xbtime 12\n"), None);
}

#[test]
fn the_boot_time_falls_back_to_the_clock() {
    assert_eq!(boot_time(Some(STAT), Some(5)), 1633450260);
    assert_eq!(boot_time(Some(b"cpu 1\n"), Some(5)), 5);
    assert_eq!(boot_time(None, Some(5)), 5);
    assert_eq!(boot_time(None, Some(-1)), u64::MAX);
    assert_eq!(boot_time(None, None), 0);
}

#[test]
fn a_boot_time_that_is_no_number_is_told_beforehand() {
    assert!(can_read_boot_time(STAT));
    assert!(can_read_boot_time(b"btime\n"));
    assert!(can_read_boot_time(b"cpu x\n"));
    assert!(!can_read_boot_time(b"btime -3\n"));
}

#[test]
fn the_system_configuration() {
    let info = SystemInfo::new(4096, 100, 7);
    assert_eq!((info.page_size_kb, info.clock_cycle, info.boot_time), (4, 100, 7));
    let failed = SystemInfo::new(-1, -1, 0);
    assert_eq!((failed.page_size_kb, failed.clock_cycle), (0, u64::MAX));
    assert_eq!(SystemInfo::new(-4096, 0, 0).page_size_kb, u64::MAX - 3);
}

#[test]
fn what_was_read_can_be_read_again() {
    let mut s = new_system();
    s.refresh_cpu_specifics(usage(), reading(STAT));
    assert!(s.can_refresh_cpus(false, usage(), reading(STAT)));
    assert!(s.can_refresh_cpus(true, usage(), reading(STAT)));
    assert!(s.can_refresh_cpus(false, CpuRefreshKind::new(), reading(STAT)));
}
