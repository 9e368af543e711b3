use sysinfo::limits::{get_max_nb_fds, remaining_files, FileLimits};
use sysinfo::refresh::{Readings, RefreshKind};
use sysinfo::release::{
    android_property, get_system_info_android, get_system_info_linux, long_version_text, InfoType,
    ReleaseFiles,
};
use sysinfo::signal::{convert_signal, signal_number, supported_signals, Signal};
use sysinfo::system::{Host, System, SystemInfo};

struct Bare;

impl Host for Bare {
    type Process = ();
    type Component = ();
    type Disk = ();
    type Networks = ();
    type User = ();
}

fn new_system() -> System<Bare> {
    let info = SystemInfo::new(4096, 100, 7);
    System::new_with_specifics(info, (), RefreshKind::new(), Readings::new()).0
}

const OS_RELEASE: &str = r#"NAME="Ubuntu"
VERSION="20.10 (Groovy Gorilla)"
ID=ubuntu
ID_LIKE=debian
PRETTY_NAME="Ubuntu 20.10"
VERSION_ID="20.10"
VERSION_CODENAME=groovy
UBUNTU_CODENAME=groovy
"#;

const LSB_RELEASE: &str = r#"DISTRIB_ID=Ubuntu
DISTRIB_RELEASE=20.10
DISTRIB_CODENAME=groovy
DISTRIB_DESCRIPTION="Ubuntu 20.10"
"#;

#[test]
fn lsb_release_fallback_not_android() {
    let tmp1 = Some(OS_RELEASE.as_bytes());
    let tmp2 = Some(LSB_RELEASE.as_bytes());

    // Check for the "normal" path: "/etc/os-release"
    let normal = ReleaseFiles { os_release: tmp1, lsb_release: None };
    assert_eq!(get_system_info_linux(InfoType::OsVersion, normal), Some("20.10".to_owned()));
    assert_eq!(get_system_info_linux(InfoType::Name, normal), Some("Ubuntu".to_owned()));

    // Check for the "fallback" path: "/etc/lsb-release"
    let fallback = ReleaseFiles { os_release: None, lsb_release: tmp2 };
    assert_eq!(get_system_info_linux(InfoType::OsVersion, fallback), Some("20.10".to_owned()));
    assert_eq!(get_system_info_linux(InfoType::Name, fallback), Some("Ubuntu".to_owned()));
}

#[test]
fn lsb_release_fallback_android() {
    assert!(get_system_info_android(2, b"13\0\0\0\0").is_some());
    assert!(get_system_info_android(7, b"Pixel 7\0").is_some());
}

#[test]
fn os_release_comes_first() {
    let files = ReleaseFiles {
        os_release: Some(b"NAME=one\n"),
        lsb_release: Some(b"DISTRIB_ID=two\nDISTRIB_RELEASE=3\n"),
    };
    let s = new_system();
    assert_eq!(s.name(files), Some("one".to_owned()));
    // It is silent about the version.
    assert_eq!(s.os_version(files), Some("3".to_owned()));
    assert_eq!(s.long_os_version(files), Some("Linux 3 one".to_owned()));
}

#[test]
fn where_nothing_is_said() {
    let s = new_system();
    let none = ReleaseFiles { os_release: None, lsb_release: None };
    assert_eq!(s.name(none), None);
    assert_eq!(s.os_version(none), None);
    assert_eq!(s.long_os_version(none), Some("Linux  ".to_owned()));
    assert_eq!(
        long_version_text("Android", Some("13".to_owned()), None),
        "Android 13 ".to_owned()
    );
}

#[test]
fn release_lines() {
    let name = |bytes: &[u8]| {
        new_system().name(ReleaseFiles { os_release: Some(bytes), lsb_release: None })
    };
    assert_eq!(name(b"NAME=a\r\nNAME=b\n"), Some("a".to_owned()));
    assert_eq!(name(b"NAME=a\r"), Some("a\r".to_owned()));
    assert_eq!(name(b" NAME=a\nNAME=b"), Some("b".to_owned()));
    assert_eq!(name(b"NAME=\xff\nNAME=b\n"), Some("b".to_owned()));
    assert_eq!(name(b"NAME=\"a\" \"b\"\n"), Some("a b".to_owned()));
    assert_eq!(name("NAME=gr\u{fc}n\n".as_bytes()), Some("gr\u{fc}n".to_owned()));
    assert_eq!(name(b"NAME=\n"), Some(String::new()));
    assert_eq!(name(b""), None);
}

#[test]
fn android_properties() {
    assert_eq!(android_property(InfoType::Name), b"ro.product.model\0");
    assert_eq!(android_property(InfoType::OsVersion), b"ro.build.version.release\0");
    assert_eq!(get_system_info_android(2, b"13\0\0"), Some("13".to_owned()));
    assert_eq!(get_system_info_android(0, b"13\0\0"), None);
    assert_eq!(get_system_info_android(2, b"\xff\xff\0"), None);
}

#[test]
fn the_host_name_ends_at_a_zero() {
    let s = new_system();
    assert_eq!(s.host_name(Some(b"box\0\0\0")), Some("box".to_owned()));
    assert_eq!(s.host_name(Some(b"box")), Some("box".to_owned()));
    assert_eq!(s.host_name(Some(b"\0")), Some(String::new()));
    assert_eq!(s.host_name(Some(b"b\xffx\0")), None);
    assert_eq!(s.host_name(Some(b"box\0\xff")), Some("box".to_owned()));
    assert_eq!(s.host_name(None), None);
}

#[test]
fn the_kernel_release_is_every_byte_but_zeros() {
    let s = new_system();
    assert_eq!(s.kernel_version(Some(b"6.1.0-13\0\0")), Some("6.1.0-13".to_owned()));
    assert_eq!(s.kernel_version(Some(b"a\0\xe9b")), Some("a\u{e9}b".to_owned()));
    assert_eq!(s.kernel_version(None), None);
}

#[test]
fn uptime_is_in_whole_seconds() {
    let s = new_system();
    assert_eq!(s.uptime(Some("350735.47 234388.90\n")), 350735);
    assert_eq!(s.uptime(Some("12")), 12);
    assert_eq!(s.uptime(Some("12 34\n")), 0);
    assert_eq!(s.uptime(Some("")), 0);
    assert_eq!(s.uptime(None), 0);
}

#[test]
fn the_load_stands_in_three_words() {
    let s = new_system();
    assert_eq!(s.load_average("0.20 0.18 0.12 1/80 11206\n"), ["0.20", "0.18", "0.12"]);
    assert_eq!(s.load_average("1 2"), ["1", "2"]);
    assert_eq!(s.load_average(""), [""]);
    assert_eq!(s.load_average("1  2 3"), ["1", "", "2"]);
}

#[test]
fn memory_in_kb() {
    let mut s = new_system();
    s.refresh_memory(Some(
        "MemTotal:       16000000 kB\n\
         MemFree:         1000000 kB\n\
         MemAvailable:    9000000 kB\n\
         Buffers:          500000 kB\n\
         Cached:          7000000 kB\n\
         SwapCached:            1 kB\n\
         SwapTotal:       2000000 kB\n\
         SwapFree:        1500000 kB\n\
         SReclaimable:     250000 kB\n",
    ));
    assert_eq!(s.total_memory(), 16_384_000);
    assert_eq!(s.free_memory(), 1_024_000);
    assert_eq!(s.available_memory(), 9_216_000);
    assert_eq!(s.mem_buffers, 512_000);
    assert_eq!(s.mem_page_cache, 7_168_000);
    assert_eq!(s.mem_slab_reclaimable, 256_000);
    assert_eq!(s.used_memory(), 16_384_000 - 1_024_000 - 512_000 - 7_168_000 - 256_000);
    assert_eq!(s.total_swap(), 2_048_000);
    assert_eq!(s.free_swap(), 1_536_000);
    assert_eq!(s.used_swap(), 512_000);
}

#[test]
fn memory_lines_that_give_nothing() {
    let mut s = new_system();
    s.refresh_memory(Some("MemTotal: 125 kB\nMemFree:\t125"));
    assert_eq!((s.total_memory(), s.free_memory()), (128, 128));
    s.refresh_memory(Some("MemTotal: kB\nMemFree\nmemtotal: 5\n MemTotal: 5\nMemTotal: 5kB"));
    assert_eq!((s.total_memory(), s.free_memory()), (128, 128));
    s.refresh_memory(None);
    assert_eq!((s.total_memory(), s.free_memory()), (128, 128));
    // The last line that gives an amount decides.
    s.refresh_memory(Some("MemTotal: 250\nMemTotal: 375 :9\nMemTotal: x"));
    assert_eq!(s.total_memory(), 384);
}

#[test]
fn memory_read_again_is_the_same() {
    let mut s = new_system();
    let text = "MemTotal: 1000 kB\nSwapFree: 7 kB\n";
    s.refresh_memory(Some(text));
    let once = (s.total_memory(), s.free_swap());
    s.refresh_memory(Some(text));
    assert_eq!((s.total_memory(), s.free_swap()), once);
    assert_eq!(once, (1024, 7));
}

#[test]
fn memory_beyond_all_measure_is_cut_off() {
    let mut s = new_system();
    s.refresh_memory(Some("MemTotal: 18446744073709551615 kB"));
    assert_eq!(s.total_memory(), u64::MAX / 125);
}

#[test]
fn half_of_the_files_are_left() {
    let limits = FileLimits { current: 1024, max: 4097 };
    assert_eq!(limits.raised(), FileLimits { current: 4097, max: 4097 });
    assert_eq!(remaining_files(Some(limits), true), 2048);
    assert_eq!(remaining_files(Some(limits), false), 512);
    assert_eq!(remaining_files(None, false), 512);
}

#[test]
fn the_most_files_that_can_be_open() {
    assert_eq!(get_max_nb_fds(Some(FileLimits { current: 1, max: 4097 })), 2048);
    assert_eq!(get_max_nb_fds(None), 512);
    // No limit at all is the greatest number, which wraps.
    assert_eq!(get_max_nb_fds(Some(FileLimits { current: 1, max: u64::MAX })), 0);
    assert_eq!(get_max_nb_fds(Some(FileLimits { current: 1, max: u64::MAX - 4 })), -2);
}

#[test]
fn every_signal_is_supported_and_has_a_number() {
    let all = supported_signals();
    assert_eq!(all.len(), 32);
    assert_eq!(all[0], Signal::Hangup);
    assert_eq!(all[31], Signal::Sys);
    for s in all {
        assert!(convert_signal(s).is_some());
    }
}

#[test]
fn signals_go_by_the_numbers_of_the_kernel() {
    assert_eq!(convert_signal(Signal::Hangup), Some(libc::SIGHUP));
    assert_eq!(convert_signal(Signal::Abort), Some(libc::SIGABRT));
    assert_eq!(convert_signal(Signal::IOT), Some(libc::SIGIOT));
    assert_eq!(convert_signal(Signal::Bus), Some(libc::SIGBUS));
    assert_eq!(convert_signal(Signal::FloatingPointException), Some(libc::SIGFPE));
    assert_eq!(convert_signal(Signal::Kill), Some(9));
    assert_eq!(convert_signal(Signal::User1), Some(libc::SIGUSR1));
    assert_eq!(convert_signal(Signal::Term), Some(libc::SIGTERM));
    assert_eq!(convert_signal(Signal::Child), Some(libc::SIGCHLD));
    assert_eq!(convert_signal(Signal::VirtualAlarm), Some(libc::SIGVTALRM));
    assert_eq!(convert_signal(Signal::Poll), Some(libc::SIGPOLL));
    assert_eq!(convert_signal(Signal::Power), Some(libc::SIGPWR));
    assert_eq!(convert_signal(Signal::Sys), Some(libc::SIGSYS));
}

#[test]
fn a_numbering_is_looked_up_by_place() {
    let mut numbers = [0; 32];
    numbers[9] = 77;
    assert_eq!(signal_number(Signal::Kill, &numbers), 77);
    assert_eq!(signal_number(Signal::Term, &numbers), 0);
}
