//! The signals that can be sent to a process, and the numbers that the kernel knows
//! them by.
use vstd::prelude::*;

verus! {

/// A signal.
#[derive(Clone, Copy, Debug, PartialEq, Eq, Structural)]
pub enum Signal {
    Hangup,
    Interrupt,
    Quit,
    Illegal,
    Trap,
    Abort,
    IOT,
    Bus,
    FloatingPointException,
    Kill,
    User1,
    Segv,
    User2,
    Pipe,
    Alarm,
    Term,
    Child,
    Continue,
    Stop,
    TSTP,
    TTIN,
    TTOU,
    Urgent,
    XCPU,
    XFSZ,
    VirtualAlarm,
    Profiling,
    Winch,
    IO,
    Poll,
    Power,
    Sys,
}

/// The place of a signal in the list of them.
pub open spec fn place(s: Signal) -> int {
    match s {
        Signal::Hangup => 0,
        Signal::Interrupt => 1,
        Signal::Quit => 2,
        Signal::Illegal => 3,
        Signal::Trap => 4,
        Signal::Abort => 5,
        Signal::IOT => 6,
        Signal::Bus => 7,
        Signal::FloatingPointException => 8,
        Signal::Kill => 9,
        Signal::User1 => 10,
        Signal::Segv => 11,
        Signal::User2 => 12,
        Signal::Pipe => 13,
        Signal::Alarm => 14,
        Signal::Term => 15,
        Signal::Child => 16,
        Signal::Continue => 17,
        Signal::Stop => 18,
        Signal::TSTP => 19,
        Signal::TTIN => 20,
        Signal::TTOU => 21,
        Signal::Urgent => 22,
        Signal::XCPU => 23,
        Signal::XFSZ => 24,
        Signal::VirtualAlarm => 25,
        Signal::Profiling => 26,
        Signal::Winch => 27,
        Signal::IO => 28,
        Signal::Poll => 29,
        Signal::Power => 30,
        Signal::Sys => 31,
    }
}

/// The numbers of the signals, each at the place of its signal, on most machines.
pub open spec fn common_numbers() -> Seq<i32> {
    seq![
        1, 2, 3, 4, 5, 6, 6, 7, 8, 9, 10, 11, 12, 13, 14, 15,
        17, 18, 19, 20, 21, 22, 23, 24, 25, 26, 27, 28, 29, 29, 30, 31,
    ]
}

/// The numbers of the signals on MIPS machines.
pub open spec fn mips_numbers() -> Seq<i32> {
    seq![
        1, 2, 3, 4, 5, 6, 6, 10, 8, 9, 16, 11, 17, 13, 14, 15,
        18, 25, 23, 24, 26, 27, 21, 30, 31, 28, 29, 20, 22, 22, 19, 12,
    ]
}

/// The numbers of the signals on SPARC machines.
pub open spec fn sparc_numbers() -> Seq<i32> {
    seq![
        1, 2, 3, 4, 5, 6, 6, 10, 8, 9, 30, 11, 31, 13, 14, 15,
        20, 19, 17, 18, 21, 22, 16, 24, 25, 26, 27, 28, 23, 23, 29, 12,
    ]
}

/// Whether these are the numbers of the signals on some machine that Linux runs on.
pub open spec fn is_numbering(numbers: Seq<i32>) -> bool {
    numbers == common_numbers() || numbers == mips_numbers() || numbers == sparc_numbers()
}

/// The signals that were there first have the same number on every machine, and two
/// signals are each another name of one.
pub proof fn law_numbers_on_every_machine(numbers: Seq<i32>)
    requires
        is_numbering(numbers),
    ensures
        numbers[place(Signal::Hangup)] == 1,
        numbers[place(Signal::Interrupt)] == 2,
        numbers[place(Signal::Quit)] == 3,
        numbers[place(Signal::Illegal)] == 4,
        numbers[place(Signal::Trap)] == 5,
        numbers[place(Signal::Abort)] == 6,
        numbers[place(Signal::FloatingPointException)] == 8,
        numbers[place(Signal::Kill)] == 9,
        numbers[place(Signal::Segv)] == 11,
        numbers[place(Signal::Pipe)] == 13,
        numbers[place(Signal::Alarm)] == 14,
        numbers[place(Signal::Term)] == 15,
        numbers[place(Signal::IOT)] == numbers[place(Signal::Abort)],
        numbers[place(Signal::Poll)] == numbers[place(Signal::IO)],
{
}

/// The numbers of the other signals on most machines, on MIPS and on SPARC.
pub proof fn law_numbers_by_machine()
    ensures
        ({
            let most = common_numbers();
            let mips = mips_numbers();
            let sparc = sparc_numbers();
            let of = |s: Signal| (most[place(s)], mips[place(s)], sparc[place(s)]);
            &&& of(Signal::Bus) == (7i32, 10i32, 10i32)
            &&& of(Signal::User1) == (10i32, 16i32, 30i32)
            &&& of(Signal::User2) == (12i32, 17i32, 31i32)
            &&& of(Signal::Child) == (17i32, 18i32, 20i32)
            &&& of(Signal::Continue) == (18i32, 25i32, 19i32)
            &&& of(Signal::Stop) == (19i32, 23i32, 17i32)
            &&& of(Signal::TSTP) == (20i32, 24i32, 18i32)
            &&& of(Signal::TTIN) == (21i32, 26i32, 21i32)
            &&& of(Signal::TTOU) == (22i32, 27i32, 22i32)
            &&& of(Signal::Urgent) == (23i32, 21i32, 16i32)
            &&& of(Signal::XCPU) == (24i32, 30i32, 24i32)
            &&& of(Signal::XFSZ) == (25i32, 31i32, 25i32)
            &&& of(Signal::VirtualAlarm) == (26i32, 28i32, 26i32)
            &&& of(Signal::Profiling) == (27i32, 29i32, 27i32)
            &&& of(Signal::Winch) == (28i32, 20i32, 28i32)
            &&& of(Signal::IO) == (29i32, 22i32, 23i32)
            &&& of(Signal::Power) == (30i32, 19i32, 29i32)
            &&& of(Signal::Sys) == (31i32, 12i32, 12i32)
        }),
{
}

/// Each signal has a place of its own.
pub proof fn law_places_differ(s: Signal, t: Signal)
    ensures
        0 <= place(s) < 32,
        place(s) == place(t) ==> s == t,
{
}

/// Two signals share a number only where one is another name of the other.
pub proof fn law_numbers_tell_signals_apart(numbers: Seq<i32>, s: Signal, t: Signal)
    requires
        is_numbering(numbers),
        numbers[place(s)] == numbers[place(t)],
    ensures
        s == t || seq![s, t] == seq![Signal::Abort, Signal::IOT] || seq![s, t] == seq![
            Signal::IOT,
            Signal::Abort,
        ] || seq![s, t] == seq![Signal::IO, Signal::Poll] || seq![s, t] == seq![
            Signal::Poll,
            Signal::IO,
        ],
{
    law_places_differ(s, t);
}

/// The constants of `libc` that the signals are called by, each at the place of its
/// signal. They depend on the machine: they are those of MIPS, those of SPARC, or those
/// that all other machines share. Which of the three is not said.
#[verifier::external_body]
fn libc_numbers() -> (r: [i32; 32])
    ensures
        is_numbering(r@),
{
    [
        libc::SIGHUP, libc::SIGINT, libc::SIGQUIT, libc::SIGILL, libc::SIGTRAP, libc::SIGABRT,
        libc::SIGIOT, libc::SIGBUS, libc::SIGFPE, libc::SIGKILL, libc::SIGUSR1, libc::SIGSEGV,
        libc::SIGUSR2, libc::SIGPIPE, libc::SIGALRM, libc::SIGTERM, libc::SIGCHLD, libc::SIGCONT,
        libc::SIGSTOP, libc::SIGTSTP, libc::SIGTTIN, libc::SIGTTOU, libc::SIGURG, libc::SIGXCPU,
        libc::SIGXFSZ, libc::SIGVTALRM, libc::SIGPROF, libc::SIGWINCH, libc::SIGIO, libc::SIGPOLL,
        libc::SIGPWR, libc::SIGSYS,
    ]
}

/// The place of a signal in the list of them.
fn place_of(s: Signal) -> (r: usize)
    ensures
        r == place(s),
        r < 32,
{
    match s {
        Signal::Hangup => 0,
        Signal::Interrupt => 1,
        Signal::Quit => 2,
        Signal::Illegal => 3,
        Signal::Trap => 4,
        Signal::Abort => 5,
        Signal::IOT => 6,
        Signal::Bus => 7,
        Signal::FloatingPointException => 8,
        Signal::Kill => 9,
        Signal::User1 => 10,
        Signal::Segv => 11,
        Signal::User2 => 12,
        Signal::Pipe => 13,
        Signal::Alarm => 14,
        Signal::Term => 15,
        Signal::Child => 16,
        Signal::Continue => 17,
        Signal::Stop => 18,
        Signal::TSTP => 19,
        Signal::TTIN => 20,
        Signal::TTOU => 21,
        Signal::Urgent => 22,
        Signal::XCPU => 23,
        Signal::XFSZ => 24,
        Signal::VirtualAlarm => 25,
        Signal::Profiling => 26,
        Signal::Winch => 27,
        Signal::IO => 28,
        Signal::Poll => 29,
        Signal::Power => 30,
        Signal::Sys => 31,
    }
}

/// The signals that are supported, which are all of them, each at its place.
pub fn supported_signals() -> (r: Vec<Signal>)
    ensures
        r@.len() == 32,
        forall|s: Signal| r@[#[trigger] place(s)] == s,
{
    vec![
        Signal::Hangup,
        Signal::Interrupt,
        Signal::Quit,
        Signal::Illegal,
        Signal::Trap,
        Signal::Abort,
        Signal::IOT,
        Signal::Bus,
        Signal::FloatingPointException,
        Signal::Kill,
        Signal::User1,
        Signal::Segv,
        Signal::User2,
        Signal::Pipe,
        Signal::Alarm,
        Signal::Term,
        Signal::Child,
        Signal::Continue,
        Signal::Stop,
        Signal::TSTP,
        Signal::TTIN,
        Signal::TTOU,
        Signal::Urgent,
        Signal::XCPU,
        Signal::XFSZ,
        Signal::VirtualAlarm,
        Signal::Profiling,
        Signal::Winch,
        Signal::IO,
        Signal::Poll,
        Signal::Power,
        Signal::Sys,
    ]
}

/// The number of a signal, where the numbers are these.
pub fn signal_number(s: Signal, numbers: &[i32; 32]) -> (r: i32)
    ensures
        r == numbers@[place(s)],
{
    numbers[place_of(s)]
}

/// The number that the kernel of this machine knows a signal by. Every signal has one.
pub fn convert_signal(s: Signal) -> (r: Option<i32>)
    ensures
        r is Some,
        exists|numbers: Seq<i32>| #[trigger]
            is_numbering(numbers) && r == Some(numbers[place(s)]),
{
    let numbers = libc_numbers();
    assert(is_numbering(numbers@));
    Some(signal_number(s, &numbers))
}

} // verus!
