//! Refreshing the processors.
use crate::cpu::{cpu_views, Cpu, CpuRefreshKind, CpuTimes, CpuView};
use crate::stat::{
    can_read_counters, can_read_name, counters_readable, cpu_line, cpu_line_readable,
    cpu_lines_readable, cpu_name, cpu_times, cpu_word, has_all_cpus_line, is_all_cpus_line,
    is_cpu_line, lemma_all_cpus_name, lemma_cpu_line_count, listed_cpus, name_of, times_of,
};
use crate::system::{Host, System};
use crate::text::{contents, file_lines, law_a_newline_ends_a_line, lines_of, starts_with};
use vstd::prelude::*;

verus! {

/// What has been read for a refresh of the processors.
#[derive(Clone, Copy, Debug)]
pub struct CpuReading<'a> {
    /// What `/proc/stat` holds, if it could be opened.
    pub stat: Option<&'a [u8]>,
    pub vendor_id: &'a str,
    pub brand: &'a str,
}

/// What a [`CpuReading`] says.
pub struct CpuReadingView {
    pub stat: Option<Seq<u8>>,
    pub vendor_id: Seq<char>,
    pub brand: Seq<char>,
}

impl<'a> View for CpuReading<'a> {
    type V = CpuReadingView;

    open spec fn view(&self) -> CpuReadingView {
        CpuReadingView {
            stat: match self.stat {
                Some(stat) => Some(stat@),
                None => None,
            },
            vendor_id: self.vendor_id@,
            brand: self.brand@,
        }
    }
}

/// Whether `/proc/stat` begins with some line that is not the one about all
/// processors together.
pub open spec fn stat_refused(stat: Seq<u8>) -> bool {
    file_lines(stat).len() > 0 && !has_all_cpus_line(stat)
}

/// Whether what `/proc/stat` holds can be read by a refresh, where `known`
/// processors are known.
pub open spec fn stat_usable(stat: Seq<u8>, known: nat, only_global: bool, usage: bool) -> bool {
    let first = known == 0;
    (first || usage) && file_lines(stat).len() > 0 ==> {
        &&& file_lines(stat)[0].len() >= 4
        &&& has_all_cpus_line(stat) ==> {
            &&& counters_readable(file_lines(stat)[0])
            &&& (first || !only_global) ==> {
                &&& cpu_lines_readable(stat, first)
                &&& first || listed_cpus(stat) <= known
            }
        }
    }
}

/// All processors together, once they have been refreshed.
pub open spec fn refreshed_global(
    cpu: CpuView,
    first: bool,
    usage: bool,
    stat: Seq<u8>,
    vendor_id: Seq<char>,
    brand: Seq<char>,
) -> CpuView {
    if !(first || usage) || stat_refused(stat) {
        cpu
    } else {
        let line = file_lines(stat)[0];
        let read = if file_lines(stat).len() == 0 {
            cpu
        } else if first {
            CpuView { name: cpu_name(line), ..cpu.after_set(cpu_times(line)) }
        } else {
            cpu.after_set(cpu_times(line))
        };
        if first {
            CpuView { vendor_id, brand, ..read }
        } else {
            read
        }
    }
}

/// The processors, once they have been refreshed.
pub open spec fn refreshed_cpus(
    cpus: Seq<CpuView>,
    only_global: bool,
    usage: bool,
    stat: Seq<u8>,
    vendor_id: Seq<char>,
    brand: Seq<char>,
) -> Seq<CpuView> {
    let first = cpus.len() == 0;
    if !(first || usage) || stat_refused(stat) {
        cpus
    } else if first {
        Seq::new(
            listed_cpus(stat),
            |i: int|
                CpuView {
                    name: cpu_name(cpu_line(stat, i)),
                    values: cpu_times(cpu_line(stat, i)),
                    old_values: CpuTimes::zero(),
                    frequency: 0,
                    vendor_id,
                    brand,
                },
        )
    } else if only_global {
        cpus
    } else {
        Seq::new(
            cpus.len(),
            |i: int|
                if i < listed_cpus(stat) {
                    cpus[i].after_set(cpu_times(cpu_line(stat, i)))
                } else {
                    cpus[i]
                },
        )
    }
}

/// Whether a refresh goes on to the frequencies: where they are asked for, and what
/// `/proc/stat` holds, if it is to be read, has not been refused.
pub open spec fn wants_frequencies(
    first: bool,
    refresh_kind: CpuRefreshKind,
    stat: Option<Seq<u8>>,
) -> bool {
    refresh_kind.frequency && (stat matches Some(text) && !((first || refresh_kind.cpu_usage)
        && stat_refused(text)))
}

/// Once the processors have been listed, no refresh changes which they are: each keeps
/// its place, its name, its vendor and its brand.
pub proof fn law_known_cpus_stay(
    cpus: Seq<CpuView>,
    only_global: bool,
    usage: bool,
    stat: Seq<u8>,
    vendor_id: Seq<char>,
    brand: Seq<char>,
)
    requires
        cpus.len() > 0,
    ensures
        refreshed_cpus(cpus, only_global, usage, stat, vendor_id, brand).len() == cpus.len(),
        forall|i: int|
            0 <= i < cpus.len() ==> {
                let cpu = #[trigger] refreshed_cpus(
                    cpus,
                    only_global,
                    usage,
                    stat,
                    vendor_id,
                    brand,
                )[i];
                cpu.name == cpus[i].name && cpu.vendor_id == cpus[i].vendor_id && cpu.brand
                    == cpus[i].brand && cpu.frequency == cpus[i].frequency
            },
{
}

/// Text that the first refresh could read, any later one can read as well, once the
/// processors that it lists are known.
pub proof fn law_what_was_read_can_be_read_again(
    stat: Seq<u8>,
    only_global: bool,
    usage: bool,
    later_only_global: bool,
    later_usage: bool,
)
    requires
        stat_usable(stat, 0, only_global, usage),
    ensures
        stat_usable(stat, listed_cpus(stat), later_only_global, later_usage),
{
    if has_all_cpus_line(stat) {
        assert forall|i: int| 0 <= i < listed_cpus(stat) implies #[trigger] cpu_line_readable(
            stat,
            i,
            false,
        ) by {
            assert(cpu_line_readable(stat, i, true));
        }
    }
}

/// The usage is what passes between two readings: after a second one, the counters of
/// the first are the old ones.
pub proof fn law_a_reading_is_measured_against_the_one_before(
    cpu: CpuView,
    first: bool,
    stat: Seq<u8>,
    next_stat: Seq<u8>,
    vendor_id: Seq<char>,
    brand: Seq<char>,
)
    requires
        has_all_cpus_line(stat),
        has_all_cpus_line(next_stat),
    ensures
        ({
            let once = refreshed_global(cpu, first, true, stat, vendor_id, brand);
            let twice = refreshed_global(once, false, true, next_stat, vendor_id, brand);
            &&& twice.old_values == cpu_times(file_lines(stat)[0])
            &&& twice.values == cpu_times(file_lines(next_stat)[0])
        }),
{
}

/// The name of all processors together is `cpu`.
pub proof fn law_all_cpus_are_called_cpu(
    cpu: CpuView,
    usage: bool,
    stat: Seq<u8>,
    vendor_id: Seq<char>,
    brand: Seq<char>,
)
    requires
        has_all_cpus_line(stat),
    ensures
        refreshed_global(cpu, true, usage, stat, vendor_id, brand).name == seq!['c', 'p', 'u'],
{
    lemma_all_cpus_name(file_lines(stat)[0]);
    let word = seq!['c', 'p', 'u'];
    vstd::utf8::is_ascii_chars_encode_utf8(word);
    assert(vstd::utf8::encode_utf8(word) =~= cpu_word());
    vstd::utf8::encode_utf8_decode_utf8(word);
}

/// The first refresh takes everything, whatever is asked for: it learns of each processor
/// that is listed, in order, with its name, its counters, its vendor and its brand.
pub proof fn law_the_first_refresh_lists_the_cpus(
    only_global: bool,
    usage: bool,
    stat: Seq<u8>,
    vendor_id: Seq<char>,
    brand: Seq<char>,
    i: int,
)
    requires
        has_all_cpus_line(stat),
    ensures
        ({
            let cpus = refreshed_cpus(seq![], only_global, usage, stat, vendor_id, brand);
            let line = file_lines(stat)[i + 1];
            &&& cpus.len() == listed_cpus(stat)
            &&& 0 <= i < cpus.len() ==> {
                &&& cpus[i].name == cpu_name(line)
                &&& cpus[i].values == cpu_times(line)
                &&& cpus[i].old_values == CpuTimes::zero()
                &&& cpus[i].frequency == 0
                &&& cpus[i].vendor_id == vendor_id
                &&& cpus[i].brand == brand
            }
        }),
{
}

/// A later refresh gives each processor that is listed the counters of its line, and
/// makes those that it had the old ones. A processor that is not listed stays as it was.
pub proof fn law_a_later_refresh_updates_the_cpus(
    cpus: Seq<CpuView>,
    stat: Seq<u8>,
    vendor_id: Seq<char>,
    brand: Seq<char>,
    i: int,
)
    requires
        has_all_cpus_line(stat),
        0 <= i < cpus.len(),
    ensures
        ({
            let cpu = refreshed_cpus(cpus, false, true, stat, vendor_id, brand)[i];
            &&& i < listed_cpus(stat) ==> cpu.values == cpu_times(file_lines(stat)[i + 1])
                && cpu.old_values == cpus[i].values
            &&& i >= listed_cpus(stat) ==> cpu == cpus[i]
        }),
{
}

/// Once the processors are known, they are left alone where only all of them together are
/// asked for, or not the usage.
pub proof fn law_cpus_not_asked_for_stay(
    cpus: Seq<CpuView>,
    only_global: bool,
    usage: bool,
    stat: Seq<u8>,
    vendor_id: Seq<char>,
    brand: Seq<char>,
)
    requires
        cpus.len() > 0,
        only_global || !usage,
    ensures
        refreshed_cpus(cpus, only_global, usage, stat, vendor_id, brand) == cpus,
{
}

/// All processors together get the counters of the first line, and those that they had
/// become the old ones: the first time around, and whenever the usage is asked for. Their
/// vendor and brand are learnt the first time around, and stay. Their frequency stays.
pub proof fn law_all_cpus_together_are_refreshed(
    cpu: CpuView,
    first: bool,
    usage: bool,
    stat: Seq<u8>,
    vendor_id: Seq<char>,
    brand: Seq<char>,
)
    requires
        has_all_cpus_line(stat),
    ensures
        ({
            let all = refreshed_global(cpu, first, usage, stat, vendor_id, brand);
            &&& all.frequency == cpu.frequency
            &&& first || usage ==> all.values == cpu_times(file_lines(stat)[0]) && all.old_values
                == cpu.values
            &&& !first && !usage ==> all == cpu
            &&& first ==> all.vendor_id == vendor_id && all.brand == brand
            &&& !first ==> all.name == cpu.name && all.vendor_id == cpu.vendor_id && all.brand
                == cpu.brand
        }),
{
}

/// Text that begins with any other line changes nothing.
pub proof fn law_other_text_changes_nothing(
    cpu: CpuView,
    cpus: Seq<CpuView>,
    only_global: bool,
    usage: bool,
    stat: Seq<u8>,
    vendor_id: Seq<char>,
    brand: Seq<char>,
)
    requires
        file_lines(stat).len() > 0,
        !starts_with(file_lines(stat)[0], seq![0x63u8, 0x70, 0x75, 0x20]),
    ensures
        refreshed_global(cpu, cpus.len() == 0, usage, stat, vendor_id, brand) == cpu,
        refreshed_cpus(cpus, only_global, usage, stat, vendor_id, brand) == cpus,
{
}

/// Text without a line changes no counter and lists no processor. The first time around,
/// the vendor and the brand are learnt all the same.
pub proof fn law_no_text_lists_nothing(
    cpu: CpuView,
    cpus: Seq<CpuView>,
    only_global: bool,
    usage: bool,
    vendor_id: Seq<char>,
    brand: Seq<char>,
)
    ensures
        ({
            let all = refreshed_global(cpu, cpus.len() == 0, usage, seq![], vendor_id, brand);
            &&& cpus.len() > 0 ==> all == cpu
            &&& cpus.len() == 0 ==> all == (CpuView { vendor_id, brand, ..cpu })
        }),
        refreshed_cpus(cpus, only_global, usage, seq![], vendor_id, brand) == cpus,
{
    let none = Seq::<u8>::empty();
    law_a_newline_ends_a_line(none, none);
    lemma_cpu_line_count(file_lines(none), 1);
    assert(refreshed_cpus(cpus, only_global, usage, none, vendor_id, brand) =~= cpus);
}

/// The frequencies are wanted where they are asked for and `/proc/stat` could be opened,
/// unless it was to be read and began with the wrong line.
pub proof fn law_frequencies_are_wanted(
    first: bool,
    refresh_kind: CpuRefreshKind,
    stat: Seq<u8>,
)
    ensures
        !refresh_kind.frequency ==> !wants_frequencies(first, refresh_kind, Some(stat)),
        !wants_frequencies(first, refresh_kind, None),
        refresh_kind.frequency && !first && !refresh_kind.cpu_usage ==> wants_frequencies(
            first,
            refresh_kind,
            Some(stat),
        ),
        refresh_kind.frequency && (file_lines(stat).len() == 0 || starts_with(
            file_lines(stat)[0],
            seq![0x63u8, 0x70, 0x75, 0x20],
        )) ==> wants_frequencies(first, refresh_kind, Some(stat)),
        (first || refresh_kind.cpu_usage) && file_lines(stat).len() > 0 && !starts_with(
            file_lines(stat)[0],
            seq![0x63u8, 0x70, 0x75, 0x20],
        ) ==> !wants_frequencies(first, refresh_kind, Some(stat)),
{
}

/// What can be used: text that is not to be read, text that begins with any other line of
/// four bytes or more, and text whose line about all processors has numbers for counters
/// and, where each processor is to be read, whose lines about them can be read and are no
/// more than those known.
pub proof fn law_what_can_be_used(stat: Seq<u8>, known: nat, only_global: bool, usage: bool)
    ensures
        known > 0 && !usage ==> stat_usable(stat, known, only_global, usage),
        file_lines(stat).len() == 0 ==> stat_usable(stat, known, only_global, usage),
        file_lines(stat).len() > 0 && file_lines(stat)[0].len() >= 4 && !has_all_cpus_line(stat)
            ==> stat_usable(stat, known, only_global, usage),
        has_all_cpus_line(stat) && counters_readable(file_lines(stat)[0]) && known > 0
            && only_global ==> stat_usable(stat, known, only_global, usage),
        has_all_cpus_line(stat) && counters_readable(file_lines(stat)[0]) && known > 0
            && cpu_lines_readable(stat, false) && listed_cpus(stat) <= known ==> stat_usable(
            stat,
            known,
            only_global,
            usage,
        ),
        has_all_cpus_line(stat) && counters_readable(file_lines(stat)[0]) && cpu_lines_readable(
            stat,
            true,
        ) ==> stat_usable(stat, 0, only_global, usage),
{
}

/// The greatest of the numbers is one of them, and none is greater. Where there is none,
/// it is zero.
pub proof fn law_the_greatest_number(numbers: Seq<u64>, m: u64, i: int)
    requires
        is_greatest(numbers, m),
    ensures
        0 <= i < numbers.len() ==> numbers[i] <= m,
        numbers.len() > 0 ==> exists|k: int| 0 <= k < numbers.len() && numbers[k] == m,
        numbers.len() == 0 ==> m == 0,
{
}

/// Whether `m` is the greatest of the numbers, or zero where there is none.
pub open spec fn is_greatest(numbers: Seq<u64>, m: u64) -> bool {
    &&& forall|i: int| 0 <= i < numbers.len() ==> numbers[i] <= m
    &&& if numbers.len() == 0 {
        m == 0
    } else {
        numbers.contains(m)
    }
}

/// How many processors `/proc/stat` lists, if their lines can be read.
fn count_listed(stat: &[u8], lines: &Vec<&[u8]>, named: bool) -> (r: Option<usize>)
    requires
        contents(lines@) == file_lines(stat@),
    ensures
        r is Some == cpu_lines_readable(stat@, named),
        r matches Some(n) ==> n == listed_cpus(stat@),
{
    let ghost n: int = listed_cpus(stat@) as int;
    proof {
        lemma_cpu_line_count(file_lines(stat@), 1);
        assert(contents(lines@).len() == lines@.len());
    }
    let mut k: usize = 1;
    while k < lines.len() && is_cpu_line(lines[k])
        invariant
            1 <= k <= n + 1,
            contents(lines@) == file_lines(stat@),
            lines@.len() == file_lines(stat@).len(),
            n == listed_cpus(stat@),
            n > 0 ==> n + 1 <= lines@.len(),
            forall|j: int|
                1 <= j < 1 + n ==> starts_with(#[trigger] file_lines(stat@)[j], cpu_word()),
            1 + n < lines@.len() ==> !starts_with(file_lines(stat@)[1 + n], cpu_word()),
            forall|i: int| 0 <= i < k - 1 ==> #[trigger] cpu_line_readable(stat@, i, named),
        decreases lines@.len() - k,
    {
        assert(file_lines(stat@)[k as int] == lines@[k as int]@);
        assert(cpu_line(stat@, k - 1) == lines@[k as int]@);
        if !can_read_counters(lines[k]) || (named && !can_read_name(lines[k])) {
            assert(!cpu_line_readable(stat@, k - 1, named));
            return None;
        }
        assert(cpu_line_readable(stat@, k - 1, named));
        k = k + 1;
    }
    proof {
        if k < lines@.len() {
            assert(file_lines(stat@)[k as int] == lines@[k as int]@);
        }
    }
    if k < lines.len() && lines[k].len() < 3 {
        return None;
    }
    Some(k - 1)
}

/// The processors that `/proc/stat` lists.
fn listed(stat: &[u8], lines: &Vec<&[u8]>, vendor_id: &str, brand: &str) -> (cpus: Vec<Cpu>)
    requires
        contents(lines@) == file_lines(stat@),
        cpu_lines_readable(stat@, true),
    ensures
        cpus@.len() == listed_cpus(stat@),
        forall|i: int|
            0 <= i < cpus@.len() ==> (#[trigger] cpus@[i])@ == (CpuView {
                name: cpu_name(cpu_line(stat@, i)),
                values: cpu_times(cpu_line(stat@, i)),
                old_values: CpuTimes::zero(),
                frequency: 0,
                vendor_id: vendor_id@,
                brand: brand@,
            }),
{
    let ghost n: int = listed_cpus(stat@) as int;
    proof {
        lemma_cpu_line_count(file_lines(stat@), 1);
        assert(contents(lines@).len() == lines@.len());
    }
    let mut cpus: Vec<Cpu> = Vec::new();
    let mut k: usize = 1;
    while k < lines.len() && is_cpu_line(lines[k])
        invariant
            1 <= k,
            k == cpus@.len() + 1,
            contents(lines@) == file_lines(stat@),
            lines@.len() == file_lines(stat@).len(),
            n == listed_cpus(stat@),
            cpus@.len() <= n,
            n > 0 ==> n + 1 <= lines@.len(),
            forall|j: int|
                1 <= j < 1 + n ==> starts_with(#[trigger] file_lines(stat@)[j], cpu_word()),
            1 + n < lines@.len() ==> !starts_with(file_lines(stat@)[1 + n], cpu_word()),
            cpu_lines_readable(stat@, true),
            forall|i: int|
                0 <= i < cpus@.len() ==> (#[trigger] cpus@[i])@ == (CpuView {
                    name: cpu_name(cpu_line(stat@, i)),
                    values: cpu_times(cpu_line(stat@, i)),
                    old_values: CpuTimes::zero(),
                    frequency: 0,
                    vendor_id: vendor_id@,
                    brand: brand@,
                }),
        decreases lines@.len() - k,
    {
        assert(file_lines(stat@)[k as int] == lines@[k as int]@);
        assert(cpu_line(stat@, k - 1) == lines@[k as int]@);
        assert(cpu_line_readable(stat@, k - 1, true));
        cpus.push(
            Cpu::new_with_values(
                name_of(lines[k]),
                times_of(lines[k]),
                0,
                vendor_id.to_owned(),
                brand.to_owned(),
            ),
        );
        k = k + 1;
    }
    proof {
        if k < lines@.len() {
            assert(file_lines(stat@)[k as int] == lines@[k as int]@);
        }
    }
    cpus
}

/// Takes what `/proc/stat` lists of the processors that are known.
fn set_listed(cpus: &mut Vec<Cpu>, stat: &[u8], lines: &Vec<&[u8]>)
    requires
        contents(lines@) == file_lines(stat@),
        cpu_lines_readable(stat@, false),
        listed_cpus(stat@) <= old(cpus)@.len(),
    ensures
        final(cpus)@.len() == old(cpus)@.len(),
        forall|i: int|
            0 <= i < final(cpus)@.len() ==> (#[trigger] final(cpus)@[i])@ == if i < listed_cpus(
                stat@,
            ) {
                old(cpus)@[i]@.after_set(cpu_times(cpu_line(stat@, i)))
            } else {
                old(cpus)@[i]@
            },
{
    let ghost n: int = listed_cpus(stat@) as int;
    proof {
        lemma_cpu_line_count(file_lines(stat@), 1);
        assert(contents(lines@).len() == lines@.len());
    }
    let ghost before = cpus@;
    let mut k: usize = 1;
    while k < lines.len() && is_cpu_line(lines[k])
        invariant
            1 <= k <= n + 1,
            contents(lines@) == file_lines(stat@),
            lines@.len() == file_lines(stat@).len(),
            n == listed_cpus(stat@),
            n <= before.len(),
            n > 0 ==> n + 1 <= lines@.len(),
            forall|j: int|
                1 <= j < 1 + n ==> starts_with(#[trigger] file_lines(stat@)[j], cpu_word()),
            1 + n < lines@.len() ==> !starts_with(file_lines(stat@)[1 + n], cpu_word()),
            cpu_lines_readable(stat@, false),
            cpus@.len() == before.len(),
            forall|i: int|
                0 <= i < cpus@.len() ==> (#[trigger] cpus@[i])@ == if i < k - 1 {
                    before[i]@.after_set(cpu_times(cpu_line(stat@, i)))
                } else {
                    before[i]@
                },
        decreases lines@.len() - k,
    {
        assert(file_lines(stat@)[k as int] == lines@[k as int]@);
        assert(cpu_line(stat@, k - 1) == lines@[k as int]@);
        assert(cpu_line_readable(stat@, k - 1, false));
        cpus[k - 1].set(times_of(lines[k]));
        k = k + 1;
    }
    proof {
        if k < lines@.len() {
            assert(file_lines(stat@)[k as int] == lines@[k as int]@);
        }
    }
}

impl<H: Host> System<H> {
    /// Whether no processor has been listed yet.
    pub open spec fn no_cpu_yet(self) -> bool {
        self.cpus@.len() == 0
    }

    /// Whether a refresh can read what has been read for it.
    pub open spec fn reading_usable(
        self,
        only_global: bool,
        usage: bool,
        reading: CpuReading,
    ) -> bool {
        reading.stat matches Some(stat) ==> stat_usable(
            stat@,
            self.cpus@.len(),
            only_global,
            usage,
        )
    }

    /// Whether the processors are as they were.
    pub open spec fn same_cpus(self, before: System<H>) -> bool {
        &&& self.global_cpu@ == before.global_cpu@
        &&& cpu_views(self.cpus@) == cpu_views(before.cpus@)
    }

    /// Whether the processors are what a refresh makes of those that were.
    pub open spec fn cpus_refreshed(
        self,
        before: System<H>,
        only_global: bool,
        usage: bool,
        reading: CpuReading,
    ) -> bool {
        match reading.stat {
            Some(stat) => {
                &&& self.global_cpu@ == refreshed_global(
                    before.global_cpu@,
                    before.no_cpu_yet(),
                    usage,
                    stat@,
                    reading.vendor_id@,
                    reading.brand@,
                )
                &&& cpu_views(self.cpus@) == refreshed_cpus(
                    cpu_views(before.cpus@),
                    only_global,
                    usage,
                    stat@,
                    reading.vendor_id@,
                    reading.brand@,
                )
            },
            None => self.same_cpus(before),
        }
    }

    /// Whether this is what a refresh of the processors makes of the system that was, and
    /// whether it wants the frequencies: nothing else changes, and where `/proc/stat`
    /// could be opened, the processors count as read.
    pub open spec fn is_cpu_refresh_of(
        self,
        before: System<H>,
        only_global: bool,
        refresh_kind: CpuRefreshKind,
        reading: CpuReading,
        frequencies_wanted: bool,
    ) -> bool {
        &&& self.cpus_refreshed(before, only_global, refresh_kind.cpu_usage, reading)
        &&& self == (System {
            global_cpu: self.global_cpu,
            cpus: self.cpus,
            need_cpus_update: before.need_cpus_update && reading.stat is None,
            ..before
        })
        &&& frequencies_wanted == wants_frequencies(
            before.no_cpu_yet(),
            refresh_kind,
            reading@.stat,
        )
    }

    /// A refresh can read nothing, where `/proc/stat` could not be opened, and otherwise the
    /// text that can be used with as many processors as are known.
    pub proof fn law_which_reading_can_be_used(
        self,
        only_global: bool,
        usage: bool,
        reading: CpuReading,
    )
        ensures
            reading.stat is None ==> self.reading_usable(only_global, usage, reading),
            reading.stat matches Some(stat) ==> self.reading_usable(only_global, usage, reading)
                == stat_usable(stat@, self.cpus@.len(), only_global, usage),
    {
    }

    /// A refresh of the processors changes nothing but them, and whether they are to be
    /// read: they are not once `/proc/stat` could be opened. Where it could not, nothing
    /// changes, and no frequency is wanted.
    pub proof fn law_only_the_cpus_change(
        self,
        before: System<H>,
        only_global: bool,
        refresh_kind: CpuRefreshKind,
        reading: CpuReading,
        frequencies_wanted: bool,
    )
        requires
            self.is_cpu_refresh_of(before, only_global, refresh_kind, reading, frequencies_wanted),
        ensures
            self.process_list == before.process_list,
            self.mem_total == before.mem_total,
            self.mem_free == before.mem_free,
            self.mem_available == before.mem_available,
            self.mem_buffers == before.mem_buffers,
            self.mem_page_cache == before.mem_page_cache,
            self.mem_slab_reclaimable == before.mem_slab_reclaimable,
            self.swap_total == before.swap_total,
            self.swap_free == before.swap_free,
            self.components == before.components,
            self.disks == before.disks,
            self.networks == before.networks,
            self.users == before.users,
            self.info == before.info,
            self.got_cpu_frequency == before.got_cpu_frequency,
            reading.stat is Some ==> !self.need_cpus_update,
            reading.stat is None ==> {
                &&& self.need_cpus_update == before.need_cpus_update
                &&& self.global_cpu@ == before.global_cpu@
                &&& cpu_views(self.cpus@) == cpu_views(before.cpus@)
                &&& !frequencies_wanted
            },
    {
    }

    /// A refresh that asks for the usage measures from the reading before to this one, for
    /// all processors together and for each that is listed.
    pub proof fn law_a_refresh_takes_the_counters(
        self,
        before: System<H>,
        only_global: bool,
        refresh_kind: CpuRefreshKind,
        reading: CpuReading,
        frequencies_wanted: bool,
        stat: &[u8],
        i: int,
    )
        requires
            self.is_cpu_refresh_of(before, only_global, refresh_kind, reading, frequencies_wanted),
            reading.stat == Some(stat),
            has_all_cpus_line(stat@),
        ensures
            refresh_kind.cpu_usage || before.cpus@.len() == 0 ==> {
                &&& self.global_cpu.values == cpu_times(file_lines(stat@)[0])
                &&& self.global_cpu.old_values == before.global_cpu.values
            },
            before.cpus@.len() == 0 ==> {
                &&& self.cpus@.len() == listed_cpus(stat@)
                &&& self.global_cpu.vendor_id@ == reading.vendor_id@
                &&& self.global_cpu.brand@ == reading.brand@
                &&& 0 <= i < self.cpus@.len() ==> {
                    &&& self.cpus@[i].values == cpu_times(file_lines(stat@)[i + 1])
                    &&& self.cpus@[i].name@ == cpu_name(file_lines(stat@)[i + 1])
                    &&& self.cpus@[i].vendor_id@ == reading.vendor_id@
                    &&& self.cpus@[i].brand@ == reading.brand@
                }
            },
            before.cpus@.len() > 0 ==> {
                &&& self.cpus@.len() == before.cpus@.len()
                &&& self.global_cpu.name@ == before.global_cpu.name@
                &&& 0 <= i < self.cpus@.len() ==> self.cpus@[i].name@ == before.cpus@[i].name@
                &&& 0 <= i < self.cpus@.len() && i < listed_cpus(stat@) && refresh_kind.cpu_usage
                    && !only_global ==> {
                    &&& self.cpus@[i].values == cpu_times(file_lines(stat@)[i + 1])
                    &&& self.cpus@[i].old_values == before.cpus@[i].values
                }
                &&& 0 <= i < self.cpus@.len() && (only_global || !refresh_kind.cpu_usage)
                    ==> self.cpus@[i]@ == before.cpus@[i]@
            },
            refresh_kind.frequency ==> frequencies_wanted,
    {
        let mine = cpu_views(self.cpus@);
        let was = cpu_views(before.cpus@);
        assert(mine.len() == self.cpus@.len() && was.len() == before.cpus@.len());
        assert(self.global_cpu@.values == self.global_cpu.values);
        assert(before.global_cpu@.values == before.global_cpu.values);
        if 0 <= i < self.cpus@.len() {
            assert(mine[i] == self.cpus@[i]@);
            if before.cpus@.len() > 0 {
                assert(was[i] == before.cpus@[i]@);
            }
        }
    }

    /// Whether [`System::refresh_cpus`] can read what has been read for it.
    pub fn can_refresh_cpus(
        &self,
        only_update_global_cpu: bool,
        refresh_kind: CpuRefreshKind,
        reading: CpuReading,
    ) -> (r: bool)
        ensures
            r == self.reading_usable(only_update_global_cpu, refresh_kind.cpu_usage, reading),
    {
        let stat = match reading.stat {
            Some(stat) => stat,
            None => {
                return true;
            },
        };
        let first = self.cpus.is_empty();
        if !(first || refresh_kind.cpu_usage()) {
            return true;
        }
        let lines = lines_of(stat);
        assert(contents(lines@).len() == lines@.len());
        if lines.len() == 0 {
            return true;
        }
        assert(file_lines(stat@)[0] == lines@[0]@);
        if lines[0].len() < 4 {
            return false;
        }
        if !is_all_cpus_line(lines[0]) {
            return true;
        }
        if !can_read_counters(lines[0]) {
            return false;
        }
        if !first && only_update_global_cpu {
            return true;
        }
        match count_listed(stat, &lines, first) {
            Some(n) => first || n <= self.cpus.len(),
            None => false,
        }
    }

    /// How many frequencies are to be read for a refresh, one for each processor that
    /// will be known, if it wants them.
    pub fn frequencies_to_read(
        &self,
        refresh_kind: CpuRefreshKind,
        reading: CpuReading,
    ) -> (r: Option<usize>)
        requires
            self.reading_usable(false, refresh_kind.cpu_usage, reading),
        ensures
            r is Some == wants_frequencies(self.no_cpu_yet(), refresh_kind, reading@.stat),
            r matches Some(n) ==> (reading.stat matches Some(stat) && n == refreshed_cpus(
                cpu_views(self.cpus@),
                false,
                refresh_kind.cpu_usage,
                stat@,
                reading.vendor_id@,
                reading.brand@,
            ).len()),
    {
        let stat = match reading.stat {
            Some(stat) => stat,
            None => {
                return None;
            },
        };
        if !refresh_kind.frequency() {
            return None;
        }
        let first = self.cpus.is_empty();
        if first || refresh_kind.cpu_usage() {
            let lines = lines_of(stat);
            assert(contents(lines@).len() == lines@.len());
            if lines.len() > 0 {
                assert(file_lines(stat@)[0] == lines@[0]@);
                if !is_all_cpus_line(lines[0]) {
                    return None;
                }
            }
            if first {
                return count_listed(stat, &lines, true);
            }
        }
        Some(self.cpus.len())
    }

    /// Takes what `/proc/stat` says of all processors together and, unless only
    /// those are asked for, of each. The first time around it takes everything that
    /// can be read, whatever is asked for, and learns which processors there are.
    ///
    /// Says whether the frequencies are to be read and handed to
    /// [`System::set_cpu_frequencies`].
    pub fn refresh_cpus(
        &mut self,
        only_update_global_cpu: bool,
        refresh_kind: CpuRefreshKind,
        reading: CpuReading,
    ) -> (frequencies_wanted: bool)
        requires
            old(self).reading_usable(only_update_global_cpu, refresh_kind.cpu_usage, reading),
        ensures
            final(self).is_cpu_refresh_of(
                *old(self),
                only_update_global_cpu,
                refresh_kind,
                reading,
                frequencies_wanted,
            ),
    {
        let stat = match reading.stat {
            Some(stat) => stat,
            None => {
                return false;
            },
        };
        self.need_cpus_update = false;
        let first = self.cpus.is_empty();
        if first || refresh_kind.cpu_usage() {
            let lines = lines_of(stat);
            assert(contents(lines@).len() == lines@.len());
            if lines.len() > 0 {
                assert(file_lines(stat@)[0] == lines@[0]@);
                if !is_all_cpus_line(lines[0]) {
                    return false;
                }
                if first {
                    proof {
                        lemma_all_cpus_name(lines@[0]@);
                    }
                    self.global_cpu.name = name_of(lines[0]);
                }
                self.global_cpu.set(times_of(lines[0]));
            }
            if first {
                self.cpus = listed(stat, &lines, reading.vendor_id, reading.brand);
            } else if !only_update_global_cpu {
                set_listed(&mut self.cpus, stat, &lines);
            }
        }
        if first {
            self.global_cpu.vendor_id = reading.vendor_id.to_owned();
            self.global_cpu.brand = reading.brand.to_owned();
        }
        assert(cpu_views(self.cpus@) =~= refreshed_cpus(
            cpu_views(old(self).cpus@),
            only_update_global_cpu,
            refresh_kind.cpu_usage,
            stat@,
            reading.vendor_id@,
            reading.brand@,
        ));
        refresh_kind.frequency()
    }

    /// Takes what `/proc/stat` says of all processors together and of each.
    pub fn refresh_cpu_specifics(
        &mut self,
        refresh_kind: CpuRefreshKind,
        reading: CpuReading,
    ) -> (frequencies_wanted: bool)
        requires
            old(self).reading_usable(false, refresh_kind.cpu_usage, reading),
        ensures
            final(self).is_cpu_refresh_of(
                *old(self),
                false,
                refresh_kind,
                reading,
                frequencies_wanted,
            ),
    {
        self.refresh_cpus(false, refresh_kind, reading)
    }

    /// Whether this is the system that was, with these frequencies of its processors, and
    /// the greatest of them for all together.
    pub open spec fn is_frequency_refresh_of(
        self,
        before: System<H>,
        frequencies: Seq<u64>,
    ) -> bool {
        &&& cpu_views(self.cpus@) == Seq::new(
            before.cpus@.len(),
            |i: int| CpuView { frequency: frequencies[i], ..before.cpus@[i]@ },
        )
        &&& is_greatest(frequencies, self.global_cpu.frequency)
        &&& self.global_cpu@ == (CpuView {
            frequency: self.global_cpu.frequency,
            ..before.global_cpu@
        })
        &&& self == (System {
            global_cpu: self.global_cpu,
            cpus: self.cpus,
            got_cpu_frequency: true,
            ..before
        })
    }

    /// Each processor gets the frequency at its place, and all together the greatest, or
    /// zero where there is none. Nothing else about them changes, nor about the system.
    pub proof fn law_frequencies_are_taken(
        self,
        before: System<H>,
        frequencies: Seq<u64>,
        i: int,
    )
        requires
            self.is_frequency_refresh_of(before, frequencies),
            frequencies.len() == before.cpus@.len(),
        ensures
            self.cpus@.len() == before.cpus@.len(),
            0 <= i < self.cpus@.len() ==> {
                &&& self.cpus@[i].frequency == frequencies[i]
                &&& self.cpus@[i].frequency <= self.global_cpu.frequency
                &&& self.cpus@[i].values == before.cpus@[i].values
                &&& self.cpus@[i].old_values == before.cpus@[i].old_values
                &&& self.cpus@[i].name@ == before.cpus@[i].name@
                &&& self.cpus@[i].vendor_id@ == before.cpus@[i].vendor_id@
                &&& self.cpus@[i].brand@ == before.cpus@[i].brand@
            },
            frequencies.len() > 0 ==> frequencies.contains(self.global_cpu.frequency),
            frequencies.len() == 0 ==> self.global_cpu.frequency == 0,
            self.global_cpu.values == before.global_cpu.values,
            self.global_cpu.old_values == before.global_cpu.old_values,
            self.global_cpu.name@ == before.global_cpu.name@,
            self.global_cpu.vendor_id@ == before.global_cpu.vendor_id@,
            self.global_cpu.brand@ == before.global_cpu.brand@,
            self.got_cpu_frequency,
            self.need_cpus_update == before.need_cpus_update,
            self.process_list == before.process_list,
            self.components == before.components,
            self.disks == before.disks,
            self.networks == before.networks,
            self.users == before.users,
            self.mem_total == before.mem_total,
            self.mem_free == before.mem_free,
    {
        let mine = cpu_views(self.cpus@);
        assert(mine.len() == self.cpus@.len());
        assert(self.global_cpu@.values == self.global_cpu.values);
        assert(before.global_cpu@.values == before.global_cpu.values);
        if 0 <= i < self.cpus@.len() {
            assert(mine[i] == self.cpus@[i]@);
            assert(mine[i] == (CpuView { frequency: frequencies[i], ..before.cpus@[i]@ }));
        }
    }

    /// Takes the frequency of each processor. That of all of them together is the
    /// greatest, or zero where there is none.
    pub fn set_cpu_frequencies(&mut self, frequencies: &[u64])
        requires
            frequencies@.len() == old(self).cpus@.len(),
        ensures
            final(self).is_frequency_refresh_of(*old(self), frequencies@),
    {
        let ghost was = self.cpus@;
        let mut greatest: u64 = 0;
        let mut i: usize = 0;
        while i < self.cpus.len()
            invariant
                i <= was.len(),
                self.cpus@.len() == was.len(),
                frequencies@.len() == was.len(),
                is_greatest(frequencies@.take(i as int), greatest),
                forall|k: int|
                    0 <= k < was.len() ==> (#[trigger] self.cpus@[k])@ == if k < i {
                        CpuView { frequency: frequencies@[k], ..was[k]@ }
                    } else {
                        was[k]@
                    },
                *self == (System { cpus: self.cpus, ..*old(self) }),
            decreases was.len() - i,
        {
            let frequency: u64 = frequencies[i];
            let ghost seen = frequencies@.take(i as int);
            self.cpus[i].frequency = frequency;
            proof {
                assert(frequencies@.take(i + 1) =~= seen.push(frequency));
                assert(seen.push(frequency)[i as int] == frequency);
                if i > 0 && frequency <= greatest {
                    let k = seen.index_of(greatest);
                    assert(seen.push(frequency)[k] == greatest);
                }
            }
            if i == 0 || frequency > greatest {
                greatest = frequency;
            }
            i = i + 1;
        }
        self.global_cpu.frequency = greatest;
        self.got_cpu_frequency = true;
        proof {
            assert(frequencies@.take(i as int) =~= frequencies@);
            assert(cpu_views(self.cpus@) =~= Seq::new(
                was.len(),
                |k: int| CpuView { frequency: frequencies@[k], ..was[k]@ },
            ));
        }
    }
}

} // verus!
