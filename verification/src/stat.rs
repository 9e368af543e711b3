//! `/proc/stat`: when the system was booted, and what each processor has done.
use crate::chars::utf8_text;
use crate::cpu::CpuTimes;
use crate::decimal::{
    decimal, digits, is_number, law_digits_round_trip, lemma_digits_are_digits, spells_u64, to_u64,
};
use crate::text::{
    begins_with, contents, file_lines, filled, first_index, law_a_prefix_is_followed_by_the_rest,
    law_only_empty_pieces_go, law_pieces_follow_each_other, lemma_first_index, lemma_split_first,
    lines_of, non_empty, pieces, split, starts_with, until,
};
use vstd::prelude::*;
use vstd::utf8::{
    decode_utf8, encode_utf8, encode_utf8_valid_utf8, is_ascii_chars_encode_utf8, valid_utf8,
};

verus! {

/// The words of a line: what stands between its spaces.
pub open spec fn fields(line: Seq<u8>) -> Seq<Seq<u8>> {
    non_empty(split(line, 0x20))
}

/// `btime`
pub open spec fn btime_word() -> Seq<u8> {
    seq![0x62, 0x74, 0x69, 0x6d, 0x65]
}

/// `cpu`
pub open spec fn cpu_word() -> Seq<u8> {
    seq![0x63, 0x70, 0x75]
}

/// `cpu` and a space
pub open spec fn all_cpus_word() -> Seq<u8> {
    seq![0x63, 0x70, 0x75, 0x20]
}

/// The first of the lines that begins with `prefix`.
pub open spec fn first_line_with(lines: Seq<Seq<u8>>, prefix: Seq<u8>) -> Option<Seq<u8>>
    decreases lines.len(),
{
    if lines.len() == 0 {
        None
    } else if starts_with(lines[0], prefix) {
        Some(lines[0])
    } else {
        first_line_with(lines.drop_first(), prefix)
    }
}

/// The line that tells the boot time.
pub open spec fn btime_line(stat: Seq<u8>) -> Option<Seq<u8>> {
    first_line_with(file_lines(stat), btime_word())
}

/// The number that is word `i` of the words, or zero where there are not as many.
pub open spec fn field_number(words: Seq<Seq<u8>>, i: int) -> nat {
    if i < words.len() {
        decimal(words[i])
    } else {
        0
    }
}

/// Whether the line that tells the boot time, if there is one, tells it by a number.
pub open spec fn boot_time_readable(stat: Seq<u8>) -> bool {
    btime_line(stat) matches Some(line) ==> (fields(line).len() > 1 ==> is_number(fields(line)[1]))
}

/// The boot time that `/proc/stat` tells, in seconds since the epoch.
pub open spec fn stat_boot_time(stat: Seq<u8>) -> Option<nat> {
    match btime_line(stat) {
        Some(line) => Some(field_number(fields(line), 1)),
        None => None,
    }
}

/// What a signed number of seconds is as an unsigned one: a negative one wraps.
pub open spec fn as_unsigned(x: i64) -> int {
    if x >= 0 {
        x as int
    } else {
        x + 0x1_0000_0000_0000_0000
    }
}

/// A signed number as an unsigned one.
pub fn unsigned(x: i64) -> (r: u64)
    ensures
        r == as_unsigned(x),
{
    assert((x as u64) == if x >= 0 {
        x as int
    } else {
        x + 0x1_0000_0000_0000_0000
    }) by (bit_vector);
    #[verifier::truncate]
    (x as u64)
}

/// The words of a line.
fn words_of(line: &[u8]) -> (words: Vec<&[u8]>)
    ensures
        contents(words@) == fields(line@),
{
    filled(&pieces(line, 0x20))
}

/// The number that is word `i`, or zero where there are not as many words.
fn number_at(words: &Vec<&[u8]>, i: usize) -> (r: u64)
    requires
        i < words@.len() ==> is_number(words@[i as int]@),
    ensures
        r == field_number(contents(words@), i as int),
{
    if i < words.len() {
        to_u64(words[i])
    } else {
        0
    }
}

/// The place of the first line that begins with `prefix`, if there is one.
fn find_line(lines: &Vec<&[u8]>, prefix: &[u8]) -> (r: Option<usize>)
    ensures
        match r {
            Some(i) => i < lines@.len() && first_line_with(contents(lines@), prefix@) == Some(
                lines@[i as int]@,
            ),
            None => first_line_with(contents(lines@), prefix@) is None,
        },
{
    let ghost all = contents(lines@);
    let mut i: usize = 0;
    assert(all.skip(0) =~= all);
    while i < lines.len()
        invariant
            i <= lines@.len(),
            all == contents(lines@),
            first_line_with(all.skip(i as int), prefix@) == first_line_with(all, prefix@),
        decreases lines@.len() - i,
    {
        if begins_with(lines[i], prefix) {
            return Some(i);
        }
        assert(all.skip(i as int).drop_first() =~= all.skip(i + 1));
        i = i + 1;
    }
    None
}

/// The boot time that `/proc/stat` tells, if it tells one.
pub fn boot_time_from_stat(stat: &[u8]) -> (r: Option<u64>)
    requires
        boot_time_readable(stat@),
    ensures
        r is Some == stat_boot_time(stat@) is Some,
        r matches Some(t) ==> stat_boot_time(stat@) == Some(t as nat),
{
    let lines = lines_of(stat);
    let word: [u8; 5] = [0x62, 0x74, 0x69, 0x6d, 0x65];
    assert(word@ =~= btime_word());
    match find_line(&lines, word.as_slice()) {
        Some(i) => {
            let words = words_of(lines[i]);
            Some(number_at(&words, 1))
        },
        None => None,
    }
}

/// Whether [`boot_time_from_stat`] can read the boot time.
pub fn can_read_boot_time(stat: &[u8]) -> (r: bool)
    ensures
        r == boot_time_readable(stat@),
{
    let lines = lines_of(stat);
    let word: [u8; 5] = [0x62, 0x74, 0x69, 0x6d, 0x65];
    assert(word@ =~= btime_word());
    match find_line(&lines, word.as_slice()) {
        Some(i) => {
            let words = words_of(lines[i]);
            assert(contents(words@).len() == words@.len());
            words.len() < 2 || spells_u64(words[1])
        },
        None => true,
    }
}

/// The boot time that `/proc/stat` tells, or that of the boot clock, or zero.
pub open spec fn told_boot_time(stat: Option<&[u8]>, boot_clock: Option<i64>) -> int {
    match stat {
        Some(s) if stat_boot_time(s@) is Some => stat_boot_time(s@)->0 as int,
        _ => match boot_clock {
            Some(seconds) => as_unsigned(seconds),
            None => 0,
        },
    }
}

/// What `/proc/stat` tells counts, whatever the clock shows. The clock counts where
/// `/proc/stat` cannot be opened or tells nothing, and where there is no clock either the
/// time is zero.
pub proof fn law_the_boot_clock_is_the_fallback(stat: &[u8], boot_clock: Option<i64>, seconds: i64)
    ensures
        stat_boot_time(stat@) matches Some(t) ==> told_boot_time(Some(stat), boot_clock) == t,
        stat_boot_time(stat@) is None ==> told_boot_time(Some(stat), boot_clock)
            == told_boot_time(None, boot_clock),
        told_boot_time(None, None) == 0,
        seconds >= 0 ==> told_boot_time(None, Some(seconds)) == seconds,
        seconds < 0 ==> told_boot_time(None, Some(seconds)) == seconds + u64::MAX + 1,
{
}

/// The boot time. `stat` is what `/proc/stat` holds, if it could be opened; where
/// that tells nothing, it is the seconds of the boot clock, if that could be read,
/// and otherwise zero.
pub fn boot_time(stat: Option<&[u8]>, boot_clock: Option<i64>) -> (r: u64)
    requires
        stat matches Some(s) ==> boot_time_readable(s@),
    ensures
        r == told_boot_time(stat, boot_clock),
{
    if let Some(s) = stat {
        if let Some(t) = boot_time_from_stat(s) {
            return t;
        }
    }
    match boot_clock {
        Some(seconds) => unsigned(seconds),
        None => 0,
    }
}

/// The word that a processor's line begins with.
pub open spec fn name_bytes(line: Seq<u8>) -> Seq<u8> {
    let words = fields(line);
    if words.len() > 0 {
        words[0]
    } else {
        seq![]
    }
}

/// The name of the processor that a line is about.
pub open spec fn cpu_name(line: Seq<u8>) -> Seq<char> {
    decode_utf8(name_bytes(line))
}

/// The counters that a line lists. Those that it leaves out at its end are zero.
pub open spec fn cpu_times(line: Seq<u8>) -> CpuTimes {
    let words = fields(line);
    CpuTimes {
        user: field_number(words, 1) as u64,
        nice: field_number(words, 2) as u64,
        system: field_number(words, 3) as u64,
        idle: field_number(words, 4) as u64,
        iowait: field_number(words, 5) as u64,
        irq: field_number(words, 6) as u64,
        softirq: field_number(words, 7) as u64,
        steal: field_number(words, 8) as u64,
        guest: field_number(words, 9) as u64,
        guest_nice: field_number(words, 10) as u64,
    }
}

/// Whether each counter that the line lists is a number.
pub open spec fn counters_readable(line: Seq<u8>) -> bool {
    forall|i: int| 1 <= i <= 10 && i < fields(line).len() ==> is_number(#[trigger] fields(line)[i])
}

/// How many lines in a row are about a processor, from line `from` on.
pub open spec fn cpu_line_count(lines: Seq<Seq<u8>>, from: int) -> nat
    decreases lines.len() - from,
{
    if 0 <= from < lines.len() && starts_with(lines[from], cpu_word()) {
        1 + cpu_line_count(lines, from + 1)
    } else {
        0
    }
}

/// How many processors `/proc/stat` lists: their lines follow the line about all
/// of them together.
pub open spec fn listed_cpus(stat: Seq<u8>) -> nat {
    cpu_line_count(file_lines(stat), 1)
}

/// The line about processor `i`.
pub open spec fn cpu_line(stat: Seq<u8>, i: int) -> Seq<u8> {
    file_lines(stat)[i + 1]
}

/// Whether `/proc/stat` begins with the line about all processors together.
pub open spec fn has_all_cpus_line(stat: Seq<u8>) -> bool {
    file_lines(stat).len() > 0 && starts_with(file_lines(stat)[0], all_cpus_word())
}

/// Whether the line about processor `i` can be read, with the name where `named`.
pub open spec fn cpu_line_readable(stat: Seq<u8>, i: int, named: bool) -> bool {
    &&& counters_readable(cpu_line(stat, i))
    &&& named ==> valid_utf8(name_bytes(cpu_line(stat, i)))
}

/// Whether the lines about the processors can be read: each of them, and the line
/// after them far enough to see that it is about none.
pub open spec fn cpu_lines_readable(stat: Seq<u8>, named: bool) -> bool {
    let lines = file_lines(stat);
    let n = listed_cpus(stat);
    &&& forall|i: int| 0 <= i < n ==> #[trigger] cpu_line_readable(stat, i, named)
    &&& n + 1 < lines.len() ==> lines[n as int + 1].len() >= 3
}

/// The name of "all processors together" stands at the beginning of its line.
pub proof fn lemma_all_cpus_name(line: Seq<u8>)
    requires
        starts_with(line, all_cpus_word()),
    ensures
        name_bytes(line) == cpu_word(),
        valid_utf8(cpu_word()),
        starts_with(line, cpu_word()),
{
    let head = line.take(4);
    assert(head == all_cpus_word());
    assert(line[0] == head[0] && line[1] == head[1] && line[2] == head[2] && line[3] == head[3]);
    lemma_first_index(line, 0x20u8);
    assert(first_index(line, 0x20u8) == 3);
    lemma_split_first(line, 0x20u8);
    assert(until(line, 0x20u8) =~= cpu_word());
    lemma_non_empty_first(split(line, 0x20u8));
    assert(line.take(3) =~= cpu_word());
    let word = seq!['c', 'p', 'u'];
    is_ascii_chars_encode_utf8(word);
    encode_utf8_valid_utf8(word);
    assert(encode_utf8(word) =~= cpu_word());
}

/// A first piece that holds something stays the first.
proof fn lemma_non_empty_first(parts: Seq<Seq<u8>>)
    requires
        parts.len() > 0,
        parts[0].len() > 0,
    ensures
        non_empty(parts).len() > 0,
        non_empty(parts)[0] == parts[0],
    decreases parts.len(),
{
    if parts.len() > 1 {
        lemma_non_empty_first(parts.drop_last());
    } else {
        assert(non_empty(parts.drop_last()) =~= seq![]);
    }
}

/// Each of the counted lines is there and is about a processor; the next is not.
pub proof fn lemma_cpu_line_count(lines: Seq<Seq<u8>>, from: int)
    requires
        0 <= from,
    ensures
        cpu_line_count(lines, from) > 0 ==> from + cpu_line_count(lines, from) <= lines.len(),
        forall|i: int|
            from <= i < from + cpu_line_count(lines, from) ==> starts_with(
                #[trigger] lines[i],
                cpu_word(),
            ),
        from + cpu_line_count(lines, from) < lines.len() ==> !starts_with(
            lines[from + cpu_line_count(lines, from)],
            cpu_word(),
        ),
    decreases lines.len() - from,
{
    if from < lines.len() && starts_with(lines[from], cpu_word()) {
        lemma_cpu_line_count(lines, from + 1);
    }
}

/// The words of a line are what stands between its spaces: however many spaces follow
/// each other, they hold no word between them.
pub proof fn law_words_stand_between_spaces(word: Seq<u8>, rest: Seq<u8>)
    requires
        !word.contains(0x20u8),
    ensures
        word.len() > 0 ==> fields(word.push(0x20u8) + rest) == seq![word] + fields(rest),
        word.len() == 0 ==> fields(word.push(0x20u8) + rest) == fields(rest),
        word.len() > 0 ==> fields(word) == seq![word],
        word.len() == 0 ==> fields(word) == Seq::<Seq<u8>>::empty(),
{
    law_pieces_follow_each_other(word, 0x20u8, rest);
    law_only_empty_pieces_go(seq![word], split(rest, 0x20u8), word);
    assert(Seq::<Seq<u8>>::empty() + fields(rest) =~= fields(rest));
}

/// The first line that begins with `btime` tells the boot time, by its second word, and
/// by zero where it has none.
pub proof fn law_the_first_btime_line_decides(stat: Seq<u8>, i: int)
    requires
        0 <= i < file_lines(stat).len(),
        starts_with(file_lines(stat)[i], seq![0x62u8, 0x74, 0x69, 0x6d, 0x65]),
        forall|k: int|
            0 <= k < i ==> !starts_with(
                #[trigger] file_lines(stat)[k],
                seq![0x62u8, 0x74, 0x69, 0x6d, 0x65],
            ),
    ensures
        ({
            let words = fields(file_lines(stat)[i]);
            &&& words.len() > 1 ==> stat_boot_time(stat) == Some(decimal(words[1]))
            &&& words.len() <= 1 ==> stat_boot_time(stat) == Some(0nat)
            &&& boot_time_readable(stat) <==> (words.len() > 1 ==> is_number(words[1]))
        }),
{
    lemma_first_line_with(file_lines(stat), btime_word(), i);
}

/// Where no line begins with `btime`, no boot time is told.
pub proof fn law_without_a_btime_line_nothing_is_told(stat: Seq<u8>)
    requires
        forall|k: int|
            0 <= k < file_lines(stat).len() ==> !starts_with(
                #[trigger] file_lines(stat)[k],
                seq![0x62u8, 0x74, 0x69, 0x6d, 0x65],
            ),
    ensures
        stat_boot_time(stat) is None,
        boot_time_readable(stat),
{
    lemma_no_line_with(file_lines(stat), btime_word());
}

/// A boot time that is written as a number is read as that number.
pub proof fn law_boot_time_round_trip(stat: Seq<u8>, i: int, n: u64)
    requires
        0 <= i < file_lines(stat).len(),
        file_lines(stat)[i] == seq![0x62u8, 0x74, 0x69, 0x6d, 0x65, 0x20] + digits(n as nat),
        forall|k: int|
            0 <= k < i ==> !starts_with(
                #[trigger] file_lines(stat)[k],
                seq![0x62u8, 0x74, 0x69, 0x6d, 0x65],
            ),
    ensures
        boot_time_readable(stat),
        stat_boot_time(stat) == Some(n as nat),
{
    let line = file_lines(stat)[i];
    let word = seq![0x62u8, 0x74, 0x69, 0x6d, 0x65];
    let number = digits(n as nat);
    assert(line =~= word.push(0x20u8) + number);
    assert(line =~= word + (seq![0x20u8] + number));
    law_a_prefix_is_followed_by_the_rest(line, word, seq![0x20u8] + number);
    law_the_first_btime_line_decides(stat, i);
    law_digits_round_trip(n);
    lemma_digits_are_digits(n as nat);
    law_words_stand_between_spaces(word, number);
    law_words_stand_between_spaces(number, seq![]);
    assert(fields(line) =~= seq![word, number]);
}

proof fn lemma_first_line_with(lines: Seq<Seq<u8>>, prefix: Seq<u8>, i: int)
    requires
        0 <= i < lines.len(),
        starts_with(lines[i], prefix),
        forall|k: int| 0 <= k < i ==> !starts_with(#[trigger] lines[k], prefix),
    ensures
        first_line_with(lines, prefix) == Some(lines[i]),
    decreases lines.len(),
{
    if i > 0 {
        assert(!starts_with(lines[0], prefix));
        assert forall|k: int| 0 <= k < i - 1 implies !starts_with(
            #[trigger] lines.drop_first()[k],
            prefix,
        ) by {
            assert(lines.drop_first()[k] == lines[k + 1]);
        }
        lemma_first_line_with(lines.drop_first(), prefix, i - 1);
    }
}

proof fn lemma_no_line_with(lines: Seq<Seq<u8>>, prefix: Seq<u8>)
    requires
        forall|k: int| 0 <= k < lines.len() ==> !starts_with(#[trigger] lines[k], prefix),
    ensures
        first_line_with(lines, prefix) is None,
    decreases lines.len(),
{
    if lines.len() > 0 {
        assert(!starts_with(lines[0], prefix));
        assert forall|k: int| 0 <= k < lines.drop_first().len() implies !starts_with(
            #[trigger] lines.drop_first()[k],
            prefix,
        ) by {
            assert(lines.drop_first()[k] == lines[k + 1]);
        }
        lemma_no_line_with(lines.drop_first(), prefix);
    }
}

/// A signed number and the unsigned one that it is taken as differ by a multiple of two
/// to the power of 64, and the latter fits.
pub proof fn law_as_unsigned_wraps(x: i64)
    ensures
        0 <= as_unsigned(x) <= u64::MAX,
        as_unsigned(x) % 0x1_0000_0000_0000_0000 == x as int % 0x1_0000_0000_0000_0000,
        x >= 0 ==> as_unsigned(x) == x,
{
}

/// A processor is named by the word that its line begins with.
pub proof fn law_a_line_begins_with_the_name(name: Seq<char>, rest: Seq<u8>)
    requires
        name.len() > 0,
        !encode_utf8(name).contains(0x20u8),
    ensures
        cpu_name(encode_utf8(name).push(0x20u8) + rest) == name,
        cpu_name(encode_utf8(name)) == name,
{
    let word = encode_utf8(name);
    law_words_stand_between_spaces(word, rest);
    vstd::utf8::encode_utf8_decode_utf8(name);
    if word.len() == 0 {
        assert(decode_utf8(word) =~= Seq::<char>::empty());
    }
}

/// The counters stand in the order in which the kernel lists them, behind the name. Those
/// that a line leaves out are zero, and what follows the tenth does not matter.
pub proof fn law_counters_stand_in_order(line: Seq<u8>)
    requires
        counters_readable(line),
    ensures
        ({
            let words = fields(line);
            let t = cpu_times(line);
            &&& words.len() > 1 ==> t.user == decimal(words[1])
            &&& words.len() > 2 ==> t.nice == decimal(words[2])
            &&& words.len() > 3 ==> t.system == decimal(words[3])
            &&& words.len() > 4 ==> t.idle == decimal(words[4])
            &&& words.len() > 5 ==> t.iowait == decimal(words[5])
            &&& words.len() > 6 ==> t.irq == decimal(words[6])
            &&& words.len() > 7 ==> t.softirq == decimal(words[7])
            &&& words.len() > 8 ==> t.steal == decimal(words[8])
            &&& words.len() > 9 ==> t.guest == decimal(words[9])
            &&& words.len() > 10 ==> t.guest_nice == decimal(words[10])
            &&& words.len() <= 1 ==> t.user == 0
            &&& words.len() <= 2 ==> t.nice == 0
            &&& words.len() <= 3 ==> t.system == 0
            &&& words.len() <= 4 ==> t.idle == 0
            &&& words.len() <= 5 ==> t.iowait == 0
            &&& words.len() <= 6 ==> t.irq == 0
            &&& words.len() <= 7 ==> t.softirq == 0
            &&& words.len() <= 8 ==> t.steal == 0
            &&& words.len() <= 9 ==> t.guest == 0
            &&& words.len() <= 10 ==> t.guest_nice == 0
        }),
{
    let words = fields(line);
    assert forall|i: int| 1 <= i <= 10 && i < words.len() implies decimal(#[trigger] words[i])
        <= u64::MAX by {
        assert(is_number(fields(line)[i]));
    }
}

/// Counters that are written as numbers can be read, and are read as those numbers.
pub proof fn law_counters_round_trip(line: Seq<u8>, name: Seq<u8>, t: CpuTimes)
    requires
        fields(line) == seq![
            name,
            digits(t.user as nat),
            digits(t.nice as nat),
            digits(t.system as nat),
            digits(t.idle as nat),
            digits(t.iowait as nat),
            digits(t.irq as nat),
            digits(t.softirq as nat),
            digits(t.steal as nat),
            digits(t.guest as nat),
            digits(t.guest_nice as nat),
        ],
    ensures
        counters_readable(line),
        cpu_times(line) == t,
{
    law_digits_round_trip(t.user);
    law_digits_round_trip(t.nice);
    law_digits_round_trip(t.system);
    law_digits_round_trip(t.idle);
    law_digits_round_trip(t.iowait);
    law_digits_round_trip(t.irq);
    law_digits_round_trip(t.softirq);
    law_digits_round_trip(t.steal);
    law_digits_round_trip(t.guest);
    law_digits_round_trip(t.guest_nice);
}

/// A line whose words behind the name are numbers can be read, however many there are.
pub proof fn law_numbers_can_be_read(line: Seq<u8>)
    ensures
        (forall|i: int|
            1 <= i < fields(line).len() ==> is_number(#[trigger] fields(line)[i]))
            ==> counters_readable(line),
        counters_readable(line) ==> forall|i: int|
            1 <= i <= 10 && i < fields(line).len() ==> is_number(#[trigger] fields(line)[i]),
{
}

/// The processors that are listed are those whose lines, begun with `cpu`, follow the
/// first line without another between them.
pub proof fn law_listed_cpus_follow_the_first_line(stat: Seq<u8>)
    ensures
        ({
            let lines = file_lines(stat);
            let n = listed_cpus(stat);
            &&& n > 0 ==> n < lines.len()
            &&& forall|i: int|
                0 <= i < n ==> cpu_line(stat, i) == lines[i + 1] && starts_with(
                    #[trigger] lines[i + 1],
                    seq![0x63u8, 0x70, 0x75],
                )
            &&& n + 1 < lines.len() ==> !starts_with(
                lines[n as int + 1],
                seq![0x63u8, 0x70, 0x75],
            )
        }),
{
    lemma_cpu_line_count(file_lines(stat), 1);
}

/// The line about all processors together is the first, and begins with `cpu` and a
/// space.
pub proof fn law_the_first_line_is_about_all(stat: Seq<u8>)
    ensures
        has_all_cpus_line(stat) <==> file_lines(stat).len() > 0 && starts_with(
            file_lines(stat)[0],
            seq![0x63u8, 0x70, 0x75, 0x20],
        ),
{
}

/// The lines about the processors can be read where the counters of each are numbers, its
/// name is text if it is asked for, and the next line is not too short to be told apart;
/// and only there.
pub proof fn law_which_lines_can_be_read(stat: Seq<u8>, named: bool)
    ensures
        cpu_lines_readable(stat, named) <==> {
            let lines = file_lines(stat);
            let n = listed_cpus(stat);
            &&& forall|i: int|
                1 <= i <= n ==> counters_readable(#[trigger] lines[i]) && (named ==> valid_utf8(
                    name_bytes(lines[i]),
                ))
            &&& n + 1 < lines.len() ==> lines[n as int + 1].len() >= 3
        },
{
    let lines = file_lines(stat);
    let n = listed_cpus(stat);
    if cpu_lines_readable(stat, named) {
        assert forall|i: int| 1 <= i <= n implies counters_readable(#[trigger] lines[i]) && (named
            ==> valid_utf8(name_bytes(lines[i]))) by {
            assert(cpu_line_readable(stat, i - 1, named));
        }
    }
    if forall|i: int|
        1 <= i <= n ==> counters_readable(#[trigger] lines[i]) && (named ==> valid_utf8(
            name_bytes(lines[i]),
        )) {
        assert forall|i: int| 0 <= i < n implies #[trigger] cpu_line_readable(stat, i, named) by {
            assert(counters_readable(lines[i + 1]));
        }
    }
}

/// The counters that the line lists.
pub fn times_of(line: &[u8]) -> (r: CpuTimes)
    requires
        counters_readable(line@),
    ensures
        r == cpu_times(line@),
{
    let words = words_of(line);
    assert(contents(words@).len() == words@.len());
    assert forall|i: int| 1 <= i <= 10 && i < words@.len() implies is_number(
        #[trigger] words@[i]@,
    ) by {
        assert(fields(line@)[i] == words@[i]@);
    }
    CpuTimes {
        user: number_at(&words, 1),
        nice: number_at(&words, 2),
        system: number_at(&words, 3),
        idle: number_at(&words, 4),
        iowait: number_at(&words, 5),
        irq: number_at(&words, 6),
        softirq: number_at(&words, 7),
        steal: number_at(&words, 8),
        guest: number_at(&words, 9),
        guest_nice: number_at(&words, 10),
    }
}

/// Whether each counter that the line lists is a number.
pub fn can_read_counters(line: &[u8]) -> (r: bool)
    ensures
        r == counters_readable(line@),
{
    let words = words_of(line);
    assert(contents(words@).len() == words@.len());
    let mut i: usize = 1;
    while i <= 10 && i < words.len()
        invariant
            1 <= i <= 11,
            contents(words@) == fields(line@),
            words@.len() == fields(line@).len(),
            forall|k: int| 1 <= k < i ==> is_number(#[trigger] fields(line@)[k]),
        decreases 11 - i,
    {
        assert(fields(line@)[i as int] == words@[i as int]@);
        if !spells_u64(words[i]) {
            return false;
        }
        i = i + 1;
    }
    true
}

/// The name of the processor that the line is about.
pub fn name_of(line: &[u8]) -> (r: String)
    requires
        valid_utf8(name_bytes(line@)),
    ensures
        r@ == cpu_name(line@),
{
    let words = words_of(line);
    assert(contents(words@).len() == words@.len());
    if words.len() > 0 {
        assert(fields(line@)[0] == words@[0]@);
        match utf8_text(words[0]) {
            Some(name) => name.to_owned(),
            None => String::new(),
        }
    } else {
        assert(decode_utf8(Seq::<u8>::empty()) =~= Seq::<char>::empty());
        String::new()
    }
}

/// Whether the name of the processor that the line is about is text.
pub fn can_read_name(line: &[u8]) -> (r: bool)
    ensures
        r == valid_utf8(name_bytes(line@)),
{
    let words = words_of(line);
    assert(contents(words@).len() == words@.len());
    if words.len() > 0 {
        assert(fields(line@)[0] == words@[0]@);
        utf8_text(words[0]).is_some()
    } else {
        true
    }
}

/// Whether the line is about all processors together.
pub fn is_all_cpus_line(line: &[u8]) -> (r: bool)
    ensures
        r == starts_with(line@, all_cpus_word()),
{
    let word: [u8; 4] = [0x63, 0x70, 0x75, 0x20];
    assert(word@ =~= all_cpus_word());
    begins_with(line, word.as_slice())
}

/// Whether the line is about a processor.
pub fn is_cpu_line(line: &[u8]) -> (r: bool)
    ensures
        r == starts_with(line@, cpu_word()),
{
    let word: [u8; 3] = [0x63, 0x70, 0x75];
    assert(word@ =~= cpu_word());
    begins_with(line, word.as_slice())
}

} // verus!
