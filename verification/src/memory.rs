//! `/proc/meminfo`: how much memory there is, and how much of it is free.
use crate::chars::{chars_of, is_white_space, law_trim_start, trim_start, trimmed_start};
use crate::decimal::{digit_chars, law_digit_chars_round_trip, parse_u64, unsigned_value};
use crate::system::{Host, System};
use crate::text::{
    after, before, behind, contents, law_a_prefix_is_followed_by_the_rest,
    law_cut_at_the_first_separator, law_sides_of_a_separator, lemma_until_behind, pieces,
    same_text, split, starts_with, until,
};
use vstd::prelude::*;

verus! {

/// The amount in kB that an amount in KiB is, rounded down. One whose multiplication
/// by 128 does not fit is taken as the greatest that does.
pub open spec fn kib_to_kb(kib: u64) -> u64 {
    if kib * 128 <= u64::MAX {
        (kib * 128 / 125) as u64
    } else {
        u64::MAX / 125
    }
}

/// A KiB is 1024 bytes and a kB is 1000: an amount that is not cut off comes out as
/// the same number of bytes, to the kB below.
pub proof fn law_kib_to_kb(kib: u64)
    requires
        kib * 128 <= u64::MAX,
    ensures
        kib_to_kb(kib) * 1000 <= kib * 1024 < (kib_to_kb(kib) + 1) * 1000,
{
}

/// An amount whose multiplication by 128 does not fit comes out as the greatest number,
/// divided by 125.
pub proof fn law_kib_to_kb_is_held(kib: u64)
    requires
        kib * 128 > u64::MAX,
    ensures
        kib_to_kb(kib) * 125 <= u64::MAX < (kib_to_kb(kib) + 1) * 125,
{
}

/// The amount that a line gives to `key`, if it is about `key`: the word between its
/// first colon and whatever space or second colon follows, where that is a number.
pub open spec fn line_amount(line: Seq<char>, key: Seq<char>) -> Option<u64> {
    if until(line, ':') == key {
        match after(line, ':') {
            Some(rest) => match unsigned_value(until(trim_start(until(rest, ':')), ' ')) {
                Some(kib) => Some(kib_to_kb(kib)),
                None => None,
            },
            None => None,
        }
    } else {
        None
    }
}

/// The amount that the last of the lines that gives one gives to `key`, or
/// `otherwise` where none does.
pub open spec fn latest_amount(lines: Seq<Seq<char>>, key: Seq<char>, otherwise: u64) -> u64
    decreases lines.len(),
{
    if lines.len() == 0 {
        otherwise
    } else {
        match line_amount(lines.last(), key) {
            Some(amount) => amount,
            None => latest_amount(lines.drop_last(), key, otherwise),
        }
    }
}

/// The amount that `/proc/meminfo` gives to `key`, or `otherwise` where it gives none.
pub open spec fn meminfo_amount(data: Seq<char>, key: Seq<char>, otherwise: u64) -> u64 {
    latest_amount(split(data, '\n'), key, otherwise)
}

/// A line about `key` gives it the first word behind its colon, in kB, where that is a
/// number, whatever blank space stands before the word and whatever follows it.
pub proof fn law_a_line_gives_its_first_word(
    key: Seq<char>,
    blank: Seq<char>,
    word: Seq<char>,
    tail: Seq<char>,
)
    requires
        !key.contains(':'),
        forall|i: int| 0 <= i < blank.len() ==> is_white_space(#[trigger] blank[i]),
        word.len() > 0,
        !is_white_space(word[0]),
        !word.contains(' '),
        !word.contains(':'),
        tail.len() == 0 || tail[0] == ' ' || tail[0] == ':',
    ensures
        line_amount(key.push(':') + (blank + word + tail), key) == match unsigned_value(word) {
            Some(kib) => Some(kib_to_kb(kib)),
            None => None,
        },
{
    let rest = blank + word + tail;
    law_sides_of_a_separator(key, ':', rest);
    let front = blank + word;
    assert(!front.contains(':')) by {
        if front.contains(':') {
            let k = front.index_of(':');
            if k < blank.len() {
                assert(is_white_space(blank[k]));
            } else {
                assert(word[k - blank.len()] == ':');
            }
        }
    }
    lemma_until_behind(front, tail, ':');
    let more = until(tail, ':');
    assert(until(rest, ':') =~= blank + (word + more));
    law_trim_start(blank, word + more);
    lemma_until_behind(word, more, ' ');
    law_cut_at_the_first_separator(tail, ':');
    if tail.len() > 0 && tail[0] == ':' {
        law_sides_of_a_separator(Seq::<char>::empty(), ':', tail.skip(1));
        assert(tail =~= Seq::<char>::empty().push(':') + tail.skip(1));
        assert(more =~= Seq::<char>::empty());
    }
    if more.len() > 0 {
        assert(more[0] == ' ');
        law_sides_of_a_separator(Seq::<char>::empty(), ' ', more.skip(1));
        assert(more =~= Seq::<char>::empty().push(' ') + more.skip(1));
    } else {
        law_sides_of_a_separator(Seq::<char>::empty(), ' ', Seq::<char>::empty());
        assert(more =~= Seq::<char>::empty());
    }
    assert(word + Seq::<char>::empty() =~= word);
}

/// A line with nothing but blank space behind its colon gives nothing.
pub proof fn law_blank_space_is_no_amount(key: Seq<char>, blank: Seq<char>)
    requires
        !key.contains(':'),
        forall|i: int| 0 <= i < blank.len() ==> is_white_space(#[trigger] blank[i]),
    ensures
        line_amount(key.push(':') + blank, key) is None,
{
    law_sides_of_a_separator(key, ':', blank);
    assert(!blank.contains(':')) by {
        if blank.contains(':') {
            assert(is_white_space(blank[blank.index_of(':')]));
        }
    }
    law_sides_of_a_separator(blank, ':', Seq::<char>::empty());
    assert(blank + Seq::<char>::empty() =~= blank);
    law_trim_start(blank, Seq::<char>::empty());
    law_sides_of_a_separator(Seq::<char>::empty(), ' ', Seq::<char>::empty());
    assert(Seq::<char>::empty().len() == 0);
}

/// A line gives an amount to the key that it begins with, up to a colon, and to no other.
pub proof fn law_a_line_is_about_one_key(line: Seq<char>, key: Seq<char>)
    requires
        line_amount(line, key) is Some,
    ensures
        !key.contains(':'),
        starts_with(line, key.push(':')),
{
    law_cut_at_the_first_separator(line, ':');
    let rest = after(line, ':')->0;
    law_a_prefix_is_followed_by_the_rest(line, key.push(':'), rest);
}

/// A number behind the colon is given as that number of KiB, in kB.
pub proof fn law_amount_round_trip(key: Seq<char>, blank: Seq<char>, kib: u64, tail: Seq<char>)
    requires
        !key.contains(':'),
        forall|i: int| 0 <= i < blank.len() ==> is_white_space(#[trigger] blank[i]),
        tail.len() == 0 || tail[0] == ' ' || tail[0] == ':',
    ensures
        line_amount(key.push(':') + (blank + digit_chars(kib as nat) + tail), key) == Some(
            kib_to_kb(kib),
        ),
{
    let word = digit_chars(kib as nat);
    law_digit_chars_round_trip(kib);
    assert('0' <= word[0] <= '9');
    assert(!word.contains(' ') && !word.contains(':')) by {
        if word.contains(' ') {
            assert('0' <= word[word.index_of(' ')] <= '9');
        }
        if word.contains(':') {
            assert('0' <= word[word.index_of(':')] <= '9');
        }
    }
    law_a_line_gives_its_first_word(key, blank, word, tail);
}

/// The last line that gives an amount to `key` decides, wherever it stands and
/// whatever was known before.
pub proof fn law_last_line_decides(lines: Seq<Seq<char>>, key: Seq<char>, otherwise: u64, i: int)
    requires
        0 <= i < lines.len(),
        line_amount(lines[i], key) is Some,
        forall|k: int| i < k < lines.len() ==> line_amount(#[trigger] lines[k], key) is None,
    ensures
        Some(latest_amount(lines, key, otherwise)) == line_amount(lines[i], key),
    decreases lines.len(),
{
    if i < lines.len() - 1 {
        law_last_line_decides(lines.drop_last(), key, otherwise, i);
    }
}

/// Where no line gives an amount to `key`, what was known stays.
pub proof fn law_unmentioned_amount_stays(lines: Seq<Seq<char>>, key: Seq<char>, otherwise: u64)
    requires
        forall|k: int| 0 <= k < lines.len() ==> line_amount(#[trigger] lines[k], key) is None,
    ensures
        latest_amount(lines, key, otherwise) == otherwise,
    decreases lines.len(),
{
    if lines.len() > 0 {
        law_unmentioned_amount_stays(lines.drop_last(), key, otherwise);
    }
}

/// Reading the same text again changes nothing.
pub proof fn law_rereading_changes_nothing(data: Seq<char>, key: Seq<char>, otherwise: u64)
    ensures
        meminfo_amount(data, key, meminfo_amount(data, key, otherwise)) == meminfo_amount(
            data,
            key,
            otherwise,
        ),
{
    lemma_rereading(split(data, '\n'), key, otherwise);
}

proof fn lemma_rereading(lines: Seq<Seq<char>>, key: Seq<char>, otherwise: u64)
    ensures
        latest_amount(lines, key, latest_amount(lines, key, otherwise)) == latest_amount(
            lines,
            key,
            otherwise,
        ),
    decreases lines.len(),
{
    if lines.len() > 0 {
        lemma_rereading(lines.drop_last(), key, otherwise);
    }
}

/// The amount in kB that an amount in KiB is.
fn to_kb(kib: u64) -> (r: u64)
    ensures
        r == kib_to_kb(kib),
{
    match kib.checked_mul(128) {
        Some(product) => product / 125,
        None => u64::MAX / 125,
    }
}

/// The amount that a line gives to whatever it is about.
fn amount_in(line: &[char]) -> (r: Option<u64>)
    ensures
        r == line_amount(line@, until(line@, ':')),
{
    match behind(line, ':') {
        Some(rest) => match parse_u64(before(trimmed_start(before(rest, ':')), ' ')) {
            Some(kib) => Some(to_kb(kib)),
            None => None,
        },
        None => None,
    }
}

/// The keys differ from each other.
proof fn lemma_keys_differ()
    ensures
        "MemTotal"@ != "MemFree"@,
        "MemTotal"@ != "MemAvailable"@,
        "MemTotal"@ != "Buffers"@,
        "MemTotal"@ != "Cached"@,
        "MemTotal"@ != "SReclaimable"@,
        "MemTotal"@ != "SwapTotal"@,
        "MemTotal"@ != "SwapFree"@,
        "MemFree"@ != "MemAvailable"@,
        "MemFree"@ != "Buffers"@,
        "MemFree"@ != "Cached"@,
        "MemFree"@ != "SReclaimable"@,
        "MemFree"@ != "SwapTotal"@,
        "MemFree"@ != "SwapFree"@,
        "MemAvailable"@ != "Buffers"@,
        "MemAvailable"@ != "Cached"@,
        "MemAvailable"@ != "SReclaimable"@,
        "MemAvailable"@ != "SwapTotal"@,
        "MemAvailable"@ != "SwapFree"@,
        "Buffers"@ != "Cached"@,
        "Buffers"@ != "SReclaimable"@,
        "Buffers"@ != "SwapTotal"@,
        "Buffers"@ != "SwapFree"@,
        "Cached"@ != "SReclaimable"@,
        "Cached"@ != "SwapTotal"@,
        "Cached"@ != "SwapFree"@,
        "SReclaimable"@ != "SwapTotal"@,
        "SReclaimable"@ != "SwapFree"@,
        "SwapTotal"@ != "SwapFree"@,
{
    reveal_strlit("MemTotal");
    reveal_strlit("MemFree");
    reveal_strlit("MemAvailable");
    reveal_strlit("Buffers");
    reveal_strlit("Cached");
    reveal_strlit("SReclaimable");
    reveal_strlit("SwapTotal");
    reveal_strlit("SwapFree");
    assert("MemTotal"@.len() == 8 && "SwapFree"@.len() == 8);
    assert("MemFree"@.len() == 7 && "Buffers"@.len() == 7);
    assert("MemAvailable"@.len() == 12 && "SReclaimable"@.len() == 12);
    assert("Cached"@.len() == 6 && "SwapTotal"@.len() == 9);
    assert("MemTotal"@[0] != "SwapFree"@[0]);
    assert("MemFree"@[0] != "Buffers"@[0]);
    assert("MemAvailable"@[0] != "SReclaimable"@[0]);
}

/// Whether some line of `data` gives an amount to `key`.
pub open spec fn gives(data: Seq<char>, key: Seq<char>) -> bool {
    exists|i: int|
        0 <= i < split(data, '\n').len() && line_amount(#[trigger] split(data, '\n')[i], key)
            is Some
}

/// Whether line `i` of `data` gives an amount to `key`, and no later one does.
pub open spec fn gives_last(data: Seq<char>, key: Seq<char>, i: int) -> bool {
    let lines = split(data, '\n');
    &&& 0 <= i < lines.len()
    &&& line_amount(lines[i], key) is Some
    &&& forall|k: int| i < k < lines.len() ==> line_amount(#[trigger] lines[k], key) is None
}

proof fn lemma_amount(data: Seq<char>, key: Seq<char>, one: u64, other: u64, i: int)
    ensures
        gives_last(data, key, i) ==> Some(meminfo_amount(data, key, one)) == line_amount(
            split(data, '\n')[i],
            key,
        ),
        gives(data, key) ==> meminfo_amount(data, key, one) == meminfo_amount(data, key, other),
        !gives(data, key) ==> meminfo_amount(data, key, one) == one,
{
    let lines = split(data, '\n');
    if gives_last(data, key, i) {
        law_last_line_decides(lines, key, one, i);
    }
    if gives(data, key) {
        lemma_given_amount(lines, key, one, other);
    } else {
        law_unmentioned_amount_stays(lines, key, one);
    }
}

/// Where some line gives an amount, what was known before does not matter.
proof fn lemma_given_amount(lines: Seq<Seq<char>>, key: Seq<char>, one: u64, other: u64)
    requires
        exists|i: int| 0 <= i < lines.len() && line_amount(#[trigger] lines[i], key) is Some,
    ensures
        latest_amount(lines, key, one) == latest_amount(lines, key, other),
    decreases lines.len(),
{
    if line_amount(lines.last(), key) is None {
        let i = choose|i: int|
            0 <= i < lines.len() && line_amount(#[trigger] lines[i], key) is Some;
        assert(lines.drop_last()[i] == lines[i]);
        lemma_given_amount(lines.drop_last(), key, one, other);
    }
}

impl<H: Host> System<H> {
    /// Each amount of memory is what the last line that gives it says, in kB.
    pub proof fn law_memory_is_what_the_last_line_says(
        self,
        was: System<H>,
        data: Seq<char>,
        i: int,
    )
        requires
            self.memory_read(was, data),
        ensures
            ({
                let line = split(data, '\n')[i];
                &&& gives_last(data, "MemTotal"@, i) ==> Some(self.mem_total) == line_amount(
                    line,
                    "MemTotal"@,
                )
                &&& gives_last(data, "MemFree"@, i) ==> Some(self.mem_free) == line_amount(
                    line,
                    "MemFree"@,
                )
                &&& gives_last(data, "MemAvailable"@, i) ==> Some(self.mem_available)
                    == line_amount(line, "MemAvailable"@)
                &&& gives_last(data, "Buffers"@, i) ==> Some(self.mem_buffers) == line_amount(
                    line,
                    "Buffers"@,
                )
                &&& gives_last(data, "Cached"@, i) ==> Some(self.mem_page_cache) == line_amount(
                    line,
                    "Cached"@,
                )
                &&& gives_last(data, "SReclaimable"@, i) ==> Some(self.mem_slab_reclaimable)
                    == line_amount(line, "SReclaimable"@)
                &&& gives_last(data, "SwapTotal"@, i) ==> Some(self.swap_total) == line_amount(
                    line,
                    "SwapTotal"@,
                )
                &&& gives_last(data, "SwapFree"@, i) ==> Some(self.swap_free) == line_amount(
                    line,
                    "SwapFree"@,
                )
            }),
    {
        lemma_amount(data, "MemTotal"@, was.mem_total, 0, i);
        lemma_amount(data, "MemFree"@, was.mem_free, 0, i);
        lemma_amount(data, "MemAvailable"@, was.mem_available, 0, i);
        lemma_amount(data, "Buffers"@, was.mem_buffers, 0, i);
        lemma_amount(data, "Cached"@, was.mem_page_cache, 0, i);
        lemma_amount(data, "SReclaimable"@, was.mem_slab_reclaimable, 0, i);
        lemma_amount(data, "SwapTotal"@, was.swap_total, 0, i);
        lemma_amount(data, "SwapFree"@, was.swap_free, 0, i);
    }

    /// What was known before does not matter for an amount that is given: two systems that
    /// read the same text have it in common. One that is not given stays as it was.
    pub proof fn law_given_amounts_replace_those_known(
        self,
        was: System<H>,
        other: System<H>,
        other_was: System<H>,
        data: Seq<char>,
    )
        requires
            self.memory_read(was, data),
            other.memory_read(other_was, data),
        ensures
            gives(data, "MemTotal"@) ==> self.mem_total == other.mem_total,
            gives(data, "MemFree"@) ==> self.mem_free == other.mem_free,
            gives(data, "MemAvailable"@) ==> self.mem_available == other.mem_available,
            gives(data, "Buffers"@) ==> self.mem_buffers == other.mem_buffers,
            gives(data, "Cached"@) ==> self.mem_page_cache == other.mem_page_cache,
            gives(data, "SReclaimable"@) ==> self.mem_slab_reclaimable
                == other.mem_slab_reclaimable,
            gives(data, "SwapTotal"@) ==> self.swap_total == other.swap_total,
            gives(data, "SwapFree"@) ==> self.swap_free == other.swap_free,
            !gives(data, "MemTotal"@) ==> self.mem_total == was.mem_total,
            !gives(data, "MemFree"@) ==> self.mem_free == was.mem_free,
            !gives(data, "MemAvailable"@) ==> self.mem_available == was.mem_available,
            !gives(data, "Buffers"@) ==> self.mem_buffers == was.mem_buffers,
            !gives(data, "Cached"@) ==> self.mem_page_cache == was.mem_page_cache,
            !gives(data, "SReclaimable"@) ==> self.mem_slab_reclaimable
                == was.mem_slab_reclaimable,
            !gives(data, "SwapTotal"@) ==> self.swap_total == was.swap_total,
            !gives(data, "SwapFree"@) ==> self.swap_free == was.swap_free,
    {
        lemma_amount(data, "MemTotal"@, was.mem_total, other_was.mem_total, 0);
        lemma_amount(data, "MemFree"@, was.mem_free, other_was.mem_free, 0);
        lemma_amount(data, "MemAvailable"@, was.mem_available, other_was.mem_available, 0);
        lemma_amount(data, "Buffers"@, was.mem_buffers, other_was.mem_buffers, 0);
        lemma_amount(data, "Cached"@, was.mem_page_cache, other_was.mem_page_cache, 0);
        lemma_amount(
            data,
            "SReclaimable"@,
            was.mem_slab_reclaimable,
            other_was.mem_slab_reclaimable,
            0,
        );
        lemma_amount(data, "SwapTotal"@, was.swap_total, other_was.swap_total, 0);
        lemma_amount(data, "SwapFree"@, was.swap_free, other_was.swap_free, 0);
    }

    /// The memory that is in use, that which is free and that which is kept for reuse make
    /// up all of it, and so does the swap space that is in use and that which is free.
    pub proof fn law_memory_adds_up(self)
        ensures
            self.memory_in_use() + self.mem_free + self.mem_buffers + self.mem_page_cache
                + self.mem_slab_reclaimable == self.mem_total,
            self.swap_in_use() + self.swap_free == self.swap_total,
    {
    }

    /// Whether each amount of memory is what `data` gives, or what it was where `data`
    /// gives none.
    pub open spec fn memory_read(self, was: System<H>, data: Seq<char>) -> bool {
        &&& self.mem_total == meminfo_amount(data, "MemTotal"@, was.mem_total)
        &&& self.mem_free == meminfo_amount(data, "MemFree"@, was.mem_free)
        &&& self.mem_available == meminfo_amount(data, "MemAvailable"@, was.mem_available)
        &&& self.mem_buffers == meminfo_amount(data, "Buffers"@, was.mem_buffers)
        &&& self.mem_page_cache == meminfo_amount(data, "Cached"@, was.mem_page_cache)
        &&& self.mem_slab_reclaimable == meminfo_amount(
            data,
            "SReclaimable"@,
            was.mem_slab_reclaimable,
        )
        &&& self.swap_total == meminfo_amount(data, "SwapTotal"@, was.swap_total)
        &&& self.swap_free == meminfo_amount(data, "SwapFree"@, was.swap_free)
    }

    /// The same after the first lines alone.
    spec fn memory_read_so_far(self, was: System<H>, lines: Seq<Seq<char>>) -> bool {
        &&& self.mem_total == latest_amount(lines, "MemTotal"@, was.mem_total)
        &&& self.mem_free == latest_amount(lines, "MemFree"@, was.mem_free)
        &&& self.mem_available == latest_amount(lines, "MemAvailable"@, was.mem_available)
        &&& self.mem_buffers == latest_amount(lines, "Buffers"@, was.mem_buffers)
        &&& self.mem_page_cache == latest_amount(lines, "Cached"@, was.mem_page_cache)
        &&& self.mem_slab_reclaimable == latest_amount(
            lines,
            "SReclaimable"@,
            was.mem_slab_reclaimable,
        )
        &&& self.swap_total == latest_amount(lines, "SwapTotal"@, was.swap_total)
        &&& self.swap_free == latest_amount(lines, "SwapFree"@, was.swap_free)
    }

    /// Takes the amounts of memory that `/proc/meminfo` gives. `data` is what it holds,
    /// if it could be read.
    pub fn refresh_memory(&mut self, data: Option<&str>)
        ensures
            data matches Some(text) ==> final(self).memory_read(*old(self), text@),
            data is None ==> *final(self) == *old(self),
            *final(self) == (System {
                mem_total: final(self).mem_total,
                mem_free: final(self).mem_free,
                mem_available: final(self).mem_available,
                mem_buffers: final(self).mem_buffers,
                mem_page_cache: final(self).mem_page_cache,
                mem_slab_reclaimable: final(self).mem_slab_reclaimable,
                swap_total: final(self).swap_total,
                swap_free: final(self).swap_free,
                ..*old(self)
            }),
    {
        let text = match data {
            Some(text) => text,
            None => {
                return;
            },
        };
        let chars = chars_of(text);
        let lines = pieces(chars.as_slice(), '\n');
        let ghost all = split(text@, '\n');
        let ghost was = *self;
        proof {
            assert(contents(lines@).len() == lines@.len());
            lemma_keys_differ();
        }
        let mut i: usize = 0;
        while i < lines.len()
            invariant
                i <= lines@.len(),
                all == contents(lines@),
                self.memory_read_so_far(was, all.take(i as int)),
                *self == (System {
                    mem_total: self.mem_total,
                    mem_free: self.mem_free,
                    mem_available: self.mem_available,
                    mem_buffers: self.mem_buffers,
                    mem_page_cache: self.mem_page_cache,
                    mem_slab_reclaimable: self.mem_slab_reclaimable,
                    swap_total: self.swap_total,
                    swap_free: self.swap_free,
                    ..was
                }),
            decreases lines@.len() - i,
        {
            assert(all.take(i + 1).drop_last() =~= all.take(i as int));
            assert(all.take(i + 1).last() == lines@[i as int]@);
            self.take_amount(lines[i]);
            i = i + 1;
        }
        assert(all.take(i as int) =~= all);
    }

    /// Takes the amount of memory that a line gives.
    fn take_amount(&mut self, line: &[char])
        ensures
            forall|was: System<H>, lines: Seq<Seq<char>>|
                lines.len() > 0 && lines.last() == line@ && old(self).memory_read_so_far(
                    was,
                    lines.drop_last(),
                ) ==> #[trigger] final(self).memory_read_so_far(was, lines),
            *final(self) == (System {
                mem_total: final(self).mem_total,
                mem_free: final(self).mem_free,
                mem_available: final(self).mem_available,
                mem_buffers: final(self).mem_buffers,
                mem_page_cache: final(self).mem_page_cache,
                mem_slab_reclaimable: final(self).mem_slab_reclaimable,
                swap_total: final(self).swap_total,
                swap_free: final(self).swap_free,
                ..*old(self)
            }),
    {
        proof {
            lemma_keys_differ();
        }
        let amount = match amount_in(line) {
            Some(amount) => amount,
            None => {
                return;
            },
        };
        let key = before(line, ':');
        if same_text(key, chars_of("MemTotal").as_slice()) {
            self.mem_total = amount;
        } else if same_text(key, chars_of("MemFree").as_slice()) {
            self.mem_free = amount;
        } else if same_text(key, chars_of("MemAvailable").as_slice()) {
            self.mem_available = amount;
        } else if same_text(key, chars_of("Buffers").as_slice()) {
            self.mem_buffers = amount;
        } else if same_text(key, chars_of("Cached").as_slice()) {
            self.mem_page_cache = amount;
        } else if same_text(key, chars_of("SReclaimable").as_slice()) {
            self.mem_slab_reclaimable = amount;
        } else if same_text(key, chars_of("SwapTotal").as_slice()) {
            self.swap_total = amount;
        } else if same_text(key, chars_of("SwapFree").as_slice()) {
            self.swap_free = amount;
        }
    }

    /// All memory, in kB.
    pub fn total_memory(&self) -> (r: u64)
        ensures
            r == self.mem_total,
    {
        self.mem_total
    }

    /// The memory that nothing is kept in, in kB.
    pub fn free_memory(&self) -> (r: u64)
        ensures
            r == self.mem_free,
    {
        self.mem_free
    }

    /// The memory that can be had without swapping, in kB.
    pub fn available_memory(&self) -> (r: u64)
        ensures
            r == self.mem_available,
    {
        self.mem_available
    }

    /// The memory that is neither free nor kept for reuse.
    pub open spec fn memory_in_use(self) -> int {
        self.mem_total - self.mem_free - self.mem_buffers - self.mem_page_cache
            - self.mem_slab_reclaimable
    }

    /// The memory that is in use, in kB.
    pub fn used_memory(&self) -> (r: u64)
        requires
            self.memory_in_use() >= 0,
        ensures
            r == self.memory_in_use(),
    {
        self.mem_total - self.mem_free - self.mem_buffers - self.mem_page_cache
            - self.mem_slab_reclaimable
    }

    /// All swap space, in kB.
    pub fn total_swap(&self) -> (r: u64)
        ensures
            r == self.swap_total,
    {
        self.swap_total
    }

    /// The swap space that nothing is kept in, in kB.
    pub fn free_swap(&self) -> (r: u64)
        ensures
            r == self.swap_free,
    {
        self.swap_free
    }

    /// The swap space that is not free.
    pub open spec fn swap_in_use(self) -> int {
        self.swap_total - self.swap_free
    }

    /// The swap space that is in use, in kB.
    pub fn used_swap(&self) -> (r: u64)
        requires
            self.swap_free <= self.swap_total,
        ensures
            r == self.swap_in_use(),
    {
        self.swap_total - self.swap_free
    }
}

} // verus!
