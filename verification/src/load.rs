//! `/proc/uptime` and `/proc/loadavg`: how long the system has been up, and how busy
//! it is.
use crate::chars::{chars_of, is_white_space, law_trim, string_of, trim, trimmed};
use crate::decimal::{digit_chars, law_digit_chars_round_trip, parse_u64, unsigned_value};
use crate::system::{Host, System};
use crate::text::{
    before, contents, law_pieces_follow_each_other, law_sides_of_a_separator, law_split_join,
    pieces, split, until,
};
use vstd::prelude::*;

verus! {

/// The whole seconds that `/proc/uptime` tells, which stand before its first full
/// stop: zero where no number does.
pub open spec fn uptime_seconds(content: Seq<char>) -> u64 {
    match unsigned_value(until(content, '.')) {
        Some(seconds) => seconds,
        None => 0,
    }
}

/// The uptime that `/proc/uptime` tells, or zero where it could not be read.
pub open spec fn told_uptime(content: Option<&str>) -> u64 {
    match content {
        Some(text) => uptime_seconds(text@),
        None => 0,
    }
}

/// Where `/proc/uptime` could not be read the uptime is zero, and otherwise it is what the
/// text tells.
pub proof fn law_told_uptime(text: &str)
    ensures
        told_uptime(None) == 0,
        unsigned_value(until(text@, '.')) matches Some(n) ==> told_uptime(Some(text)) == n,
        unsigned_value(until(text@, '.')) is None ==> told_uptime(Some(text)) == 0,
{
}

/// The uptime is the number before the first full stop, whatever follows, or the whole
/// text where there is none.
pub proof fn law_uptime_is_the_whole_seconds(seconds: u64, rest: Seq<char>)
    ensures
        uptime_seconds(digit_chars(seconds as nat).push('.') + rest) == seconds,
        uptime_seconds(digit_chars(seconds as nat)) == seconds,
{
    let number = digit_chars(seconds as nat);
    law_digit_chars_round_trip(seconds);
    assert(!number.contains('.')) by {
        if number.contains('.') {
            assert('0' <= number[number.index_of('.')] <= '9');
        }
    }
    law_sides_of_a_separator(number, '.', rest);
}

/// Where no number stands before the first full stop, the uptime is zero.
pub proof fn law_no_number_is_no_uptime(front: Seq<char>, rest: Seq<char>)
    requires
        !front.contains('.'),
    ensures
        unsigned_value(front) is None ==> uptime_seconds(front.push('.') + rest) == 0,
        unsigned_value(front) is None ==> uptime_seconds(front) == 0,
        unsigned_value(front) matches Some(n) ==> uptime_seconds(front.push('.') + rest) == n,
        unsigned_value(front) matches Some(n) ==> uptime_seconds(front) == n,
{
    law_sides_of_a_separator(front, '.', rest);
}

/// The words of `/proc/loadavg` that tell the load: its first three, or as many as
/// there are. A word ends at each single space.
pub open spec fn load_words(content: Seq<char>) -> Seq<Seq<char>> {
    let words = split(trim(content), ' ');
    if words.len() > 3 {
        words.take(3)
    } else {
        words
    }
}

/// What each of the strings holds.
pub open spec fn texts(strings: Seq<String>) -> Seq<Seq<char>> {
    Seq::new(strings.len(), |i: int| strings[i]@)
}

/// The load is told by the first three words, in order, whatever white space stands around
/// the text and whatever follows them.
pub proof fn law_the_load_is_the_first_three_words(
    front: Seq<char>,
    one: Seq<char>,
    five: Seq<char>,
    fifteen: Seq<char>,
    rest: Seq<char>,
    back: Seq<char>,
)
    requires
        forall|i: int| 0 <= i < front.len() ==> is_white_space(#[trigger] front[i]),
        forall|i: int| 0 <= i < back.len() ==> is_white_space(#[trigger] back[i]),
        one.len() > 0 && !is_white_space(one[0]),
        !one.contains(' '),
        !five.contains(' '),
        !fifteen.contains(' '),
        rest.len() > 0 && !is_white_space(rest.last()),
    ensures
        load_words(
            front + (one.push(' ') + (five.push(' ') + (fifteen.push(' ') + rest))) + back,
        ) == seq![one, five, fifteen],
{
    let text = one.push(' ') + (five.push(' ') + (fifteen.push(' ') + rest));
    assert(text[0] == one[0]);
    assert(text.last() == rest.last());
    law_trim(front, text, back);
    law_pieces_follow_each_other(one, ' ', five.push(' ') + (fifteen.push(' ') + rest));
    law_pieces_follow_each_other(five, ' ', fifteen.push(' ') + rest);
    law_pieces_follow_each_other(fifteen, ' ', rest);
    law_split_join(rest, ' ');
    assert(load_words(front + text + back) =~= seq![one, five, fifteen]);
}

/// Three words alone tell the load as well, and fewer are all told.
pub proof fn law_fewer_words_are_all_told(one: Seq<char>, five: Seq<char>, fifteen: Seq<char>)
    requires
        one.len() > 0 && !is_white_space(one[0]) && !is_white_space(one.last()),
        five.len() > 0 && !is_white_space(five.last()),
        fifteen.len() > 0 && !is_white_space(fifteen.last()),
        !one.contains(' '),
        !five.contains(' '),
        !fifteen.contains(' '),
    ensures
        load_words(one.push(' ') + (five.push(' ') + fifteen)) == seq![one, five, fifteen],
        load_words(one.push(' ') + five) == seq![one, five],
        load_words(one) == seq![one],
        load_words(seq![]) == seq![Seq::<char>::empty()],
{
    let none = Seq::<char>::empty();
    let three = one.push(' ') + (five.push(' ') + fifteen);
    let two = one.push(' ') + five;
    law_trim(none, three, none);
    law_trim(none, two, none);
    law_trim(none, one, none);
    law_trim(none, none, none);
    assert(none + three + none =~= three);
    assert(none + two + none =~= two);
    assert(none + one + none =~= one);
    assert(none + none + none =~= none);
    law_pieces_follow_each_other(one, ' ', five.push(' ') + fifteen);
    law_pieces_follow_each_other(one, ' ', five);
    law_pieces_follow_each_other(five, ' ', fifteen);
    law_pieces_follow_each_other(fifteen, ' ', none);
    law_pieces_follow_each_other(none, ' ', none);
    assert(load_words(three) =~= seq![one, five, fifteen]);
    assert(load_words(two) =~= seq![one, five]);
}

/// What strings hold is what each of them holds, in order.
pub proof fn law_texts(strings: Seq<String>, i: int)
    requires
        0 <= i < strings.len(),
    ensures
        texts(strings).len() == strings.len(),
        texts(strings)[i] == strings[i]@,
{
}

impl<H: Host> System<H> {
    /// How long the system has been up, in seconds. `content` is what `/proc/uptime`
    /// holds, if it could be read.
    pub fn uptime(&self, content: Option<&str>) -> (r: u64)
        ensures
            r == told_uptime(content),
    {
        match content {
            Some(text) => {
                let chars = chars_of(text);
                match parse_u64(before(chars.as_slice(), '.')) {
                    Some(seconds) => seconds,
                    None => 0,
                }
            },
            None => 0,
        }
    }

    /// When the system was booted, in seconds since the epoch.
    pub fn boot_time(&self) -> (r: u64)
        ensures
            r == self.info.boot_time,
    {
        self.info.boot_time
    }

    /// The words that tell the load over one minute, five and fifteen. `content` is
    /// what `/proc/loadavg` holds.
    pub fn load_average(&self, content: &str) -> (r: Vec<String>)
        ensures
            texts(r@) == load_words(content@),
    {
        let chars = chars_of(content);
        let words = pieces(trimmed(chars.as_slice()), ' ');
        let ghost all = split(trim(content@), ' ');
        let mut r: Vec<String> = Vec::new();
        let mut i: usize = 0;
        assert(texts(r@) =~= all.take(0));
        while i < 3 && i < words.len()
            invariant
                i <= 3,
                i <= words@.len(),
                all == contents(words@),
                texts(r@) == all.take(i as int),
            decreases words@.len() - i,
        {
            let ghost had = r@;
            r.push(string_of(words[i]));
            assert(texts(r@) =~= texts(had).push(all[i as int]));
            assert(all.take(i + 1) =~= all.take(i as int).push(all[i as int]));
            i = i + 1;
        }
        assert(all.take(i as int) =~= load_words(content@));
        r
    }
}

} // verus!
