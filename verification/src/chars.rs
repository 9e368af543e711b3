//! Strings taken apart into characters, and put together again.
use vstd::prelude::*;
use vstd::slice::slice_subrange;
use vstd::utf8::{decode_utf8, valid_utf8};

verus! {

/// `String::push`: the string ends in one more character.
pub assume_specification[ String::push ](s: &mut String, c: char)
    ensures
        final(s)@ == old(s)@.push(c),
;

/// `str::from_utf8`: the text that the bytes encode, if they are valid UTF-8, and
/// nothing if they are not.
#[verifier::external_body]
pub(crate) fn utf8_text(bytes: &[u8]) -> (r: Option<&str>)
    ensures
        r is Some == valid_utf8(bytes@),
        r matches Some(s) ==> s@ == decode_utf8(bytes@),
{
    std::str::from_utf8(bytes).ok()
}

/// The characters of a string.
pub fn chars_of(s: &str) -> (r: Vec<char>)
    ensures
        r@ == s@,
{
    let mut r: Vec<char> = Vec::new();
    for c in it: s.chars()
        invariant
            it.seq() == s@,
            r@ == s@.take(it.index()),
    {
        r.push(c);
        assert(s@.take(it.index() + 1) =~= s@.take(it.index()).push(c));
    }
    assert(s@.take(s@.len() as int) =~= s@);
    r
}

/// The string of the characters.
pub fn string_of(s: &[char]) -> (r: String)
    ensures
        r@ == s@,
{
    let mut r = String::new();
    let mut i: usize = 0;
    while i < s.len()
        invariant
            i <= s@.len(),
            r@ == s@.take(i as int),
        decreases s@.len() - i,
    {
        r.push(s[i]);
        assert(s@.take(i + 1) =~= s@.take(i as int).push(s@[i as int]));
        i = i + 1;
    }
    assert(s@.take(i as int) =~= s@);
    r
}

/// The characters with the Unicode property `White_Space`.
pub open spec fn is_white_space(c: char) -> bool {
    let u = c as u32;
    ||| 0x9 <= u <= 0xd
    ||| u == 0x20
    ||| u == 0x85
    ||| u == 0xa0
    ||| u == 0x1680
    ||| 0x2000 <= u <= 0x200a
    ||| u == 0x2028
    ||| u == 0x2029
    ||| u == 0x202f
    ||| u == 0x205f
    ||| u == 0x3000
}

/// The text without the white space that it begins with.
pub open spec fn trim_start(s: Seq<char>) -> Seq<char>
    decreases s.len(),
{
    if s.len() > 0 && is_white_space(s[0]) {
        trim_start(s.drop_first())
    } else {
        s
    }
}

/// The text without the white space that it ends with.
pub open spec fn trim_end(s: Seq<char>) -> Seq<char>
    decreases s.len(),
{
    if s.len() > 0 && is_white_space(s.last()) {
        trim_end(s.drop_last())
    } else {
        s
    }
}

/// The text without the white space at either end.
pub open spec fn trim(s: Seq<char>) -> Seq<char> {
    trim_end(trim_start(s))
}

/// White space is the tab, the newline, the line and page feeds, the carriage return, the
/// space, and the characters of other scripts that stand for a space or for the end of a
/// line.
pub proof fn law_white_space(c: char)
    ensures
        is_white_space(c) <==> seq![
            '\t', '\n', '\u{b}', '\u{c}', '\r', ' ', '\u{85}', '\u{a0}', '\u{1680}', '\u{2000}',
            '\u{2001}', '\u{2002}', '\u{2003}', '\u{2004}', '\u{2005}', '\u{2006}', '\u{2007}',
            '\u{2008}', '\u{2009}', '\u{200a}', '\u{2028}', '\u{2029}', '\u{202f}', '\u{205f}',
            '\u{3000}',
        ].contains(c),
{
    let all = seq![
        '\t', '\n', '\u{b}', '\u{c}', '\r', ' ', '\u{85}', '\u{a0}', '\u{1680}', '\u{2000}',
        '\u{2001}', '\u{2002}', '\u{2003}', '\u{2004}', '\u{2005}', '\u{2006}', '\u{2007}',
        '\u{2008}', '\u{2009}', '\u{200a}', '\u{2028}', '\u{2029}', '\u{202f}', '\u{205f}',
        '\u{3000}',
    ];
    let u = c as u32;
    let i = if u <= 0xd {
        u - 0x9
    } else if u == 0x20 {
        5
    } else if u == 0x85 {
        6
    } else if u == 0xa0 {
        7
    } else if u == 0x1680 {
        8
    } else if u <= 0x200a {
        u - 0x2000 + 9
    } else if u == 0x2028 {
        20
    } else if u == 0x2029 {
        21
    } else if u == 0x202f {
        22
    } else if u == 0x205f {
        23
    } else {
        24int
    };
    if is_white_space(c) {
        assert(all[i] == c);
    }
}

/// All white space at the beginning goes, and nothing else.
pub proof fn law_trim_start(blank: Seq<char>, s: Seq<char>)
    requires
        forall|i: int| 0 <= i < blank.len() ==> is_white_space(#[trigger] blank[i]),
        s.len() > 0 ==> !is_white_space(s[0]),
    ensures
        trim_start(blank + s) == s,
    decreases blank.len(),
{
    if blank.len() == 0 {
        assert(blank + s =~= s);
    } else {
        assert((blank + s)[0] == blank[0]);
        assert((blank + s).drop_first() =~= blank.drop_first() + s);
        law_trim_start(blank.drop_first(), s);
    }
}

/// All white space at the end goes, and nothing else.
pub proof fn law_trim_end(s: Seq<char>, blank: Seq<char>)
    requires
        forall|i: int| 0 <= i < blank.len() ==> is_white_space(#[trigger] blank[i]),
        s.len() > 0 ==> !is_white_space(s.last()),
    ensures
        trim_end(s + blank) == s,
    decreases blank.len(),
{
    if blank.len() == 0 {
        assert(s + blank =~= s);
    } else {
        assert((s + blank).last() == blank.last());
        assert((s + blank).drop_last() =~= s + blank.drop_last());
        law_trim_end(s, blank.drop_last());
    }
}

/// All white space at either end goes, and nothing else.
pub proof fn law_trim(front: Seq<char>, s: Seq<char>, back: Seq<char>)
    requires
        forall|i: int| 0 <= i < front.len() ==> is_white_space(#[trigger] front[i]),
        forall|i: int| 0 <= i < back.len() ==> is_white_space(#[trigger] back[i]),
        s.len() > 0 ==> !is_white_space(s[0]) && !is_white_space(s.last()),
    ensures
        trim(front + s + back) == s,
{
    if s.len() > 0 {
        assert(front + s + back =~= front + (s + back));
        law_trim_start(front, s + back);
        law_trim_end(s, back);
    } else {
        let all = front + s + back;
        assert forall|i: int| 0 <= i < all.len() implies is_white_space(#[trigger] all[i]) by {
            if i < front.len() {
                assert(all[i] == front[i]);
            } else {
                assert(all[i] == back[i - front.len()]);
            }
        }
        assert(all + Seq::<char>::empty() =~= all);
        law_trim_start(all, Seq::<char>::empty());
    }
}

/// Whether the character is white space.
pub fn white_space(c: char) -> (r: bool)
    ensures
        r == is_white_space(c),
{
    let u: u32 = c as u32;
    (0x9 <= u && u <= 0xd) || u == 0x20 || u == 0x85 || u == 0xa0 || u == 0x1680 || (0x2000 <= u
        && u <= 0x200a) || u == 0x2028 || u == 0x2029 || u == 0x202f || u == 0x205f || u == 0x3000
}

/// The text without the white space that it begins with.
pub fn trimmed_start(s: &[char]) -> (r: &[char])
    ensures
        r@ == trim_start(s@),
{
    let mut i: usize = 0;
    assert(s@.skip(0) =~= s@);
    while i < s.len() && white_space(s[i])
        invariant
            i <= s@.len(),
            trim_start(s@.skip(i as int)) == trim_start(s@),
        decreases s@.len() - i,
    {
        assert(s@.skip(i as int).drop_first() =~= s@.skip(i + 1));
        i = i + 1;
    }
    let r = slice_subrange(s, i, s.len());
    assert(r@ =~= s@.skip(i as int));
    r
}

/// The text without the white space that it ends with.
pub fn trimmed_end(s: &[char]) -> (r: &[char])
    ensures
        r@ == trim_end(s@),
{
    let mut i: usize = s.len();
    assert(s@.take(i as int) =~= s@);
    while i > 0 && white_space(s[i - 1])
        invariant
            i <= s@.len(),
            trim_end(s@.take(i as int)) == trim_end(s@),
        decreases i,
    {
        assert(s@.take(i as int).drop_last() =~= s@.take(i - 1));
        i = i - 1;
    }
    let r = slice_subrange(s, 0, i);
    assert(r@ =~= s@.take(i as int));
    r
}

/// The text without the white space at either end.
pub fn trimmed(s: &[char]) -> (r: &[char])
    ensures
        r@ == trim(s@),
{
    trimmed_end(trimmed_start(s))
}

} // verus!
