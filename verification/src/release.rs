//! What the system calls itself: its distribution, its kernel and its host name.
use crate::chars::{chars_of, utf8_text};
use crate::system::{Host, System};
use crate::text::{
    begins_with, contents, find, law_a_prefix_is_followed_by_the_rest,
    law_pieces_follow_each_other, law_sides_of_a_separator, law_split_join, pieces, split,
    starts_with, until,
};
use vstd::prelude::*;
use vstd::slice::slice_subrange;
use vstd::utf8::{
    decode_utf8, decode_utf8_encode_utf8, encode_utf8, encode_utf8_decode_utf8,
    encode_utf8_valid_utf8, valid_utf8,
};

verus! {

/// What is asked about the system.
#[derive(Clone, Copy, Debug, PartialEq, Eq, Structural)]
pub enum InfoType {
    /// The name that an end user knows it by: on Android the model of the device, on
    /// Linux the name of the distribution.
    Name,
    OsVersion,
}

/// What has been read of the files that describe the distribution: what each holds,
/// if it could be opened.
#[derive(Clone, Copy, Debug)]
pub struct ReleaseFiles<'a> {
    /// `/etc/os-release`
    pub os_release: Option<&'a [u8]>,
    /// `/etc/lsb-release`
    pub lsb_release: Option<&'a [u8]>,
}

/// The lines of a file as text: each ends at a newline, or at a carriage return and
/// a newline, and what follows the last newline is a line where it holds something.
pub open spec fn text_lines(s: Seq<u8>) -> Seq<Seq<u8>> {
    let parts = split(s, 0x0a);
    let ended = Seq::new(
        (parts.len() - 1) as nat,
        |i: int| without_return(parts[i]),
    );
    if parts.last().len() == 0 {
        ended
    } else {
        ended.push(parts.last())
    }
}

/// The line without the carriage return that it may end with.
pub open spec fn without_return(line: Seq<u8>) -> Seq<u8> {
    if line.len() > 0 && line.last() == 0x0d {
        line.drop_last()
    } else {
        line
    }
}

/// The text without the quotation marks in it.
pub open spec fn unquoted(s: Seq<char>) -> Seq<char> {
    s.filter(|c: char| c != '"')
}

/// What a line assigns to `key`, which ends in the equals sign. A line that is not
/// text assigns nothing.
pub open spec fn assigned(line: Seq<u8>, key: Seq<char>) -> Option<Seq<char>> {
    if valid_utf8(line) && starts_with(decode_utf8(line), key) {
        Some(unquoted(decode_utf8(line).skip(key.len() as int)))
    } else {
        None
    }
}

/// What the first of the lines that assigns something to `key` assigns to it.
pub open spec fn first_assigned(lines: Seq<Seq<u8>>, key: Seq<char>) -> Option<Seq<char>>
    decreases lines.len(),
{
    if lines.len() == 0 {
        None
    } else {
        match assigned(lines[0], key) {
            Some(value) => Some(value),
            None => first_assigned(lines.drop_first(), key),
        }
    }
}

/// What a file assigns to `key`, if it could be opened.
pub open spec fn file_value(file: Option<&[u8]>, key: Seq<char>) -> Option<Seq<char>> {
    match file {
        Some(bytes) => first_assigned(text_lines(bytes@), key),
        None => None,
    }
}

/// The key in `/etc/os-release` of what is asked.
pub open spec fn os_release_key(info: InfoType) -> Seq<char> {
    match info {
        InfoType::Name => "NAME="@,
        InfoType::OsVersion => "VERSION_ID="@,
    }
}

/// The key in `/etc/lsb-release` of what is asked.
pub open spec fn lsb_release_key(info: InfoType) -> Seq<char> {
    match info {
        InfoType::Name => "DISTRIB_ID="@,
        InfoType::OsVersion => "DISTRIB_RELEASE="@,
    }
}

/// What the files say: `/etc/lsb-release` is asked where `/etc/os-release` is silent,
/// which it may be.
pub open spec fn release_value(info: InfoType, files: ReleaseFiles) -> Option<Seq<char>> {
    match file_value(files.os_release, os_release_key(info)) {
        Some(value) => Some(value),
        None => file_value(files.lsb_release, lsb_release_key(info)),
    }
}

/// What is said, or no text where nothing is.
pub open spec fn or_empty(value: Option<Seq<char>>) -> Seq<char> {
    match value {
        Some(text) => text,
        None => seq![],
    }
}

/// What a string holds, where there is one.
pub open spec fn text_of(s: Option<String>) -> Option<Seq<char>> {
    match s {
        Some(text) => Some(text@),
        None => None,
    }
}

/// A newline ends a line, and takes one carriage return before it along. What follows the
/// last newline is a line where it holds something, just as it stands.
pub proof fn law_lines_of_text(a: Seq<u8>, b: Seq<u8>)
    requires
        !a.contains(0x0au8),
    ensures
        text_lines(a.push(0x0du8).push(0x0au8) + b) == seq![a] + text_lines(b),
        a.len() == 0 || a.last() != 0x0d ==> text_lines(a.push(0x0au8) + b) == seq![a]
            + text_lines(b),
        text_lines(a) == if a.len() > 0 {
            seq![a]
        } else {
            seq![]
        },
{
    let returned = a.push(0x0du8);
    assert(!returned.contains(0x0au8)) by {
        if returned.contains(0x0au8) {
            let k = returned.index_of(0x0au8);
            assert(k < a.len());
            assert(a[k] == 0x0au8);
        }
    }
    lemma_line_of_text(returned, b);
    assert(returned.drop_last() =~= a);
    lemma_line_of_text(a, b);
    law_pieces_follow_each_other(a, 0x0au8, b);
    assert(text_lines(a) =~= if a.len() > 0 {
        seq![a]
    } else {
        seq![]
    });
}

proof fn lemma_line_of_text(line: Seq<u8>, b: Seq<u8>)
    requires
        !line.contains(0x0au8),
    ensures
        text_lines(line.push(0x0au8) + b) == seq![without_return(line)] + text_lines(b),
{
    law_pieces_follow_each_other(line, 0x0au8, b);
    law_split_join(b, 0x0au8);
    let parts = split(b, 0x0au8);
    let all = seq![line] + parts;
    assert(all.last() == parts.last());
    assert(text_lines(line.push(0x0au8) + b) =~= seq![without_return(line)] + text_lines(b));
}

/// The quotation marks go, wherever they stand, and every other character stays, in order.
pub proof fn law_only_quotation_marks_go(a: Seq<char>, b: Seq<char>, c: char)
    ensures
        unquoted(a + b) == unquoted(a) + unquoted(b),
        unquoted(seq!['"']) == Seq::<char>::empty(),
        c != '"' ==> unquoted(seq![c]) == seq![c],
        !a.contains('"') ==> unquoted(a) == a,
    decreases a.len(),
{
    let keep = |x: char| x != '"';
    Seq::filter_distributes_over_add(a, b, keep);
    lemma_unquoted_one(c);
    lemma_unquoted_one('"');
    if a.len() > 0 && !a.contains('"') {
        let front = a.drop_last();
        assert(!front.contains('"')) by {
            if front.contains('"') {
                assert(a[front.index_of('"')] == '"');
            }
        }
        law_only_quotation_marks_go(front, b, c);
        assert(a.contains(a.last()));
        reveal(Seq::filter);
        assert(unquoted(a) =~= front.push(a.last()));
        assert(front.push(a.last()) =~= a);
    } else if a.len() == 0 {
        reveal(Seq::filter);
        assert(unquoted(a) =~= a);
    }
}

proof fn lemma_unquoted_one(c: char)
    ensures
        unquoted(seq![c]) == if c != '"' {
            seq![c]
        } else {
            seq![]
        },
{
    reveal(Seq::filter);
    assert(seq![c].drop_last() =~= Seq::<char>::empty());
    assert(unquoted(seq![c].drop_last()) =~= Seq::<char>::empty());
    assert(unquoted(seq![c]) =~= if c != '"' {
        seq![c]
    } else {
        seq![]
    });
}

/// A line that holds a key and a value assigns the value, without its quotation marks. A
/// line that begins otherwise, or is not text, assigns nothing.
pub proof fn law_a_line_assigns_its_value(line: Seq<u8>, key: Seq<char>, value: Seq<char>)
    ensures
        assigned(encode_utf8(key + value), key) == Some(unquoted(value)),
        assigned(line, key) is Some <==> exists|v: Seq<char>| line == #[trigger] encode_utf8(
            key + v,
        ),
{
    lemma_assigns(key, value);
    if assigned(line, key) is Some {
        let text = decode_utf8(line);
        let v = text.skip(key.len() as int);
        law_a_prefix_is_followed_by_the_rest(text, key, v);
        decode_utf8_encode_utf8(line);
        assert(line == encode_utf8(key + v));
    }
    if exists|v: Seq<char>| line == #[trigger] encode_utf8(key + v) {
        let v = choose|v: Seq<char>| line == #[trigger] encode_utf8(key + v);
        lemma_assigns(key, v);
    }
}

proof fn lemma_assigns(key: Seq<char>, value: Seq<char>)
    ensures
        assigned(encode_utf8(key + value), key) == Some(unquoted(value)),
{
    encode_utf8_valid_utf8(key + value);
    encode_utf8_decode_utf8(key + value);
    law_a_prefix_is_followed_by_the_rest(key + value, key, value);
    assert((key + value).skip(key.len() as int) =~= value);
}

/// Whether line `i` of a file holds `key` and `value`, and no line before it begins with
/// `key`.
pub open spec fn tells_first(bytes: Seq<u8>, key: Seq<char>, value: Seq<char>, i: int) -> bool {
    let lines = text_lines(bytes);
    &&& 0 <= i < lines.len()
    &&& lines[i] == encode_utf8(key + value)
    &&& forall|k: int, v: Seq<char>|
        0 <= k < i ==> #[trigger] lines[k] != #[trigger] encode_utf8(key + v)
}

/// Whether no line of a file begins with `key`.
pub open spec fn tells_nothing(bytes: Seq<u8>, key: Seq<char>) -> bool {
    let lines = text_lines(bytes);
    forall|k: int, v: Seq<char>|
        0 <= k < lines.len() ==> #[trigger] lines[k] != #[trigger] encode_utf8(key + v)
}

/// The first line that begins with the key decides.
proof fn lemma_file_value(bytes: &[u8], key: Seq<char>, value: Seq<char>, i: int)
    ensures
        tells_first(bytes@, key, value, i) ==> file_value(Some(bytes), key) == Some(
            unquoted(value),
        ),
        tells_nothing(bytes@, key) ==> file_value(Some(bytes), key) is None,
{
    let lines = text_lines(bytes@);
    if tells_first(bytes@, key, value, i) {
        assert forall|k: int| 0 <= k < i implies assigned(#[trigger] lines[k], key) is None by {
            law_a_line_assigns_its_value(lines[k], key, value);
        }
        law_a_line_assigns_its_value(lines[i], key, value);
        lemma_first_assigned(lines, key, i);
    }
    if tells_nothing(bytes@, key) {
        assert forall|k: int| 0 <= k < lines.len() implies assigned(#[trigger] lines[k], key)
            is None by {
            law_a_line_assigns_its_value(lines[k], key, value);
        }
        lemma_none_assigned(lines, key);
    }
}

proof fn lemma_first_assigned(lines: Seq<Seq<u8>>, key: Seq<char>, i: int)
    requires
        0 <= i < lines.len(),
        assigned(lines[i], key) is Some,
        forall|k: int| 0 <= k < i ==> assigned(#[trigger] lines[k], key) is None,
    ensures
        first_assigned(lines, key) == assigned(lines[i], key),
    decreases lines.len(),
{
    if i > 0 {
        assert(assigned(lines[0], key) is None);
        assert forall|k: int| 0 <= k < i - 1 implies assigned(
            #[trigger] lines.drop_first()[k],
            key,
        ) is None by {
            assert(lines.drop_first()[k] == lines[k + 1]);
        }
        lemma_first_assigned(lines.drop_first(), key, i - 1);
    }
}

proof fn lemma_none_assigned(lines: Seq<Seq<u8>>, key: Seq<char>)
    requires
        forall|k: int| 0 <= k < lines.len() ==> assigned(#[trigger] lines[k], key) is None,
    ensures
        first_assigned(lines, key) is None,
    decreases lines.len(),
{
    if lines.len() > 0 {
        assert(assigned(lines[0], key) is None);
        assert forall|k: int| 0 <= k < lines.drop_first().len() implies assigned(
            #[trigger] lines.drop_first()[k],
            key,
        ) is None by {
            assert(lines.drop_first()[k] == lines[k + 1]);
        }
        lemma_none_assigned(lines.drop_first(), key);
    }
}

/// The first line of `/etc/os-release` that begins with `NAME=` tells the name, and the
/// first that begins with `VERSION_ID=` the version, without the quotation marks.
pub proof fn law_os_release_tells(
    bytes: &[u8],
    lsb_release: Option<&[u8]>,
    value: Seq<char>,
    i: int,
)
    ensures
        ({
            let files = ReleaseFiles { os_release: Some(bytes), lsb_release };
            &&& tells_first(bytes@, "NAME="@, value, i) ==> release_value(InfoType::Name, files)
                == Some(unquoted(value))
            &&& tells_first(bytes@, "VERSION_ID="@, value, i) ==> release_value(
                InfoType::OsVersion,
                files,
            ) == Some(unquoted(value))
        }),
{
    lemma_file_value(bytes, "NAME="@, value, i);
    lemma_file_value(bytes, "VERSION_ID="@, value, i);
}

/// Where `/etc/os-release` cannot be opened or has no such line, the first line of
/// `/etc/lsb-release` that begins with `DISTRIB_ID=` tells the name, and the first that
/// begins with `DISTRIB_RELEASE=` the version. Where neither file tells, nothing is said.
pub proof fn law_lsb_release_tells(
    os_release: Option<&[u8]>,
    bytes: &[u8],
    value: Seq<char>,
    i: int,
)
    ensures
        ({
            let files = ReleaseFiles { os_release, lsb_release: Some(bytes) };
            let no_name = os_release matches Some(os) ==> tells_nothing(os@, "NAME="@);
            let no_version = os_release matches Some(os) ==> tells_nothing(os@, "VERSION_ID="@);
            &&& no_name && tells_first(bytes@, "DISTRIB_ID="@, value, i) ==> release_value(
                InfoType::Name,
                files,
            ) == Some(unquoted(value))
            &&& no_version && tells_first(bytes@, "DISTRIB_RELEASE="@, value, i)
                ==> release_value(InfoType::OsVersion, files) == Some(unquoted(value))
            &&& no_name && tells_nothing(bytes@, "DISTRIB_ID="@) ==> release_value(
                InfoType::Name,
                files,
            ) is None
            &&& no_version && tells_nothing(bytes@, "DISTRIB_RELEASE="@) ==> release_value(
                InfoType::OsVersion,
                files,
            ) is None
        }),
        release_value(InfoType::Name, ReleaseFiles { os_release: None, lsb_release: None })
            is None,
        release_value(InfoType::OsVersion, ReleaseFiles { os_release: None, lsb_release: None })
            is None,
{
    if os_release is Some {
        lemma_file_value(os_release->0, "NAME="@, value, i);
        lemma_file_value(os_release->0, "VERSION_ID="@, value, i);
    }
    lemma_file_value(bytes, "DISTRIB_ID="@, value, i);
    lemma_file_value(bytes, "DISTRIB_RELEASE="@, value, i);
}

/// A value without quotation marks is told just as it stands.
pub proof fn law_plain_values_are_told_as_they_stand(
    info: InfoType,
    bytes: &[u8],
    lsb_release: Option<&[u8]>,
    value: Seq<char>,
    i: int,
)
    requires
        tells_first(
            bytes@,
            if info is Name {
                "NAME="@
            } else {
                "VERSION_ID="@
            },
            value,
            i,
        ),
        !value.contains('"'),
    ensures
        release_value(info, ReleaseFiles { os_release: Some(bytes), lsb_release }) == Some(value),
{
    law_os_release_tells(bytes, lsb_release, value, i);
    law_only_quotation_marks_go(value, seq![], 'a');
}

/// What is said holds no quotation mark.
pub proof fn law_release_value_is_unquoted(info: InfoType, files: ReleaseFiles)
    ensures
        release_value(info, files) matches Some(value) ==> !value.contains('"'),
{
    if files.os_release is Some {
        lemma_assigned_is_unquoted(text_lines(files.os_release->0@), os_release_key(info));
    }
    if files.lsb_release is Some {
        lemma_assigned_is_unquoted(text_lines(files.lsb_release->0@), lsb_release_key(info));
    }
}

proof fn lemma_assigned_is_unquoted(lines: Seq<Seq<u8>>, key: Seq<char>)
    ensures
        first_assigned(lines, key) matches Some(value) ==> !value.contains('"'),
    decreases lines.len(),
{
    if lines.len() > 0 {
        if assigned(lines[0], key) is Some {
            let rest = decode_utf8(lines[0]).skip(key.len() as int);
            let value = unquoted(rest);
            if value.contains('"') {
                rest.lemma_filter_pred(|c: char| c != '"', value.index_of('"'));
            }
        } else {
            lemma_assigned_is_unquoted(lines.drop_first(), key);
        }
    }
}

/// `/etc/os-release` comes first: where it says something, `/etc/lsb-release` does
/// not matter.
pub proof fn law_os_release_comes_first(
    info: InfoType,
    os_release: &[u8],
    one: Option<&[u8]>,
    other: Option<&[u8]>,
)
    requires
        file_value(Some(os_release), os_release_key(info)) is Some,
    ensures
        release_value(info, ReleaseFiles { os_release: Some(os_release), lsb_release: one })
            == release_value(
            info,
            ReleaseFiles { os_release: Some(os_release), lsb_release: other },
        ),
{
}

/// `/etc/lsb-release` is the fallback: where `/etc/os-release` says nothing or cannot be
/// opened, it alone decides.
pub proof fn law_lsb_release_is_the_fallback(info: InfoType, files: ReleaseFiles)
    requires
        file_value(files.os_release, os_release_key(info)) is None,
    ensures
        release_value(info, files) == file_value(files.lsb_release, lsb_release_key(info)),
{
}

/// The lines of a file as text.
fn text_lines_of(s: &[u8]) -> (lines: Vec<&[u8]>)
    ensures
        contents(lines@) == text_lines(s@),
{
    let parts: Vec<&[u8]> = pieces(s, 0x0a);
    let ghost all = split(s@, 0x0a);
    proof {
        law_split_join(s@, 0x0a);
        assert(contents(parts@).len() == parts@.len());
    }
    let mut lines: Vec<&[u8]> = Vec::new();
    let mut i: usize = 0;
    while i < parts.len() - 1
        invariant
            parts@.len() > 0,
            i <= parts@.len() - 1,
            all == contents(parts@),
            contents(lines@) == Seq::new(i as nat, |k: int| without_return(all[k])),
        decreases parts@.len() - i,
    {
        let part = parts[i];
        let ghost had = lines@;
        if part.len() > 0 && part[part.len() - 1] == 0x0d {
            lines.push(slice_subrange(part, 0, part.len() - 1));
            assert(contents(lines@).last() =~= without_return(all[i as int]));
        } else {
            lines.push(part);
        }
        assert(contents(lines@) =~= contents(had).push(without_return(all[i as int])));
        i = i + 1;
        assert(contents(lines@) =~= Seq::new(i as nat, |k: int| without_return(all[k])));
    }
    let last = parts[parts.len() - 1];
    if last.len() > 0 {
        let ghost had = lines@;
        lines.push(last);
        assert(contents(lines@) =~= contents(had).push(all.last()));
    }
    lines
}

/// The text without the quotation marks in it.
fn without_quotes(s: &[char]) -> (r: String)
    ensures
        r@ == unquoted(s@),
{
    let mut r = String::new();
    let mut i: usize = 0;
    let ghost keep = |c: char| c != '"';
    assert(s@.take(0).filter(keep) =~= Seq::<char>::empty()) by {
        reveal(Seq::filter);
    }
    while i < s.len()
        invariant
            i <= s@.len(),
            keep == (|c: char| c != '"'),
            r@ == s@.take(i as int).filter(keep),
        decreases s@.len() - i,
    {
        proof {
            reveal(Seq::filter);
            assert(s@.take(i + 1).drop_last() =~= s@.take(i as int));
        }
        if s[i] != '"' {
            r.push(s[i]);
        }
        i = i + 1;
    }
    assert(s@.take(i as int) =~= s@);
    r
}

/// What a file assigns to `key`, if it could be opened.
fn value_in(file: Option<&[u8]>, key: &str) -> (r: Option<String>)
    ensures
        text_of(r) == file_value(file, key@),
{
    let bytes = match file {
        Some(bytes) => bytes,
        None => {
            return None;
        },
    };
    let key_chars = chars_of(key);
    let lines = text_lines_of(bytes);
    let ghost all = text_lines(bytes@);
    let mut i: usize = 0;
    proof {
        assert(contents(lines@).len() == lines@.len());
        assert(all.skip(0) =~= all);
    }
    while i < lines.len()
        invariant
            i <= lines@.len(),
            all == contents(lines@),
            all == text_lines(bytes@),
            file == Some(bytes),
            key_chars@ == key@,
            first_assigned(all.skip(i as int), key@) == first_assigned(all, key@),
        decreases lines@.len() - i,
    {
        proof {
            assert(all.skip(i as int)[0] == lines@[i as int]@);
            assert(all.skip(i as int).drop_first() =~= all.skip(i + 1));
        }
        if let Some(text) = utf8_text(lines[i]) {
            let chars = chars_of(text);
            if begins_with(chars.as_slice(), key_chars.as_slice()) {
                let rest = slice_subrange(chars.as_slice(), key_chars.len(), chars.len());
                assert(rest@ =~= chars@.skip(key_chars@.len() as int));
                return Some(without_quotes(rest));
            }
        }
        i = i + 1;
    }
    None
}

/// What the files say about the system.
pub fn get_system_info_linux(info: InfoType, files: ReleaseFiles) -> (r: Option<String>)
    ensures
        text_of(r) == release_value(info, files),
{
    let key = match info {
        InfoType::Name => "NAME=",
        InfoType::OsVersion => "VERSION_ID=",
    };
    let found = value_in(files.os_release, key);
    if found.is_some() {
        return found;
    }
    let fallback_key = match info {
        InfoType::Name => "DISTRIB_ID=",
        InfoType::OsVersion => "DISTRIB_RELEASE=",
    };
    value_in(files.lsb_release, fallback_key)
}

/// The text in a buffer that ends at the first zero byte, or fills it: nothing where
/// it is not text.
pub open spec fn buffer_text(buffer: Seq<u8>) -> Option<Seq<char>> {
    let bytes = until(buffer, 0u8);
    if valid_utf8(bytes) {
        Some(decode_utf8(bytes))
    } else {
        None
    }
}

/// A buffer holds the text before its first zero byte, or all that it holds. What follows
/// that byte does not matter.
pub proof fn law_a_buffer_ends_at_a_zero(text: Seq<char>, rest: Seq<u8>)
    requires
        !encode_utf8(text).contains(0u8),
    ensures
        buffer_text(encode_utf8(text).push(0u8) + rest) == Some(text),
        buffer_text(encode_utf8(text)) == Some(text),
{
    law_sides_of_a_separator(encode_utf8(text), 0u8, rest);
    encode_utf8_valid_utf8(text);
    encode_utf8_decode_utf8(text);
}

/// Bytes that are not text are no text.
pub proof fn law_a_buffer_without_text(bytes: Seq<u8>, rest: Seq<u8>)
    requires
        !bytes.contains(0u8),
        !valid_utf8(bytes),
    ensures
        buffer_text(bytes.push(0u8) + rest) is None,
        buffer_text(bytes) is None,
{
    law_sides_of_a_separator(bytes, 0u8, rest);
}

/// The text in a buffer.
fn text_in(buffer: &[u8]) -> (r: Option<String>)
    ensures
        text_of(r) == buffer_text(buffer@),
{
    let end: usize = find(buffer, 0u8);
    let bytes = slice_subrange(buffer, 0, end);
    match utf8_text(bytes) {
        Some(text) => Some(text.to_owned()),
        None => None,
    }
}

/// The name of the Android property that holds what is asked, with the zero byte that
/// it is to end with.
pub fn android_property(info: InfoType) -> (r: Vec<u8>)
    ensures
        r@ == encode_utf8(property_name(info)),
{
    let name = match info {
        InfoType::Name => "ro.product.model\0",
        InfoType::OsVersion => "ro.build.version.release\0",
    };
    name.as_bytes_vec()
}

/// The name of the Android property that holds what is asked.
pub open spec fn property_name(info: InfoType) -> Seq<char> {
    match info {
        InfoType::Name => "ro.product.model\0"@,
        InfoType::OsVersion => "ro.build.version.release\0"@,
    }
}

/// The model of the device and the release of the system are asked for by their names,
/// which end in a zero and hold none before it.
pub proof fn law_android_properties(info: InfoType)
    ensures
        property_name(InfoType::Name) == "ro.product.model\0"@,
        property_name(InfoType::OsVersion) == "ro.build.version.release\0"@,
        property_name(info).last() == '\0',
        !property_name(info).drop_last().contains('\0'),
{
    reveal_strlit("ro.product.model\0");
    reveal_strlit("ro.build.version.release\0");
}

/// What a property says: nothing where the length of its value is zero.
pub open spec fn property_text(len: i32, buffer: Seq<u8>) -> Option<Seq<char>> {
    if len != 0 {
        buffer_text(buffer)
    } else {
        None
    }
}

/// A property of length zero says nothing, and any other says what its buffer holds up to
/// a zero byte: the length does not matter otherwise.
pub proof fn law_a_property_is_told(len: i32, text: Seq<char>, rest: Seq<u8>)
    requires
        !encode_utf8(text).contains(0u8),
    ensures
        len != 0 ==> property_text(len, encode_utf8(text).push(0u8) + rest) == Some(text),
        len != 0 ==> property_text(len, encode_utf8(text)) == Some(text),
        property_text(0, rest) is None,
{
    law_a_buffer_ends_at_a_zero(text, rest);
}

/// The host name in a buffer, if it could be had.
pub open spec fn host_name_text(buffer: Option<&[u8]>) -> Option<Seq<char>> {
    match buffer {
        Some(bytes) => buffer_text(bytes@),
        None => None,
    }
}

/// The host name is the text in the buffer up to a zero byte, and is not known where it
/// could not be had.
pub proof fn law_the_host_name_is_told(bytes: &[u8], text: Seq<char>, rest: Seq<u8>)
    requires
        !encode_utf8(text).contains(0u8),
    ensures
        bytes@ == encode_utf8(text).push(0u8) + rest || bytes@ == encode_utf8(text)
            ==> host_name_text(Some(bytes)) == Some(text),
        host_name_text(None) is None,
{
    law_a_buffer_ends_at_a_zero(text, rest);
}

/// The release of the kernel in a buffer, if it could be had.
pub open spec fn kernel_version_text(release: Option<&[u8]>) -> Option<Seq<char>> {
    match release {
        Some(bytes) => Some(kernel_release(bytes@)),
        None => None,
    }
}

/// A release in ASCII that is followed by zero bytes alone is told as it stands, and is
/// not known where it could not be had.
pub proof fn law_the_kernel_version_is_told(bytes: &[u8], text: Seq<char>, zeros: nat)
    requires
        forall|i: int| 0 <= i < text.len() ==> '\0' < #[trigger] text[i] < '\u{80}',
        bytes@ == text.map_values(|c: char| c as u8) + Seq::new(zeros, |i: int| 0u8),
    ensures
        kernel_version_text(Some(bytes)) == Some(text),
        kernel_version_text(None) is None,
{
    let raw = text.map_values(|c: char| c as u8);
    let padding = Seq::new(zeros, |i: int| 0u8);
    law_zero_bytes_are_left_out(raw, padding, 1);
    lemma_release_of_text(text);
    lemma_release_of_zeros(zeros);
    assert(text + Seq::<char>::empty() =~= text);
}

proof fn lemma_release_of_text(text: Seq<char>)
    requires
        forall|i: int| 0 <= i < text.len() ==> '\0' < #[trigger] text[i] < '\u{80}',
    ensures
        kernel_release(text.map_values(|c: char| c as u8)) == text,
    decreases text.len(),
{
    let raw = text.map_values(|c: char| c as u8);
    if text.len() == 0 {
        law_zero_bytes_are_left_out(raw, raw, 1);
        assert(raw =~= Seq::<u8>::empty());
    } else {
        let front = text.drop_last();
        let c = text[text.len() - 1];
        lemma_release_of_text(front);
        assert(raw =~= front.map_values(|c: char| c as u8) + seq![c as u8]);
        law_zero_bytes_are_left_out(front.map_values(|c: char| c as u8), seq![c as u8], c as u8);
        assert(text =~= front + seq![c]);
    }
}

proof fn lemma_release_of_zeros(zeros: nat)
    ensures
        kernel_release(Seq::new(zeros, |i: int| 0u8)) == Seq::<char>::empty(),
    decreases zeros,
{
    let padding = Seq::new(zeros, |i: int| 0u8);
    if zeros == 0 {
        law_zero_bytes_are_left_out(padding, padding, 1);
        assert(padding =~= Seq::<u8>::empty());
    } else {
        let front = Seq::new((zeros - 1) as nat, |i: int| 0u8);
        lemma_release_of_zeros((zeros - 1) as nat);
        assert(padding =~= front + seq![0u8]);
        law_zero_bytes_are_left_out(front, seq![0u8], 1);
    }
}

/// What an Android property says about the system. `len` is the length that was
/// reported of its value, and `buffer` is what the value was put in.
pub fn get_system_info_android(len: i32, buffer: &[u8]) -> (r: Option<String>)
    ensures
        text_of(r) == property_text(len, buffer@),
{
    if len != 0 {
        text_in(buffer)
    } else {
        None
    }
}

/// The release of the kernel in a buffer: its bytes other than zero, each as the
/// character of that number.
pub open spec fn kernel_release(buffer: Seq<u8>) -> Seq<char> {
    buffer.filter(|b: u8| b != 0).map_values(|b: u8| b as char)
}

/// The release holds the character of each byte, in order, and nothing for a zero byte.
pub proof fn law_zero_bytes_are_left_out(a: Seq<u8>, b: Seq<u8>, c: u8)
    ensures
        kernel_release(a + b) == kernel_release(a) + kernel_release(b),
        c != 0 ==> kernel_release(seq![c]) == seq![c as char],
        kernel_release(seq![0u8]) == Seq::<char>::empty(),
        kernel_release(Seq::<u8>::empty()) == Seq::<char>::empty(),
{
    let keep = |x: u8| x != 0;
    Seq::filter_distributes_over_add(a, b, keep);
    assert(kernel_release(a + b) =~= kernel_release(a) + kernel_release(b));
    reveal(Seq::filter);
    assert(seq![c].drop_last() =~= Seq::<u8>::empty());
    assert(seq![0u8].drop_last() =~= Seq::<u8>::empty());
    assert(Seq::<u8>::empty().filter(keep) =~= Seq::<u8>::empty());
    assert(kernel_release(seq![0u8]) =~= Seq::<char>::empty());
    assert(kernel_release(Seq::<u8>::empty()) =~= Seq::<char>::empty());
    if c != 0 {
        assert(seq![c].filter(keep) =~= seq![c]);
        assert(kernel_release(seq![c]) =~= seq![c as char]);
    }
}

/// The release of the kernel in a buffer.
fn kernel_release_in(buffer: &[u8]) -> (r: String)
    ensures
        r@ == kernel_release(buffer@),
{
    let mut r = String::new();
    let mut i: usize = 0;
    let ghost keep = |b: u8| b != 0;
    assert(buffer@.take(0).filter(keep) =~= Seq::<u8>::empty()) by {
        reveal(Seq::filter);
    }
    assert(r@ =~= kernel_release(buffer@.take(0)));
    while i < buffer.len()
        invariant
            i <= buffer@.len(),
            keep == (|b: u8| b != 0),
            r@ == kernel_release(buffer@.take(i as int)),
        decreases buffer@.len() - i,
    {
        let ghost had = buffer@.take(i as int).filter(keep);
        proof {
            reveal(Seq::filter);
            assert(buffer@.take(i + 1).drop_last() =~= buffer@.take(i as int));
        }
        if buffer[i] != 0 {
            r.push(buffer[i] as char);
            assert(had.push(buffer@[i as int]).map_values(|b: u8| b as char)
                =~= had.map_values(|b: u8| b as char).push(buffer@[i as int] as char));
        }
        i = i + 1;
    }
    assert(buffer@.take(i as int) =~= buffer@);
    r
}

/// The name of a system, its version and the name of its distribution, with a space
/// between each two.
pub open spec fn long_version(
    system_name: Seq<char>,
    os_version: Option<Seq<char>>,
    name: Option<Seq<char>>,
) -> Seq<char> {
    (system_name.push(' ') + or_empty(os_version)).push(' ') + or_empty(name)
}

/// The three stand one after another with a single space between each two, which stays
/// where one of them is not known.
pub proof fn law_long_version(system_name: Seq<char>, os_version: Seq<char>, name: Seq<char>)
    ensures
        long_version(system_name, Some(os_version), Some(name)) == system_name + seq![' ']
            + os_version + seq![' '] + name,
        long_version(system_name, None, Some(name)) == system_name + seq![' ', ' '] + name,
        long_version(system_name, Some(os_version), None) == system_name + seq![' '] + os_version
            + seq![' '],
        long_version(system_name, None, None) == system_name + seq![' ', ' '],
{
    assert(long_version(system_name, Some(os_version), Some(name)) =~= system_name + seq![' ']
        + os_version + seq![' '] + name);
    assert(long_version(system_name, None, Some(name)) =~= system_name + seq![' ', ' '] + name);
    assert(long_version(system_name, Some(os_version), None) =~= system_name + seq![' ']
        + os_version + seq![' ']);
    assert(long_version(system_name, None, None) =~= system_name + seq![' ', ' ']);
}

/// The long version of a Linux system.
pub open spec fn long_os_version_text(files: ReleaseFiles) -> Seq<char> {
    long_version(
        "Linux"@,
        release_value(InfoType::OsVersion, files),
        release_value(InfoType::Name, files),
    )
}

/// The long version begins with `Linux`, then comes the version of the distribution and
/// last its name, each behind a space, whether it is known or not.
pub proof fn law_long_os_version(files: ReleaseFiles)
    ensures
        ({
            let front = "Linux"@ + seq![' '];
            let text = long_os_version_text(files);
            let told = (
                release_value(InfoType::OsVersion, files),
                release_value(InfoType::Name, files),
            );
            match told {
                (Some(version), Some(name)) => text == front + version + seq![' '] + name,
                (Some(version), None) => text == front + version + seq![' '],
                (None, Some(name)) => text == front + seq![' '] + name,
                (None, None) => text == front + seq![' '],
            }
        }),
{
    let version = or_empty(release_value(InfoType::OsVersion, files));
    let name = or_empty(release_value(InfoType::Name, files));
    let front = "Linux"@ + seq![' '];
    law_long_version("Linux"@, version, name);
    assert("Linux"@ + seq![' ', ' '] =~= front + seq![' ']);
    assert("Linux"@ + seq![' ', ' '] + name =~= front + seq![' '] + name);
}

/// What a string holds is told where there is one, and only there.
pub proof fn law_text_of(s: Option<String>)
    ensures
        s is None <==> text_of(s) is None,
        s matches Some(text) ==> text_of(s) == Some(text@),
{
}

/// The name of a system, its version and the name of its distribution.
pub fn long_version_text(
    system_name: &str,
    os_version: Option<String>,
    name: Option<String>,
) -> (r: String)
    ensures
        r@ == long_version(system_name@, text_of(os_version), text_of(name)),
{
    let mut r = system_name.to_owned();
    r.push(' ');
    if let Some(text) = os_version {
        r.append(text.as_str());
    }
    r.push(' ');
    if let Some(text) = name {
        r.append(text.as_str());
    }
    r
}

impl<H: Host> System<H> {
    /// The name of the distribution.
    pub fn name(&self, files: ReleaseFiles) -> (r: Option<String>)
        ensures
            text_of(r) == release_value(InfoType::Name, files),
    {
        get_system_info_linux(InfoType::Name, files)
    }

    /// The version of the distribution.
    pub fn os_version(&self, files: ReleaseFiles) -> (r: Option<String>)
        ensures
            text_of(r) == release_value(InfoType::OsVersion, files),
    {
        get_system_info_linux(InfoType::OsVersion, files)
    }

    /// The system, its version and its distribution.
    pub fn long_os_version(&self, files: ReleaseFiles) -> (r: Option<String>)
        ensures
            text_of(r) == Some(long_os_version_text(files)),
    {
        Some(long_version_text("Linux", self.os_version(files), self.name(files)))
    }

    /// The host name. `buffer` is what the name was put in, if it could be had.
    pub fn host_name(&self, buffer: Option<&[u8]>) -> (r: Option<String>)
        ensures
            text_of(r) == host_name_text(buffer),
    {
        match buffer {
            Some(bytes) => text_in(bytes),
            None => None,
        }
    }

    /// The release of the kernel. `release` is what it was put in, if it could be had.
    pub fn kernel_version(&self, release: Option<&[u8]>) -> (r: Option<String>)
        ensures
            text_of(r) == kernel_version_text(release),
    {
        match release {
            Some(bytes) => Some(kernel_release_in(bytes)),
            None => None,
        }
    }
}

} // verus!
