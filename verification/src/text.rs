//! Cutting text into pieces: what the readers of `/proc` share.
use vstd::prelude::*;
use vstd::slice::slice_subrange;

verus! {

/// A unit of text that can be compared exactly: a byte or a character.
pub trait Symbol: Copy {
    /// Whether the two are the same symbol.
    fn same(self, other: Self) -> (r: bool)
        ensures
            r == (self == other),
    ;
}

impl Symbol for u8 {
    fn same(self, other: Self) -> (r: bool) {
        self == other
    }
}

impl Symbol for char {
    fn same(self, other: Self) -> (r: bool) {
        self == other
    }
}

/// The index of the first `x` in `s`, or the length of `s` where it holds none.
pub open spec fn first_index<T>(s: Seq<T>, x: T) -> int
    decreases s.len(),
{
    if s.len() == 0 || s[0] == x {
        0
    } else {
        1 + first_index(s.drop_first(), x)
    }
}

/// What stands before the first `sep`: all of `s` where it holds none.
pub open spec fn until<T>(s: Seq<T>, sep: T) -> Seq<T> {
    s.take(first_index(s, sep))
}

/// What stands after the first `sep`, if there is one.
pub open spec fn after<T>(s: Seq<T>, sep: T) -> Option<Seq<T>> {
    let i = first_index(s, sep);
    if i < s.len() {
        Some(s.skip(i + 1))
    } else {
        None
    }
}

/// The pieces of `s` between the separators: one more than there are separators.
pub open spec fn split<T>(s: Seq<T>, sep: T) -> Seq<Seq<T>>
    decreases s.len(),
{
    let i = first_index(s, sep);
    if 0 <= i < s.len() {
        seq![s.take(i)] + split(s.skip(i + 1), sep)
    } else {
        seq![s]
    }
}

/// The pieces put together again, with `sep` between each two.
pub open spec fn join<T>(parts: Seq<Seq<T>>, sep: T) -> Seq<T>
    decreases parts.len(),
{
    if parts.len() == 0 {
        seq![]
    } else if parts.len() == 1 {
        parts[0]
    } else {
        parts[0].push(sep) + join(parts.drop_first(), sep)
    }
}

/// What each of the slices holds.
pub open spec fn contents<T>(parts: Seq<&[T]>) -> Seq<Seq<T>> {
    Seq::new(parts.len(), |i: int| parts[i]@)
}

/// The pieces that hold something, in order.
pub open spec fn non_empty<T>(parts: Seq<Seq<T>>) -> Seq<Seq<T>>
    decreases parts.len(),
{
    if parts.len() == 0 {
        seq![]
    } else if parts.last().len() == 0 {
        non_empty(parts.drop_last())
    } else {
        non_empty(parts.drop_last()).push(parts.last())
    }
}

/// The lines of a file: each ends at a newline, and what follows the last newline
/// is a line where it holds something.
pub open spec fn file_lines(s: Seq<u8>) -> Seq<Seq<u8>> {
    let parts = split(s, 0x0a);
    if parts.last().len() == 0 {
        parts.drop_last()
    } else {
        parts
    }
}

/// Whether `s` begins with `prefix`.
pub open spec fn starts_with<T>(s: Seq<T>, prefix: Seq<T>) -> bool {
    prefix.len() <= s.len() && s.take(prefix.len() as int) == prefix
}

/// What slices hold is what each of them holds, in order.
pub proof fn law_contents<T>(parts: Seq<&[T]>, i: int)
    requires
        0 <= i < parts.len(),
    ensures
        contents(parts).len() == parts.len(),
        contents(parts)[i] == parts[i]@,
{
}

/// The first index is within `s`, names an `x` where it is not the length, and no
/// `x` stands before it.
pub proof fn lemma_first_index<T>(s: Seq<T>, x: T)
    ensures
        0 <= first_index(s, x) <= s.len(),
        first_index(s, x) < s.len() ==> s[first_index(s, x)] == x,
        forall|k: int| 0 <= k < first_index(s, x) ==> s[k] != x,
    decreases s.len(),
{
    if s.len() == 0 || s[0] == x {
    } else {
        let rest = s.drop_first();
        lemma_first_index(rest, x);
        assert forall|k: int| 0 <= k < first_index(s, x) implies s[k] != x by {
            if k > 0 {
                assert(rest[k - 1] == s[k]);
            }
        }
    }
}

/// An index with those properties is the first index.
proof fn lemma_first_index_is<T>(s: Seq<T>, x: T, i: int)
    requires
        0 <= i <= s.len(),
        i < s.len() ==> s[i] == x,
        forall|k: int| 0 <= k < i ==> s[k] != x,
    ensures
        first_index(s, x) == i,
{
    lemma_first_index(s, x);
}

/// Splitting loses nothing: the pieces joined by the separator are the text, there
/// is at least one piece, and no piece holds the separator.
pub proof fn law_split_join<T>(s: Seq<T>, sep: T)
    ensures
        split(s, sep).len() >= 1,
        join(split(s, sep), sep) == s,
        forall|i: int, k: int|
            0 <= i < split(s, sep).len() && 0 <= k < split(s, sep)[i].len() ==> #[trigger] split(
                s,
                sep,
            )[i][k] != sep,
    decreases s.len(),
{
    let i = first_index(s, sep);
    lemma_first_index(s, sep);
    let parts = split(s, sep);
    if i < s.len() {
        let rest = s.skip(i + 1);
        law_split_join(rest, sep);
        assert(parts.drop_first() =~= split(rest, sep));
        assert(s =~= s.take(i).push(sep) + rest);
        assert forall|j: int, k: int|
            0 <= j < parts.len() && 0 <= k < parts[j].len() implies #[trigger] parts[j][k]
                != sep by {
            if j > 0 {
                assert(parts[j] == split(rest, sep)[j - 1]);
            }
        }
    }
}

/// The first piece is what stands before the first separator.
pub proof fn lemma_split_first<T>(s: Seq<T>, sep: T)
    ensures
        split(s, sep).len() >= 1,
        split(s, sep)[0] == until(s, sep),
{
    lemma_first_index(s, sep);
    assert(s.take(s.len() as int) =~= s);
}

/// Text is cut at its first separator and nowhere else: what stands before it holds
/// none, and the two sides and the separator make up the text.
pub proof fn law_cut_at_the_first_separator<T>(s: Seq<T>, sep: T)
    ensures
        !until(s, sep).contains(sep),
        match after(s, sep) {
            Some(rest) => s == until(s, sep).push(sep) + rest,
            None => s == until(s, sep),
        },
        after(s, sep) is Some <==> s.contains(sep),
{
    lemma_first_index(s, sep);
    let i = first_index(s, sep);
    if i < s.len() {
        assert(s =~= s.take(i).push(sep) + s.skip(i + 1));
        assert(s[i] == sep);
    } else {
        assert(s.take(i) =~= s);
    }
}

/// Where a separator follows text that holds none, text is cut there; text that holds
/// none is left whole.
pub proof fn law_sides_of_a_separator<T>(a: Seq<T>, sep: T, b: Seq<T>)
    requires
        !a.contains(sep),
    ensures
        until(a.push(sep) + b, sep) == a,
        after(a.push(sep) + b, sep) == Some(b),
        until(a, sep) == a,
        after(a, sep) is None,
{
    let s = a.push(sep) + b;
    assert forall|k: int| 0 <= k < a.len() implies s[k] != sep && a[k] != sep by {
        assert(a.contains(a[k]));
    }
    assert(s[a.len() as int] == sep);
    lemma_first_index_is(s, sep, a.len() as int);
    lemma_first_index_is(a, sep, a.len() as int);
    assert(s.take(a.len() as int) =~= a);
    assert(s.skip(a.len() as int + 1) =~= b);
    assert(a.take(a.len() as int) =~= a);
}

/// Text in front that holds no separator stands before the first one as well.
pub proof fn lemma_until_behind<T>(a: Seq<T>, b: Seq<T>, sep: T)
    requires
        !a.contains(sep),
    ensures
        until(a + b, sep) == a + until(b, sep),
{
    law_cut_at_the_first_separator(b, sep);
    let front = a + until(b, sep);
    assert(!front.contains(sep)) by {
        if front.contains(sep) {
            let k = front.index_of(sep);
            if k < a.len() {
                assert(a[k] == sep);
            } else {
                assert(until(b, sep)[k - a.len()] == sep);
            }
        }
    }
    match after(b, sep) {
        Some(rest) => {
            assert(a + b =~= front.push(sep) + rest);
            law_sides_of_a_separator(front, sep, rest);
        },
        None => {
            law_sides_of_a_separator(front, sep, Seq::empty());
        },
    }
}

/// Each separator ends a piece: the pieces of text are what stands before its first
/// separator and then the pieces of the rest. Text without a separator is one piece.
pub proof fn law_pieces_follow_each_other<T>(a: Seq<T>, sep: T, b: Seq<T>)
    requires
        !a.contains(sep),
    ensures
        split(a.push(sep) + b, sep) == seq![a] + split(b, sep),
        split(a, sep) == seq![a],
{
    law_sides_of_a_separator(a, sep, b);
    let s = a.push(sep) + b;
    assert forall|k: int| 0 <= k < a.len() implies s[k] != sep && a[k] != sep by {
        assert(a.contains(a[k]));
    }
    assert(s[a.len() as int] == sep);
    lemma_first_index_is(s, sep, a.len() as int);
    lemma_first_index_is(a, sep, a.len() as int);
    assert(s.take(a.len() as int) =~= a);
    assert(s.skip(a.len() as int + 1) =~= b);
}

/// Leaving out the empty pieces keeps every other one, in order.
pub proof fn law_only_empty_pieces_go<T>(a: Seq<Seq<T>>, b: Seq<Seq<T>>, piece: Seq<T>)
    ensures
        non_empty(a + b) == non_empty(a) + non_empty(b),
        piece.len() == 0 ==> non_empty(seq![piece]) == Seq::<Seq<T>>::empty(),
        piece.len() > 0 ==> non_empty(seq![piece]) == seq![piece],
        non_empty(Seq::<Seq<T>>::empty()) == Seq::<Seq<T>>::empty(),
    decreases b.len(),
{
    assert(seq![piece].drop_last() =~= Seq::<Seq<T>>::empty());
    assert(non_empty(seq![piece].drop_last()) =~= Seq::<Seq<T>>::empty());
    if b.len() == 0 {
        assert(a + b =~= a);
        assert(non_empty(a) + non_empty(b) =~= non_empty(a));
    } else {
        law_only_empty_pieces_go(a, b.drop_last(), piece);
        assert((a + b).drop_last() =~= a + b.drop_last());
        assert(non_empty(a + b) =~= non_empty(a) + non_empty(b));
    }
}

/// Each newline ends a line, even an empty one; what follows the last newline is a line
/// only where it holds something.
pub proof fn law_a_newline_ends_a_line(a: Seq<u8>, b: Seq<u8>)
    requires
        !a.contains(0x0au8),
    ensures
        file_lines(a.push(0x0au8) + b) == seq![a] + file_lines(b),
        file_lines(a) == if a.len() > 0 {
            seq![a]
        } else {
            seq![]
        },
{
    law_pieces_follow_each_other(a, 0x0au8, b);
    law_split_join(b, 0x0au8);
    let parts = split(b, 0x0au8);
    let all = seq![a] + parts;
    assert(all.last() == parts.last());
    assert(all.drop_last() =~= seq![a] + parts.drop_last());
    assert(seq![a].drop_last() =~= Seq::<Seq<u8>>::empty());
}

/// Text begins with a prefix just where it is that prefix with something behind it.
pub proof fn law_a_prefix_is_followed_by_the_rest<T>(s: Seq<T>, prefix: Seq<T>, rest: Seq<T>)
    ensures
        starts_with(prefix + rest, prefix),
        starts_with(s, prefix) ==> s == prefix + s.skip(prefix.len() as int),
{
    assert((prefix + rest).take(prefix.len() as int) =~= prefix);
    if starts_with(s, prefix) {
        assert(s =~= s.take(prefix.len() as int) + s.skip(prefix.len() as int));
    }
}

/// The index of the first `x`.
pub fn find<T: Symbol>(s: &[T], x: T) -> (r: usize)
    ensures
        r == first_index(s@, x),
        r <= s@.len(),
{
    let mut i: usize = 0;
    while i < s.len()
        invariant
            i <= s@.len(),
            forall|k: int| 0 <= k < i ==> s@[k] != x,
        decreases s@.len() - i,
    {
        if s[i].same(x) {
            proof {
                lemma_first_index_is(s@, x, i as int);
            }
            return i;
        }
        i = i + 1;
    }
    proof {
        lemma_first_index_is(s@, x, i as int);
    }
    i
}

/// What stands before the first `sep`.
pub fn before<T: Symbol>(s: &[T], sep: T) -> (r: &[T])
    ensures
        r@ == until(s@, sep),
{
    let i: usize = find(s, sep);
    slice_subrange(s, 0, i)
}

/// What stands after the first `sep`, if there is one.
pub fn behind<T: Symbol>(s: &[T], sep: T) -> (r: Option<&[T]>)
    ensures
        r is Some == after(s@, sep) is Some,
        r matches Some(rest) ==> after(s@, sep) == Some(rest@),
{
    let i: usize = find(s, sep);
    if i < s.len() {
        Some(slice_subrange(s, i + 1, s.len()))
    } else {
        None
    }
}

/// The pieces of `s` between the separators.
pub fn pieces<T: Symbol>(s: &[T], sep: T) -> (parts: Vec<&[T]>)
    ensures
        contents(parts@) == split(s@, sep),
{
    let mut parts: Vec<&[T]> = Vec::new();
    let mut rest: &[T] = s;
    assert(contents(parts@) + split(rest@, sep) =~= split(s@, sep));
    loop
        invariant
            contents(parts@) + split(rest@, sep) == split(s@, sep),
        decreases rest@.len(),
    {
        let ghost had = parts@;
        let ghost left = rest@;
        let i: usize = find(rest, sep);
        if i == rest.len() {
            parts.push(rest);
            assert(contents(parts@) =~= contents(had) + split(left, sep));
            return parts;
        }
        let piece = slice_subrange(rest, 0, i);
        parts.push(piece);
        rest = slice_subrange(rest, i + 1, rest.len());
        assert(contents(parts@) =~= contents(had) + seq![left.take(i as int)]);
        assert(contents(parts@) + split(rest@, sep) =~= contents(had) + split(left, sep));
    }
}

/// The pieces that hold something.
pub fn filled<'a, T: Symbol>(parts: &Vec<&'a [T]>) -> (r: Vec<&'a [T]>)
    ensures
        contents(r@) == non_empty(contents(parts@)),
{
    let mut r: Vec<&'a [T]> = Vec::new();
    let mut i: usize = 0;
    let ghost all = contents(parts@);
    assert(contents(r@) =~= non_empty(all.take(0)));
    while i < parts.len()
        invariant
            i <= parts@.len(),
            all == contents(parts@),
            contents(r@) == non_empty(all.take(i as int)),
        decreases parts@.len() - i,
    {
        assert(all.take(i + 1).drop_last() =~= all.take(i as int));
        let ghost had = r@;
        if parts[i].len() > 0 {
            r.push(parts[i]);
            assert(contents(r@) =~= contents(had).push(all[i as int]));
        }
        i = i + 1;
    }
    assert(all.take(i as int) =~= all);
    r
}

/// The lines of a file.
pub fn lines_of(s: &[u8]) -> (lines: Vec<&[u8]>)
    ensures
        contents(lines@) == file_lines(s@),
{
    let mut lines: Vec<&[u8]> = pieces(s, 0x0a);
    let ghost parts = lines@;
    proof {
        law_split_join(s@, 0x0a);
        assert(contents(parts).len() == parts.len());
    }
    if lines[lines.len() - 1].len() == 0 {
        lines.pop();
        assert(contents(lines@) =~= contents(parts).drop_last());
    }
    lines
}

/// Whether `s` begins with `prefix`.
pub fn begins_with<T: Symbol>(s: &[T], prefix: &[T]) -> (r: bool)
    ensures
        r == starts_with(s@, prefix@),
{
    if s.len() < prefix.len() {
        return false;
    }
    let mut i: usize = 0;
    while i < prefix.len()
        invariant
            i <= prefix@.len() <= s@.len(),
            forall|k: int| 0 <= k < i ==> s@[k] == prefix@[k],
        decreases prefix@.len() - i,
    {
        if !s[i].same(prefix[i]) {
            assert(s@.take(prefix@.len() as int)[i as int] == s@[i as int]);
            return false;
        }
        i = i + 1;
    }
    assert(s@.take(prefix@.len() as int) =~= prefix@);
    true
}

/// Whether the two hold the same symbols.
pub fn same_text<T: Symbol>(a: &[T], b: &[T]) -> (r: bool)
    ensures
        r == (a@ == b@),
{
    let r = a.len() == b.len() && begins_with(a, b);
    assert(a@.len() == b@.len() ==> a@.take(b@.len() as int) =~= a@);
    r
}

} // verus!
