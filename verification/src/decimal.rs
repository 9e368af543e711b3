//! Numbers written in base ten.
use vstd::arithmetic::power::{lemma_pow0, lemma_pow_increases, pow};
use vstd::prelude::*;

verus! {

/// The number that bytes spell in base ten, each standing for its distance from
/// `b'0'`.
pub open spec fn decimal(s: Seq<u8>) -> nat
    decreases s.len(),
{
    if s.len() == 0 {
        0
    } else {
        decimal(s.drop_last()) * 10 + (s.last() - 0x30) as nat
    }
}

/// Whether [`to_u64`] has a value for the bytes: none is below `b'0'`, and what
/// they spell fits.
pub open spec fn is_number(s: Seq<u8>) -> bool {
    &&& forall|i: int| 0 <= i < s.len() ==> s[i] >= 0x30
    &&& decimal(s) <= u64::MAX
}

/// The base ten digits of `n`, without leading zeros.
pub open spec fn digits(n: nat) -> Seq<u8>
    decreases n,
{
    if n < 10 {
        seq![(0x30 + n) as u8]
    } else {
        digits(n / 10).push((0x30 + n % 10) as u8)
    }
}

/// Reading the digits of a number gives the number.
pub proof fn law_digits_round_trip(n: u64)
    ensures
        is_number(digits(n as nat)),
        decimal(digits(n as nat)) == n,
    decreases n,
{
    let s = digits(n as nat);
    if n < 10 {
        assert(s.drop_last() =~= Seq::<u8>::empty());
        assert(decimal(s.drop_last()) == 0);
    } else {
        law_digits_round_trip(n / 10);
        assert(s.drop_last() =~= digits((n / 10) as nat));
    }
}

/// The digits of a number are digits, and there is one at least.
pub proof fn lemma_digits_are_digits(n: nat)
    ensures
        digits(n).len() > 0,
        forall|i: int| 0 <= i < digits(n).len() ==> 0x30 <= #[trigger] digits(n)[i] <= 0x39,
    decreases n,
{
    if n >= 10 {
        lemma_digits_are_digits(n / 10);
    }
}

/// Each place counts ten times the next: bytes in front of others count for ten to the
/// power of how many those are. A single byte counts for its distance from `b'0'`.
pub proof fn law_places_count_by_ten(a: Seq<u8>, b: Seq<u8>, c: u8)
    requires
        c >= 0x30,
    ensures
        decimal(a + b) == decimal(a) * pow(10, b.len()) + decimal(b),
        decimal(seq![c]) == c - 0x30,
        decimal(Seq::<u8>::empty()) == 0,
    decreases b.len(),
{
    assert(seq![c].drop_last() =~= Seq::<u8>::empty());
    assert(decimal(seq![c].drop_last()) == 0);
    if b.len() == 0 {
        assert(a + b =~= a);
        lemma_pow0(10);
    } else {
        law_places_count_by_ten(a, b.drop_last(), c);
        assert((a + b).drop_last() =~= a + b.drop_last());
        assert((a + b).last() == b.last());
        reveal(pow);
        let tens = pow(10, b.drop_last().len());
        assert(pow(10, b.len()) == 10 * tens);
        assert((decimal(a) * tens + decimal(b.drop_last())) * 10 == decimal(a) * (10 * tens)
            + decimal(b.drop_last()) * 10) by (nonlinear_arith);
    }
}

/// Up to nineteen digits always have a value.
pub proof fn law_nineteen_digits_fit(s: Seq<u8>)
    requires
        s.len() <= 19,
        forall|i: int| 0 <= i < s.len() ==> 0x30 <= #[trigger] s[i] <= 0x39,
    ensures
        is_number(s),
        decimal(s) < pow(10, s.len()),
    decreases s.len(),
{
    if s.len() == 0 {
        lemma_pow0(10);
    } else {
        let front = s.drop_last();
        law_nineteen_digits_fit(front);
        assert(0x30 <= s[s.len() - 1] <= 0x39);
        reveal(pow);
        assert(pow(10, s.len()) == 10 * pow(10, front.len()));
    }
    lemma_pow_increases(10, s.len(), 19);
    assert(pow(10, 19) == 10_000_000_000_000_000_000) by {
        reveal_with_fuel(pow, 20);
    }
}

/// Bytes have a value where none is below `b'0'` and what they spell fits, and only
/// there.
pub proof fn law_what_has_a_value(s: Seq<u8>)
    ensures
        is_number(s) <==> (forall|i: int| 0 <= i < s.len() ==> #[trigger] s[i] >= 0x30)
            && decimal(s) <= 0xffff_ffff_ffff_ffff,
{
}

/// What a prefix spells is no more than what the whole spells.
proof fn lemma_decimal_prefix(s: Seq<u8>, i: int)
    requires
        0 <= i <= s.len(),
    ensures
        decimal(s.take(i)) <= decimal(s),
    decreases s.len(),
{
    if i == s.len() {
        assert(s.take(i) =~= s);
    } else {
        lemma_decimal_prefix(s.drop_last(), i);
        assert(s.drop_last().take(i) =~= s.take(i));
    }
}

/// The number that the bytes spell.
pub fn to_u64(v: &[u8]) -> (r: u64)
    requires
        is_number(v@),
    ensures
        r == decimal(v@),
{
    let mut x: u64 = 0;
    let mut i: usize = 0;
    while i < v.len()
        invariant
            i <= v@.len(),
            is_number(v@),
            x == decimal(v@.take(i as int)),
        decreases v@.len() - i,
    {
        proof {
            lemma_decimal_prefix(v@, i + 1);
            assert(v@.take(i + 1).drop_last() =~= v@.take(i as int));
        }
        x = x * 10;
        x = x + (v[i] - 0x30) as u64;
        i = i + 1;
    }
    assert(v@.take(i as int) =~= v@);
    x
}

/// Whether [`to_u64`] has a value for the bytes.
pub fn spells_u64(v: &[u8]) -> (r: bool)
    ensures
        r == is_number(v@),
{
    let mut x: u64 = 0;
    let mut i: usize = 0;
    while i < v.len()
        invariant
            i <= v@.len(),
            x == decimal(v@.take(i as int)),
            forall|k: int| 0 <= k < i ==> v@[k] >= 0x30,
        decreases v@.len() - i,
    {
        proof {
            lemma_decimal_prefix(v@, i + 1);
            assert(v@.take(i + 1).drop_last() =~= v@.take(i as int));
        }
        if v[i] < 0x30 {
            return false;
        }
        let digit: u64 = (v[i] - 0x30) as u64;
        match x.checked_mul(10) {
            None => {
                return false;
            },
            Some(tens) => match tens.checked_add(digit) {
                None => {
                    return false;
                },
                Some(sum) => {
                    x = sum;
                },
            },
        }
        i = i + 1;
    }
    assert(v@.take(i as int) =~= v@);
    true
}

/// Whether the character is one of the ten ASCII digits.
pub open spec fn is_digit(c: char) -> bool {
    0x30 <= c as u32 <= 0x39
}

/// The number that ASCII digits spell.
pub open spec fn digits_value(s: Seq<char>) -> nat
    decreases s.len(),
{
    if s.len() == 0 {
        0
    } else {
        digits_value(s.drop_last()) * 10 + (s.last() as u32 - 0x30) as nat
    }
}

/// The text without the plus sign that it may begin with.
pub open spec fn without_plus(s: Seq<char>) -> Seq<char> {
    if s.len() > 0 && s[0] == '+' {
        s.skip(1)
    } else {
        s
    }
}

/// The unsigned number that a text is: an optional plus sign, then ASCII digits
/// and nothing else, at least one of them, spelling a number that fits.
pub open spec fn unsigned_value(s: Seq<char>) -> Option<u64> {
    let d = without_plus(s);
    if d.len() > 0 && (forall|i: int| 0 <= i < d.len() ==> is_digit(#[trigger] d[i]))
        && digits_value(d) <= u64::MAX {
        Some(digits_value(d) as u64)
    } else {
        None
    }
}

/// A text of digits is read from the front: one digit is its own value, and each further
/// one makes it ten times as much and the digit more, for as long as that fits.
pub proof fn law_one_more_digit(s: Seq<char>, d: char)
    requires
        '0' <= d <= '9',
        forall|i: int| 0 <= i < s.len() ==> '0' <= #[trigger] s[i] <= '9',
    ensures
        unsigned_value(seq![d]) == Some((d as u32 - '0' as u32) as u64),
        s.len() > 0 ==> unsigned_value(s.push(d)) == match unsigned_value(s) {
            Some(v) => if v * 10 + (d as u32 - '0' as u32) <= u64::MAX {
                Some((v * 10 + (d as u32 - '0' as u32)) as u64)
            } else {
                None
            },
            None => None,
        },
{
    let one = seq![d];
    assert(one.drop_last() =~= Seq::<char>::empty());
    assert(digits_value(one.drop_last()) == 0);
    assert(without_plus(one) == one);
    assert(is_digit(one[0]));
    if s.len() > 0 {
        assert('0' <= s[0] <= '9');
        let t = s.push(d);
        assert(t[0] == s[0]);
        assert(without_plus(s) == s && without_plus(t) == t);
        assert(t.drop_last() =~= s);
        assert forall|i: int| 0 <= i < s.len() implies is_digit(#[trigger] s[i]) by {}
        assert forall|i: int| 0 <= i < t.len() implies is_digit(#[trigger] t[i]) by {
            if i < s.len() {
                assert(t[i] == s[i]);
            }
        }
    }
}

proof fn lemma_is_digit(c: char)
    ensures
        is_digit(c) == ('0' <= c <= '9'),
{
}

/// One plus sign in front changes nothing, a number has a digit, and anything but digits
/// behind that sign makes it no number.
pub proof fn law_a_number_is_digits(s: Seq<char>)
    ensures
        s.len() > 0 && s[0] != '+' ==> unsigned_value(seq!['+'] + s) == unsigned_value(s),
        unsigned_value(Seq::<char>::empty()) is None,
        unsigned_value(seq!['+']) is None,
        unsigned_value(s) is Some ==> forall|i: int|
            0 <= i < s.len() && !(i == 0 && s[0] == '+') ==> '0' <= #[trigger] s[i] <= '9',
{
    let signed = seq!['+'] + s;
    assert(signed.skip(1) =~= s);
    assert(seq!['+'].skip(1) =~= Seq::<char>::empty());
    let d = without_plus(s);
    if unsigned_value(s) is Some {
        assert forall|i: int| 0 <= i < s.len() && !(i == 0 && s[0] == '+') implies '0'
            <= #[trigger] s[i] <= '9' by {
            if s[0] == '+' {
                assert(d[i - 1] == s[i]);
                assert(is_digit(d[i - 1]));
                lemma_is_digit(d[i - 1]);
            } else {
                assert(d[i] == s[i]);
                assert(is_digit(d[i]));
                lemma_is_digit(d[i]);
            }
        }
    }
}

/// The digits of `n` as characters.
pub open spec fn digit_chars(n: nat) -> Seq<char> {
    digits(n).map_values(|b: u8| b as char)
}

/// Reading the digits of a number gives the number, as text too, and they hold nothing
/// but digits.
pub proof fn law_digit_chars_round_trip(n: u64)
    ensures
        unsigned_value(digit_chars(n as nat)) == Some(n),
        digit_chars(n as nat).len() > 0,
        forall|i: int|
            0 <= i < digit_chars(n as nat).len() ==> '0' <= #[trigger] digit_chars(n as nat)[i]
                <= '9',
    decreases n,
{
    let s = digit_chars(n as nat);
    if n < 10 {
        assert(s =~= seq![(0x30 + n) as u8 as char]);
        law_one_more_digit(Seq::empty(), s[0]);
    } else {
        let front = digit_chars((n / 10) as nat);
        law_digit_chars_round_trip(n / 10);
        let d = (0x30 + n % 10) as u8 as char;
        assert(s =~= front.push(d));
        law_one_more_digit(front, d);
    }
}

/// What a prefix spells is no more than what the whole spells.
proof fn lemma_digits_prefix(s: Seq<char>, i: int)
    requires
        0 <= i <= s.len(),
    ensures
        digits_value(s.take(i)) <= digits_value(s),
    decreases s.len(),
{
    if i == s.len() {
        assert(s.take(i) =~= s);
    } else {
        lemma_digits_prefix(s.drop_last(), i);
        assert(s.drop_last().take(i) =~= s.take(i));
    }
}

/// The unsigned number that the text is, if it is one.
pub fn parse_u64(s: &[char]) -> (r: Option<u64>)
    ensures
        r == unsigned_value(s@),
{
    let start: usize = if s.len() > 0 && s[0] == '+' {
        1
    } else {
        0
    };
    let ghost d = without_plus(s@);
    assert(d =~= s@.skip(start as int));
    if s.len() == start {
        return None;
    }
    let mut x: u64 = 0;
    let mut i: usize = start;
    assert(d.take(0) =~= Seq::<char>::empty());
    while i < s.len()
        invariant
            start <= i <= s@.len(),
            d == without_plus(s@),
            d == s@.skip(start as int),
            x == digits_value(d.take(i - start)),
            forall|k: int| 0 <= k < i - start ==> is_digit(#[trigger] d[k]),
        decreases s@.len() - i,
    {
        let ghost k = i - start;
        proof {
            assert(d[k] == s@[i as int]);
            lemma_digits_prefix(d, k + 1);
            assert(d.take(k + 1).drop_last() =~= d.take(k));
        }
        let code: u32 = s[i] as u32;
        if code < 0x30 || code > 0x39 {
            return None;
        }
        let digit: u64 = (code - 0x30) as u64;
        match x.checked_mul(10) {
            None => {
                return None;
            },
            Some(tens) => match tens.checked_add(digit) {
                None => {
                    return None;
                },
                Some(sum) => {
                    x = sum;
                },
            },
        }
        i = i + 1;
    }
    assert(d.take(i - start) =~= d);
    Some(x)
}

} // verus!
