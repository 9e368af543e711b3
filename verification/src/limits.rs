//! How many files may be kept open.
use crate::system::truncated_quotient;
use vstd::arithmetic::div_mod::{
    lemma_fundamental_div_mod, lemma_mod_multiples_basic, lemma_small_mod,
};
use vstd::prelude::*;

verus! {

/// The limits on open files: the one in force, and the one that it can be raised to.
#[derive(Clone, Copy, Debug, PartialEq, Eq, Structural)]
pub struct FileLimits {
    pub current: u64,
    pub max: u64,
}

/// What an unsigned number is as a signed one of the size of an address: one that is
/// too great wraps.
pub open spec fn as_signed(x: u64) -> int {
    let span = isize::MAX - isize::MIN + 1;
    let r = x as int % span;
    if x <= isize::MAX {
        x as int
    } else if r > isize::MAX {
        r - span
    } else {
        r
    }
}

/// An unsigned number as a signed one of the size of an address.
fn signed(x: u64) -> (r: isize)
    ensures
        r == as_signed(x),
{
    #[verifier::truncate]
    let r: isize = x as isize;
    assert(usize::BITS == 32 ==> (x as isize) == if x % 0x1_0000_0000 > 0x7fff_ffff {
        x % 0x1_0000_0000 - 0x1_0000_0000
    } else {
        (x % 0x1_0000_0000) as int
    }) by (bit_vector);
    assert(usize::BITS == 64 ==> (x as isize) == if x > 0x7fff_ffff_ffff_ffff {
        x - 0x1_0000_0000_0000_0000
    } else {
        x as int
    }) by (bit_vector);
    proof {
        if usize::BITS == 64 {
            lemma_small_mod(x as nat, 0x1_0000_0000_0000_0000);
        }
    }
    r
}

impl FileLimits {
    /// The limits with the one in force raised as far as it can be.
    pub fn raised(self) -> (r: FileLimits)
        ensures
            r == (FileLimits { current: self.max, max: self.max }),
    {
        FileLimits { current: self.max, max: self.max }
    }
}

/// How many files may be kept open at once. `limits` are those found, if they could be
/// had, and `raised` says whether the one in force could be raised.
pub open spec fn files_to_keep(limits: Option<FileLimits>, raised: bool) -> int {
    match limits {
        Some(l) => as_signed(
            if raised {
                l.max / 2
            } else {
                l.current / 2
            },
        ),
        // Most systems set 1024.
        None => 512,
    }
}

/// At least half of the files that the limit in force allows are left to the program.
pub proof fn law_half_of_the_files_are_left(limits: FileLimits, raised: bool)
    ensures
        2 * files_to_keep(Some(limits), raised) <= if raised {
            limits.max
        } else {
            limits.current
        },
{
    let half = if raised {
        limits.max / 2
    } else {
        limits.current / 2
    };
    lemma_as_signed_is_no_greater(half);
}

/// Just half of the files are kept for reading, rounded down: of the limit that it could be
/// raised to, or of the one in force where it could not. Where no limit can be had, it is
/// half of 1024. A half too great for a signed number wraps.
pub proof fn law_half_of_the_files_are_kept(limits: FileLimits, raised: bool)
    ensures
        raised && limits.max / 2 <= isize::MAX ==> 2 * files_to_keep(Some(limits), raised)
            <= limits.max < 2 * files_to_keep(Some(limits), raised) + 2,
        !raised && limits.current / 2 <= isize::MAX ==> 2 * files_to_keep(Some(limits), raised)
            <= limits.current < 2 * files_to_keep(Some(limits), raised) + 2,
        raised ==> (limits.max / 2 - files_to_keep(Some(limits), raised)) % (isize::MAX
            - isize::MIN + 1) == 0,
        !raised ==> (limits.current / 2 - files_to_keep(Some(limits), raised)) % (isize::MAX
            - isize::MIN + 1) == 0,
        isize::MIN <= files_to_keep(Some(limits), raised) <= isize::MAX,
        2 * files_to_keep(None, raised) == 1024,
{
    law_as_signed_wraps(limits.max / 2);
    law_as_signed_wraps(limits.current / 2);
}

/// A limit that is not in use does not matter.
pub proof fn law_one_limit_counts(limits: FileLimits, other: u64)
    ensures
        files_to_keep(Some(limits), true) == files_to_keep(
            Some(FileLimits { current: other, ..limits }),
            true,
        ),
        files_to_keep(Some(limits), false) == files_to_keep(
            Some(FileLimits { max: other, ..limits }),
            false,
        ),
{
}

/// An unsigned number and the signed one that it is taken as differ by a multiple of the
/// number of values that the latter can have, and it fits.
pub proof fn law_as_signed_wraps(x: u64)
    ensures
        isize::MIN <= as_signed(x) <= isize::MAX,
        x <= isize::MAX ==> as_signed(x) == x,
        (x - as_signed(x)) % (isize::MAX - isize::MIN + 1) == 0,
{
    let span = isize::MAX - isize::MIN + 1;
    let r = x as int % span;
    lemma_fundamental_div_mod(x as int, span);
    let q = x as int / span;
    assert(x - r == span * q);
    if x <= isize::MAX {
        lemma_small_mod(0, span as nat);
    } else if r > isize::MAX {
        assert(x - as_signed(x) == span * (q + 1)) by (nonlinear_arith)
            requires
                x - r == span * q,
                as_signed(x) == r - span,
        ;
        lemma_mod_multiples_basic(q + 1, span);
        assert(span * (q + 1) == (q + 1) * span) by (nonlinear_arith);
    } else {
        lemma_mod_multiples_basic(q, span);
        assert(span * q == q * span) by (nonlinear_arith);
    }
}

proof fn lemma_as_signed_is_no_greater(x: u64)
    ensures
        as_signed(x) <= x,
{
    let span = isize::MAX - isize::MIN + 1;
    vstd::arithmetic::div_mod::lemma_mod_decreases(x as nat, span as nat);
}

/// How many files may be kept open at once, to begin with.
pub fn remaining_files(limits: Option<FileLimits>, raised: bool) -> (r: isize)
    ensures
        r == files_to_keep(limits, raised),
{
    match limits {
        Some(l) => {
            if raised {
                signed(l.max / 2)
            } else {
                signed(l.current / 2)
            }
        },
        None => 512,
    }
}

/// How many files can ever be kept open at once.
pub open spec fn most_files(limits: Option<FileLimits>) -> int {
    match limits {
        Some(l) => truncated_quotient(as_signed(l.max), 2),
        // Most systems set 1024.
        None => 512,
    }
}

/// At most half of the files that the limit can be raised to are ever kept open, whatever
/// the one in force. A limit too great for a signed number is halved toward zero as the one
/// that it wraps to. Where no limit can be had, it is half of 1024.
pub proof fn law_half_of_the_files_at_most(limits: FileLimits, other: u64)
    ensures
        limits.max <= isize::MAX ==> 2 * most_files(Some(limits)) <= limits.max < 2 * most_files(
            Some(limits),
        ) + 2,
        as_signed(limits.max) < 0 ==> 2 * most_files(Some(limits)) - 2 < as_signed(limits.max)
            <= 2 * most_files(Some(limits)),
        as_signed(limits.max) >= 0 ==> 2 * most_files(Some(limits)) <= as_signed(limits.max) < 2
            * most_files(Some(limits)) + 2,
        most_files(Some(limits)) == most_files(Some(FileLimits { current: other, ..limits })),
        2 * most_files(None) == 1024,
{
}

/// How many files can ever be kept open at once.
pub fn get_max_nb_fds(limits: Option<FileLimits>) -> (r: isize)
    ensures
        r == most_files(limits),
{
    match limits {
        Some(l) => signed(l.max) / 2,
        None => 512,
    }
}

} // verus!
