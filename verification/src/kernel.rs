//! Kernel version check: the trace-stop behavior the fast-path filter
//! relies on changed in an old kernel release, so the release string from
//! `uname` is parsed into a major/minor pair and compared against the
//! minimum supported version. The unverified shell reads the release string
//! and warns when the check says the kernel is too old.

use vstd::prelude::*;

verus! {

/// Whether `b` is an ASCII decimal digit.
pub open spec fn is_digit(b: u8) -> bool {
    48 <= b <= 57
}

/// The decimal value of a digit string (most significant first).
pub open spec fn dec_val(s: Seq<u8>) -> nat
    decreases s.len(),
{
    if s.len() == 0 {
        0
    } else {
        dec_val(s.drop_last()) * 10 + (if is_digit(s.last()) {
            (s.last() - 48) as nat
        } else {
            0
        })
    }
}

/// The first index at or past `o` holding a non-digit, or the length.
pub open spec fn digits_end(s: Seq<u8>, o: int) -> int
    decreases s.len() - o,
{
    if o < 0 || o >= s.len() {
        s.len() as int
    } else if !is_digit(s[o]) {
        o
    } else {
        digits_end(s, o + 1)
    }
}

/// The major/minor version at the front of a release string: a run of
/// digits, a dot, a run of digits. Missing digits, or a value beyond
/// `u32::MAX`, fail the parse; whatever follows the minor run is ignored.
pub open spec fn spec_parse_version(s: Seq<u8>) -> Option<(u32, u32)> {
    let e1 = digits_end(s, 0);
    if e1 == 0 {
        Option::None
    } else if dec_val(s.subrange(0, e1)) > u32::MAX {
        Option::None
    } else if e1 >= s.len() || s[e1] != 46 {
        Option::None
    } else {
        let e2 = digits_end(s, e1 + 1);
        if e2 == e1 + 1 {
            Option::None
        } else if dec_val(s.subrange(e1 + 1, e2)) > u32::MAX {
            Option::None
        } else {
            Some((dec_val(s.subrange(0, e1)) as u32, dec_val(s.subrange(e1 + 1, e2)) as u32))
        }
    }
}

/// If `s[o..i]` are all digits and `i` sits at a non-digit or the end, the
/// digit run from `o` ends at `i`.
proof fn lemma_digits_end(s: Seq<u8>, o: int, i: int)
    requires
        0 <= o <= i <= s.len(),
        forall|j: int| o <= j < i ==> is_digit(s[j]),
        i == s.len() || !is_digit(s[i]),
    ensures
        digits_end(s, o) == i,
    decreases i - o,
{
    if o < i {
        lemma_digits_end(s, o + 1, i);
    }
}

/// A digit string's value bounds the value of every prefix.
proof fn lemma_dec_val_prefix(s: Seq<u8>, k: int)
    requires
        0 <= k <= s.len(),
    ensures
        dec_val(s.subrange(0, k)) <= dec_val(s),
    decreases s.len() - k,
{
    if k == s.len() {
        assert(s.subrange(0, k) =~= s);
    } else {
        let p = s.subrange(0, k + 1);
        assert(p.drop_last() =~= s.subrange(0, k));
        assert(dec_val(s.subrange(0, k)) <= dec_val(p));
        lemma_dec_val_prefix(s, k + 1);
    }
}

/// Parses the digit run `s[from..to]` as a decimal number; fails exactly
/// when the value exceeds `u32::MAX`.
fn parse_decimal(s: &Vec<u8>, from: usize, to: usize) -> (r: Option<u32>)
    requires
        from <= to <= s@.len(),
        forall|j: int| from <= j < to ==> is_digit(s@[j]),
    ensures
        match r {
            Some(v) => v == dec_val(s@.subrange(from as int, to as int)) && dec_val(
                s@.subrange(from as int, to as int),
            ) <= u32::MAX,
            Option::None => dec_val(s@.subrange(from as int, to as int)) > u32::MAX,
        },
{
    let ghost seg = s@.subrange(from as int, to as int);
    let mut acc: u64 = 0;
    let mut i: usize = from;
    while i < to
        invariant
            from <= i <= to <= s@.len(),
            seg == s@.subrange(from as int, to as int),
            forall|j: int| from <= j < to ==> is_digit(s@[j]),
            acc == dec_val(seg.subrange(0, i - from)),
            acc <= u32::MAX,
        decreases to - i,
    {
        let d = s[i];
        proof {
            assert(seg.subrange(0, i + 1 - from).drop_last() =~= seg.subrange(0, i - from));
            assert(seg.subrange(0, i + 1 - from).last() == s@[i as int]);
        }
        acc = acc * 10 + ((d - 48) as u64);
        if acc > 0xffff_ffff {
            proof {
                lemma_dec_val_prefix(seg, i + 1 - from);
            }
            return Option::None;
        }
        i += 1;
    }
    proof {
        assert(seg.subrange(0, to - from as int) =~= seg);
    }
    Some(acc as u32)
}

/// The first index at or past `from` holding a non-digit, or the length.
fn find_digits_end(s: &Vec<u8>, from: usize) -> (r: usize)
    requires
        from <= s@.len(),
    ensures
        r as int == digits_end(s@, from as int),
        from <= r <= s@.len(),
        forall|j: int| from <= j < r ==> is_digit(s@[j]),
        r < s@.len() ==> !is_digit(s@[r as int]),
{
    let mut i: usize = from;
    while i < s.len()
        invariant
            from <= i <= s@.len(),
            forall|j: int| from <= j < i ==> is_digit(s@[j]),
        decreases s.len() - i,
    {
        if s[i] < 48 || s[i] > 57 {
            proof {
                lemma_digits_end(s@, from as int, i as int);
            }
            return i;
        }
        i += 1;
    }
    proof {
        lemma_digits_end(s@, from as int, s@.len() as int);
    }
    i
}

/// Parses the release string's leading `major.minor` pair, as
/// `spec_parse_version` lays it out.
pub fn parse_kernel_version(release: &Vec<u8>) -> (r: Option<(u32, u32)>)
    ensures
        r == spec_parse_version(release@),
{
    let e1 = find_digits_end(release, 0);
    if e1 == 0 {
        return Option::None;
    }
    let major = match parse_decimal(release, 0, e1) {
        Some(v) => v,
        Option::None => {
            return Option::None;
        },
    };
    if e1 >= release.len() || release[e1] != 46 {
        return Option::None;
    }
    let e2 = find_digits_end(release, e1 + 1);
    if e2 == e1 + 1 {
        return Option::None;
    }
    let minor = match parse_decimal(release, e1 + 1, e2) {
        Some(v) => v,
        Option::None => {
            return Option::None;
        },
    };
    Some((major, minor))
}

/// Whether the kernel a release string describes is at least the given
/// minimum version (compared lexicographically on major, then minor).
/// `None` when the release string's front is not `major.minor`.
pub fn is_current_kernel_greater_than(release: &Vec<u8>, min_major: u32, min_minor: u32) -> (r:
    Option<bool>)
    ensures
        match r {
            Some(b) => spec_parse_version(release@) matches Some(v) && b == (v.0 > min_major || (
            v.0 == min_major && v.1 >= min_minor)),
            Option::None => spec_parse_version(release@) is None,
        },
{
    match parse_kernel_version(release) {
        Some((major, minor)) => Some(
            major > min_major || (major == min_major && minor >= min_minor),
        ),
        Option::None => Option::None,
    }
}

} // verus!
