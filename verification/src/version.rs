//! Date-shaped version strings: a `YYYY.M.D` prefix is parsed into a
//! triple of integers, and two parsed versions are ordered
//! lexicographically by (year, month, day).

use vstd::prelude::*;

use crate::chars::{
    digit_run_end, digit_run_end_exec, digits_value, is_digit, lemma_digit_run_end_bounds,
    lemma_space_run_end_bounds, space_run_end, space_run_end_exec,
};

verus! {

/// A version parsed from a `YYYY.M.D`-shaped string prefix.
#[derive(Clone, Copy, Debug, PartialEq, Eq, Structural)]
pub struct Version {
    pub year: u32,
    pub month: u32,
    pub day: u32,
}

/// What `parse` accepts: optional leading whitespace (the ASCII set of
/// `chars::is_space`), exactly four year digits, a dot, one or two
/// month digits, a dot, then at least one day digit of which the first
/// two count; the rest of the string is ignored. `None` when the
/// prefix has no such shape.
pub open spec fn spec_parse_version(s: Seq<char>) -> Option<Version> {
    let p = space_run_end(s, 0);
    let ye = digit_run_end(s, p);
    if ye - p == 4 && ye < s.len() && s[ye] == '.' {
        let ms = ye + 1;
        let me = digit_run_end(s, ms);
        if 1 <= me - ms <= 2 && me < s.len() && s[me] == '.' {
            let ds = me + 1;
            let de = digit_run_end(s, ds);
            let dl = if de - ds >= 2 {
                2int
            } else {
                de - ds
            };
            if dl >= 1 {
                Some(
                    Version {
                        year: digits_value(s, p, ye) as u32,
                        month: digits_value(s, ms, me) as u32,
                        day: digits_value(s, ds, ds + dl) as u32,
                    },
                )
            } else {
                None
            }
        } else {
            None
        }
    } else {
        None
    }
}

/// Value of up to four digit characters, read left to right.
fn digits_value_exec(s: &str, from: usize, to: usize) -> (r: u32)
    requires
        from <= to <= s@.len(),
        to - from <= 4,
        forall|k: int| from <= k < to ==> is_digit(s@[k]),
    ensures
        r as int == digits_value(s@, from as int, to as int),
        r < 10000,
{
    let mut acc: u32 = 0;
    let mut k = from;
    while k < to
        invariant
            from <= k <= to <= s@.len(),
            to - from <= 4,
            forall|q: int| from <= q < to ==> is_digit(s@[q]),
            acc as int == digits_value(s@, from as int, k as int),
            acc < pow10((k - from) as nat),
        decreases to - k,
    {
        proof {
            lemma_pow10_le_10000((k - from) as nat);
        }
        let d: u32 = (s.get_char(k) as u32) - 48;
        acc = acc * 10 + d;
        k = k + 1;
    }
    proof {
        lemma_pow10_le_10000((to - from) as nat);
    }
    acc
}

spec fn pow10(n: nat) -> int
    decreases n,
{
    if n == 0 {
        1
    } else {
        10 * pow10((n - 1) as nat)
    }
}

proof fn lemma_pow10_le_10000(n: nat)
    requires
        n <= 4,
    ensures
        pow10(n) <= 10000,
        pow10(n) >= 1,
{
    reveal_with_fuel(pow10, 5);
    if n == 0 {
    } else if n == 1 {
    } else if n == 2 {
    } else if n == 3 {
    } else {
        assert(n == 4);
    }
}

/// Parse a loosely-formatted date-like version string; extra trailing
/// text is ignored and an unmatched string yields `None`, never an
/// error.
pub fn parse_version(s: &str) -> (r: Option<Version>)
    ensures
        r == spec_parse_version(s@),
{
    proof {
        lemma_space_run_end_bounds(s@, 0);
    }
    let len = s.unicode_len();
    let p = space_run_end_exec(s, 0);
    let ye = digit_run_end_exec(s, p);
    proof {
        lemma_digit_run_end_bounds(s@, p as int);
    }
    if !(ye - p == 4 && ye < len && s.get_char(ye) == '.') {
        return None;
    }
    let ms = ye + 1;
    let me = digit_run_end_exec(s, ms);
    proof {
        lemma_digit_run_end_bounds(s@, ms as int);
    }
    if !(1 <= me - ms && me - ms <= 2 && me < len && s.get_char(me) == '.') {
        return None;
    }
    let ds = me + 1;
    let de = digit_run_end_exec(s, ds);
    proof {
        lemma_digit_run_end_bounds(s@, ds as int);
    }
    if de == ds {
        return None;
    }
    let dl = if de - ds >= 2 {
        2
    } else {
        de - ds
    };
    let year = digits_value_exec(s, p, ye);
    let month = digits_value_exec(s, ms, me);
    let day = digits_value_exec(s, ds, ds + dl);
    Some(Version { year, month, day })
}

/// Strict lexicographic order on (year, month, day).
pub open spec fn lex_lt(a: Version, b: Version) -> bool {
    a.year < b.year || (a.year == b.year && (a.month < b.month || (a.month == b.month
        && a.day < b.day)))
}

/// Three-way comparison: -1, 0 or 1.
pub open spec fn spec_compare(a: Version, b: Version) -> int {
    if lex_lt(a, b) {
        -1
    } else if lex_lt(b, a) {
        1
    } else {
        0
    }
}

/// Standard tuple comparison of two parsed versions.
pub fn compare(a: &Version, b: &Version) -> (r: i8)
    ensures
        r as int == spec_compare(*a, *b),
{
    if a.year < b.year {
        -1
    } else if a.year > b.year {
        1
    } else if a.month < b.month {
        -1
    } else if a.month > b.month {
        1
    } else if a.day < b.day {
        -1
    } else if a.day > b.day {
        1
    } else {
        0
    }
}

/// Comparison is antisymmetric: swapping the arguments negates the
/// result.
pub proof fn lemma_compare_antisymmetric(a: Version, b: Version)
    ensures
        spec_compare(a, b) == -spec_compare(b, a),
{
}

/// Comparison agrees with strict lexicographic (year, month, day)
/// order, and is zero exactly on equal triples.
pub proof fn lemma_compare_lexicographic(a: Version, b: Version)
    ensures
        spec_compare(a, b) < 0 <==> lex_lt(a, b),
        spec_compare(a, b) > 0 <==> lex_lt(b, a),
        spec_compare(a, b) == 0 <==> a == b,
{
}

/// Comparison is transitive.
pub proof fn lemma_compare_transitive(a: Version, b: Version, c: Version)
    requires
        spec_compare(a, b) < 0,
        spec_compare(b, c) < 0,
    ensures
        spec_compare(a, c) < 0,
{
}

} // verus!
