//! Character-level utilities shared by the version, progress and release
//! modules: whitespace and digit runs, trimming, ASCII case folding, and
//! substring search.

use vstd::prelude::*;

verus! {

/// The whitespace characters the grammars in this crate accept: the
/// ASCII whitespace set. A character outside it — including non-ASCII
/// Unicode whitespace such as a no-break space — counts as ordinary
/// text everywhere in this crate.
pub open spec fn is_space(c: char) -> bool {
    c == ' ' || c == '\t' || c == '\n' || c == '\r' || c == '\x0b' || c == '\x0c'
}

pub open spec fn is_digit(c: char) -> bool {
    '0' <= c && c <= '9'
}

pub open spec fn digit_val(c: char) -> int {
    c as int - '0' as int
}

/// Index just past the run of whitespace that starts at `i`.
pub open spec fn space_run_end(s: Seq<char>, i: int) -> int
    recommends
        0 <= i <= s.len(),
    decreases s.len() - i,
{
    if i < s.len() && is_space(s[i]) {
        space_run_end(s, i + 1)
    } else {
        i
    }
}

/// Index just past the run of decimal digits that starts at `i`.
pub open spec fn digit_run_end(s: Seq<char>, i: int) -> int
    recommends
        0 <= i <= s.len(),
    decreases s.len() - i,
{
    if i < s.len() && is_digit(s[i]) {
        digit_run_end(s, i + 1)
    } else {
        i
    }
}

pub proof fn lemma_space_run_end_bounds(s: Seq<char>, i: int)
    requires
        0 <= i <= s.len(),
    ensures
        i <= space_run_end(s, i) <= s.len(),
        space_run_end(s, i) < s.len() ==> !is_space(s[space_run_end(s, i)]),
        forall|k: int| i <= k < space_run_end(s, i) ==> is_space(s[k]),
    decreases s.len() - i,
{
    if i < s.len() && is_space(s[i]) {
        lemma_space_run_end_bounds(s, i + 1);
    }
}

pub proof fn lemma_digit_run_end_bounds(s: Seq<char>, i: int)
    requires
        0 <= i <= s.len(),
    ensures
        i <= digit_run_end(s, i) <= s.len(),
        digit_run_end(s, i) < s.len() ==> !is_digit(s[digit_run_end(s, i)]),
        forall|k: int| i <= k < digit_run_end(s, i) ==> is_digit(s[k]),
    decreases s.len() - i,
{
    if i < s.len() && is_digit(s[i]) {
        lemma_digit_run_end_bounds(s, i + 1);
    }
}

/// Index just past the run of non-whitespace characters that starts at
/// `i`.
pub open spec fn nonspace_run_end(s: Seq<char>, i: int) -> int
    recommends
        0 <= i <= s.len(),
    decreases s.len() - i,
{
    if i < s.len() && !is_space(s[i]) {
        nonspace_run_end(s, i + 1)
    } else {
        i
    }
}

pub proof fn lemma_nonspace_run_end_bounds(s: Seq<char>, i: int)
    requires
        0 <= i <= s.len(),
    ensures
        i <= nonspace_run_end(s, i) <= s.len(),
    decreases s.len() - i,
{
    if i < s.len() && !is_space(s[i]) {
        lemma_nonspace_run_end_bounds(s, i + 1);
    }
}

/// Index of the first line feed at or after `i`, or the end of the
/// string.
pub open spec fn line_end(s: Seq<char>, i: int) -> int
    recommends
        0 <= i <= s.len(),
    decreases s.len() - i,
{
    if i < s.len() && s[i] != '\n' {
        line_end(s, i + 1)
    } else {
        i
    }
}

pub proof fn lemma_line_end_bounds(s: Seq<char>, i: int)
    requires
        0 <= i <= s.len(),
    ensures
        i <= line_end(s, i) <= s.len(),
    decreases s.len() - i,
{
    if i < s.len() && s[i] != '\n' {
        lemma_line_end_bounds(s, i + 1);
    }
}

/// Value of the decimal digit string `s[i..j]`, most significant first.
pub open spec fn digits_value(s: Seq<char>, i: int, j: int) -> int
    recommends
        0 <= i <= j <= s.len(),
    decreases j - i,
{
    if i >= j {
        0
    } else {
        digits_value(s, i, j - 1) * 10 + digit_val(s[j - 1])
    }
}

pub proof fn lemma_digits_value_nonneg(s: Seq<char>, i: int, j: int)
    requires
        0 <= i <= j <= s.len(),
        forall|k: int| i <= k < j ==> is_digit(s[k]),
    ensures
        digits_value(s, i, j) >= 0,
    decreases j - i,
{
    if i < j {
        lemma_digits_value_nonneg(s, i, j - 1);
    }
}

pub fn is_space_char(c: char) -> (r: bool)
    ensures
        r == is_space(c),
{
    c == ' ' || c == '\t' || c == '\n' || c == '\r' || c == '\x0b' || c == '\x0c'
}

pub fn is_digit_char(c: char) -> (r: bool)
    ensures
        r == is_digit(c),
{
    let x: u32 = c as u32;
    48 <= x && x <= 57
}

pub fn space_run_end_exec(s: &str, from: usize) -> (r: usize)
    requires
        from <= s@.len(),
    ensures
        r as int == space_run_end(s@, from as int),
        from <= r <= s@.len(),
{
    let len = s.unicode_len();
    let mut j = from;
    while j < len && is_space_char(s.get_char(j))
        invariant
            from <= j <= len,
            len == s@.len(),
            space_run_end(s@, from as int) == space_run_end(s@, j as int),
        decreases len - j,
    {
        j = j + 1;
    }
    proof {
        assert(space_run_end(s@, j as int) == j as int);
        lemma_space_run_end_bounds(s@, from as int);
    }
    j
}

pub fn nonspace_run_end_exec(s: &str, from: usize) -> (r: usize)
    requires
        from <= s@.len(),
    ensures
        r as int == nonspace_run_end(s@, from as int),
        from <= r <= s@.len(),
{
    let len = s.unicode_len();
    let mut j = from;
    while j < len && !is_space_char(s.get_char(j))
        invariant
            from <= j <= len,
            len == s@.len(),
            nonspace_run_end(s@, from as int) == nonspace_run_end(s@, j as int),
        decreases len - j,
    {
        j = j + 1;
    }
    proof {
        assert(nonspace_run_end(s@, j as int) == j as int);
        lemma_nonspace_run_end_bounds(s@, from as int);
    }
    j
}

pub fn line_end_exec(s: &str, from: usize) -> (r: usize)
    requires
        from <= s@.len(),
    ensures
        r as int == line_end(s@, from as int),
        from <= r <= s@.len(),
{
    let len = s.unicode_len();
    let mut j = from;
    while j < len && s.get_char(j) != '\n'
        invariant
            from <= j <= len,
            len == s@.len(),
            line_end(s@, from as int) == line_end(s@, j as int),
        decreases len - j,
    {
        j = j + 1;
    }
    proof {
        assert(line_end(s@, j as int) == j as int);
        lemma_line_end_bounds(s@, from as int);
    }
    j
}

pub fn digit_run_end_exec(s: &str, from: usize) -> (r: usize)
    requires
        from <= s@.len(),
    ensures
        r as int == digit_run_end(s@, from as int),
        from <= r <= s@.len(),
{
    let len = s.unicode_len();
    let mut j = from;
    while j < len && is_digit_char(s.get_char(j))
        invariant
            from <= j <= len,
            len == s@.len(),
            digit_run_end(s@, from as int) == digit_run_end(s@, j as int),
        decreases len - j,
    {
        j = j + 1;
    }
    proof {
        assert(digit_run_end(s@, j as int) == j as int);
        lemma_digit_run_end_bounds(s@, from as int);
    }
    j
}

/// Index of the last non-whitespace (ASCII sense) character before
/// `j`, plus one.
pub open spec fn trim_end_idx(s: Seq<char>, j: int) -> int
    recommends
        0 <= j <= s.len(),
    decreases j,
{
    if j > 0 && is_space(s[j - 1]) {
        trim_end_idx(s, j - 1)
    } else {
        j
    }
}

/// The string with leading and trailing ASCII whitespace removed;
/// non-ASCII whitespace is kept, as `is_space` says.
pub open spec fn spec_trim(s: Seq<char>) -> Seq<char> {
    let a = space_run_end(s, 0);
    let b = trim_end_idx(s, s.len() as int);
    if a <= b {
        s.subrange(a, b)
    } else {
        Seq::empty()
    }
}

pub fn trim_spaces<'a>(s: &'a str) -> (r: &'a str)
    ensures
        r@ == spec_trim(s@),
{
    proof {
        lemma_space_run_end_bounds(s@, 0);
    }
    let len = s.unicode_len();
    let a = space_run_end_exec(s, 0);
    let mut b = len;
    while b > a && is_space_char(s.get_char(b - 1))
        invariant
            a <= b <= len,
            len == s@.len(),
            a as int == space_run_end(s@, 0),
            a < len ==> !is_space(s@[a as int]),
            a < len ==> b > a,
            trim_end_idx(s@, b as int) == trim_end_idx(s@, len as int),
        decreases b,
    {
        b = b - 1;
    }
    let r = s.substring_char(a, b);
    proof {
        if a < len {
            assert(b > a);
            assert(!is_space(s@[b - 1]));
            assert(trim_end_idx(s@, b as int) == b as int);
            assert(r@ == spec_trim(s@));
        } else {
            assert(a == len && b == len);
            assert(r@ =~= Seq::<char>::empty());
            let ghost te = trim_end_idx(s@, len as int);
            if a as int <= te {
                assert(te == len) by {
                    lemma_trim_end_le(s@, len as int);
                }
                assert(s@.subrange(a as int, te) =~= Seq::<char>::empty());
            }
        }
    }
    r
}

pub proof fn lemma_trim_end_le(s: Seq<char>, j: int)
    requires
        0 <= j <= s.len(),
    ensures
        0 <= trim_end_idx(s, j) <= j,
        trim_end_idx(s, j) > 0 ==> !is_space(s[trim_end_idx(s, j) - 1]),
    decreases j,
{
    if j > 0 && is_space(s[j - 1]) {
        lemma_trim_end_le(s, j - 1);
    }
}

/// Trimming is idempotent: a trimmed string trims to itself.
pub proof fn lemma_trim_idempotent(s: Seq<char>)
    ensures
        spec_trim(spec_trim(s)) == spec_trim(s),
{
    lemma_space_run_end_bounds(s, 0);
    lemma_trim_end_le(s, s.len() as int);
    let a = space_run_end(s, 0);
    let b = trim_end_idx(s, s.len() as int);
    let t = spec_trim(s);
    if a <= b && b - a > 0 {
        assert(t == s.subrange(a, b));
        assert(t[0] == s[a]);
        assert(a < s.len());
        assert(!is_space(t[0]));
        assert(t[t.len() - 1] == s[b - 1]);
        assert(!is_space(t[t.len() - 1]));
        assert(space_run_end(t, 0) == 0);
        assert(trim_end_idx(t, t.len() as int) == t.len() as int);
        assert(t.subrange(0, t.len() as int) =~= t);
    } else {
        assert(t =~= Seq::<char>::empty());
        assert(space_run_end(t, 0) == 0);
        assert(trim_end_idx(t, 0) == 0);
        assert(t.subrange(0, 0) =~= t);
    }
}

/// Character-by-character string equality.
pub fn str_eq(a: &str, b: &str) -> (r: bool)
    ensures
        r == (a@ == b@),
{
    let la = a.unicode_len();
    let lb = b.unicode_len();
    if la != lb {
        return false;
    }
    let mut i: usize = 0;
    while i < la
        invariant
            0 <= i <= la,
            la == a@.len(),
            la == b@.len(),
            forall|k: int| 0 <= k < i ==> a@[k] == b@[k],
        decreases la - i,
    {
        if a.get_char(i) != b.get_char(i) {
            return false;
        }
        i = i + 1;
    }
    proof {
        assert(a@ =~= b@);
    }
    true
}

/// ASCII case folding of one character; any character outside
/// `'A'..='Z'` — including non-ASCII uppercase letters — is left
/// unchanged.
pub open spec fn lower_char(c: char) -> char {
    if 'A' <= c && c <= 'Z' {
        ((c as u8) + 32) as char
    } else {
        c
    }
}

/// ASCII case folding of a string.
pub open spec fn lower(s: Seq<char>) -> Seq<char> {
    s.map_values(|c: char| lower_char(c))
}

pub fn lower_char_exec(c: char) -> (r: char)
    ensures
        r == lower_char(c),
{
    let x: u32 = c as u32;
    if 65 <= x && x <= 90 {
        ((x as u8) + 32) as char
    } else {
        c
    }
}

/// `b` occurs at position `i` of `a`.
pub open spec fn occurs_at(a: Seq<char>, b: Seq<char>, i: int) -> bool {
    0 <= i && i + b.len() <= a.len() && a.subrange(i, i + b.len() as int) == b
}

/// `b` occurs somewhere in `a`.
pub open spec fn has_substring(a: Seq<char>, b: Seq<char>) -> bool {
    exists|i: int| occurs_at(a, b, i)
}

/// `a` ends with `b`.
pub open spec fn ends_with(a: Seq<char>, b: Seq<char>) -> bool {
    b.len() <= a.len() && a.subrange(a.len() - b.len() as int, a.len() as int) == b
}

/// Case-insensitive match test at one haystack position.
fn matches_at_ci(hay: &str, needle: &str, i: usize) -> (r: bool)
    requires
        i + needle@.len() <= hay@.len(),
    ensures
        r == occurs_at(lower(hay@), lower(needle@), i as int),
{
    let hl = hay.unicode_len();
    let nl = needle.unicode_len();
    let mut k: usize = 0;
    while k < nl
        invariant
            0 <= k <= nl,
            nl == needle@.len(),
            hl == hay@.len(),
            i + nl <= hl,
            forall|q: int| 0 <= q < k ==> lower(hay@)[i + q] == lower(needle@)[q],
        decreases nl - k,
    {
        if lower_char_exec(hay.get_char(i + k)) != lower_char_exec(needle.get_char(k)) {
            proof {
                assert(lower(hay@)[i + k] != lower(needle@)[k as int]);
                assert(!occurs_at(lower(hay@), lower(needle@), i as int)) by {
                    if occurs_at(lower(hay@), lower(needle@), i as int) {
                        assert(lower(hay@).subrange(i as int, i + lower(needle@).len() as int)[
                            k as int] == lower(needle@)[k as int]);
                    }
                }
            }
            return false;
        }
        k = k + 1;
    }
    proof {
        assert(lower(hay@).subrange(i as int, i + nl as int) =~= lower(needle@));
    }
    true
}

/// Case-insensitive substring search (ASCII folding, see
/// `lower_char`): does the folded haystack contain the folded needle?
pub fn contains_ci(hay: &str, needle: &str) -> (r: bool)
    ensures
        r == has_substring(lower(hay@), lower(needle@)),
{
    let hl = hay.unicode_len();
    let nl = needle.unicode_len();
    if nl > hl {
        proof {
            assert(forall|i: int| !occurs_at(lower(hay@), lower(needle@), i));
        }
        return false;
    }
    if nl == 0 {
        proof {
            assert(lower(hay@).subrange(0, 0) =~= lower(needle@));
            assert(occurs_at(lower(hay@), lower(needle@), 0));
        }
        return true;
    }
    let mut i: usize = 0;
    while i <= hl - nl
        invariant
            0 <= i <= hl - nl + 1,
            1 <= nl <= hl,
            hl == hay@.len(),
            nl == needle@.len(),
            forall|p: int| 0 <= p < i ==> !occurs_at(lower(hay@), lower(needle@), p),
        decreases hl - i,
    {
        if matches_at_ci(hay, needle, i) {
            return true;
        }
        i = i + 1;
    }
    proof {
        assert(forall|p: int| !occurs_at(lower(hay@), lower(needle@), p));
    }
    false
}

/// Case-insensitive suffix test (ASCII folding, see `lower_char`):
/// does the folded haystack end with the folded suffix?
pub fn ends_with_ci(hay: &str, suffix: &str) -> (r: bool)
    ensures
        r == ends_with(lower(hay@), lower(suffix@)),
{
    let hl = hay.unicode_len();
    let sl = suffix.unicode_len();
    if sl > hl {
        return false;
    }
    let start = hl - sl;
    let mut k: usize = 0;
    while k < sl
        invariant
            0 <= k <= sl,
            sl <= hl,
            start == hl - sl,
            hl == hay@.len(),
            sl == suffix@.len(),
            forall|q: int| 0 <= q < k ==> lower(hay@)[start + q] == lower(suffix@)[q],
        decreases sl - k,
    {
        if lower_char_exec(hay.get_char(start + k)) != lower_char_exec(suffix.get_char(k)) {
            proof {
                assert(lower(hay@)[start + k] != lower(suffix@)[k as int]);
                assert(!ends_with(lower(hay@), lower(suffix@))) by {
                    if ends_with(lower(hay@), lower(suffix@)) {
                        assert(lower(hay@).subrange(
                            lower(hay@).len() - lower(suffix@).len() as int,
                            lower(hay@).len() as int,
                        )[k as int] == lower(suffix@)[k as int]);
                    }
                }
            }
            return false;
        }
        k = k + 1;
    }
    proof {
        assert(lower(hay@).subrange(start as int, hl as int) =~= lower(suffix@));
    }
    true
}

} // verus!
