//! Progress-line parsing for the subprocess streamer.
//!
//! The downloader reports lines shaped `[download]  NN.N%` on its error
//! stream. The leftmost such match yields a percentage, rounded half up
//! on its first fractional digit and clamped to the range 0 to 100;
//! every other line is a diagnostic to be forwarded verbatim.

use vstd::prelude::*;

use crate::chars::{
    digit_run_end, digit_run_end_exec, digit_val, digits_value, is_digit, lemma_digit_run_end_bounds,
    space_run_end, space_run_end_exec,
};

verus! {

/// Rounding half up on the first fractional digit, clamped to 100.
pub open spec fn clamped_percent(whole: int, first_frac: int) -> u32
    recommends
        whole >= 0,
{
    let rounded = whole + if first_frac >= 5 {
        1int
    } else {
        0int
    };
    if rounded >= 100 {
        100u32
    } else {
        rounded as u32
    }
}

/// The progress pattern matched at position `i`: the tag `[download]`,
/// at least one whitespace character (the ASCII set of
/// `chars::is_space`), one or more decimal digits, a dot, one or more
/// fractional digits, then a percent sign.
pub open spec fn progress_at(s: Seq<char>, i: int) -> Option<u32>
    recommends
        0 <= i,
{
    if i + 10 <= s.len() && s.subrange(i, i + 10) == "[download]"@ {
        let w = space_run_end(s, i + 10);
        let d1e = digit_run_end(s, w);
        if w > i + 10 && d1e > w && d1e < s.len() && s[d1e] == '.' {
            let d2e = digit_run_end(s, d1e + 1);
            if d2e > d1e + 1 && d2e < s.len() && s[d2e] == '%' {
                Some(clamped_percent(digits_value(s, w, d1e), digit_val(s[d1e + 1])))
            } else {
                None
            }
        } else {
            None
        }
    } else {
        None
    }
}

pub open spec fn scan_progress(s: Seq<char>, i: int) -> Option<u32>
    recommends
        0 <= i,
    decreases s.len() - i,
{
    if i + 10 > s.len() {
        None
    } else if progress_at(s, i) is Some {
        progress_at(s, i)
    } else {
        scan_progress(s, i + 1)
    }
}

/// The leftmost progress match in the line, if any.
pub open spec fn progress_of_line(s: Seq<char>) -> Option<u32> {
    scan_progress(s, 0)
}

/// Does `[download]` stand at position `i`?
fn has_download_tag(s: &str, i: usize) -> (r: bool)
    requires
        i + 10 <= s@.len(),
    ensures
        r == (s@.subrange(i as int, i as int + 10) == "[download]"@),
{
    proof {
        reveal_strlit("[download]");
    }
    let len = s.unicode_len();
    assert(i + 10 <= len);
    let r = s.get_char(i) == '[' && s.get_char(i + 1) == 'd' && s.get_char(i + 2) == 'o'
        && s.get_char(i + 3) == 'w' && s.get_char(i + 4) == 'n' && s.get_char(i + 5) == 'l'
        && s.get_char(i + 6) == 'o' && s.get_char(i + 7) == 'a' && s.get_char(i + 8) == 'd'
        && s.get_char(i + 9) == ']';
    proof {
        if r {
            assert(s@.subrange(i as int, i as int + 10) =~= "[download]"@);
        } else {
            assert(s@.subrange(i as int, i as int + 10) != "[download]"@) by {
                if s@.subrange(i as int, i as int + 10) == "[download]"@ {
                    let sub = s@.subrange(i as int, i as int + 10);
                    assert(sub[0] == s@.index(i as int + 0));
                    assert(sub[1] == s@.index(i as int + 1));
                    assert(sub[2] == s@.index(i as int + 2));
                    assert(sub[3] == s@.index(i as int + 3));
                    assert(sub[4] == s@.index(i as int + 4));
                    assert(sub[5] == s@.index(i as int + 5));
                    assert(sub[6] == s@.index(i as int + 6));
                    assert(sub[7] == s@.index(i as int + 7));
                    assert(sub[8] == s@.index(i as int + 8));
                    assert(sub[9] == s@.index(i as int + 9));
                }
            }
        }
    }
    r
}

spec fn cap100(v: int) -> int {
    if v >= 100 {
        100
    } else {
        v
    }
}

/// Value of the digit string `s[from..to]`, saturated at 100.
fn capped_digits(s: &str, from: usize, to: usize) -> (r: u32)
    requires
        from <= to <= s@.len(),
        forall|k: int| from <= k < to ==> is_digit(s@[k]),
    ensures
        r as int == cap100(digits_value(s@, from as int, to as int)),
{
    let mut acc: u32 = 0;
    let mut k = from;
    while k < to
        invariant
            from <= k <= to <= s@.len(),
            forall|q: int| from <= q < to ==> is_digit(s@[q]),
            acc as int == cap100(digits_value(s@, from as int, k as int)),
        decreases to - k,
    {
        let d: u32 = (s.get_char(k) as u32) - 48;
        let next = acc * 10 + d;
        acc = if next > 100 {
            100
        } else {
            next
        };
        k = k + 1;
    }
    acc
}

/// Extract the leftmost progress percentage from one line, if any.
pub fn parse_progress(line: &str) -> (r: Option<u32>)
    ensures
        r == progress_of_line(line@),
{
    let len = line.unicode_len();
    if len < 10 {
        return None;
    }
    let mut i: usize = 0;
    while i <= len - 10
        invariant
            0 <= i <= len - 10 + 1,
            10 <= len,
            len == line@.len(),
            scan_progress(line@, 0) == scan_progress(line@, i as int),
        decreases len - i,
    {
        let m = try_progress_at(line, i);
        if m.is_some() {
            return m;
        }
        i = i + 1;
    }
    proof {
        assert(scan_progress(line@, i as int) is None);
    }
    None
}

/// Match the full progress pattern at one position.
fn try_progress_at(s: &str, i: usize) -> (r: Option<u32>)
    requires
        i + 10 <= s@.len(),
    ensures
        r == progress_at(s@, i as int),
{
    if !has_download_tag(s, i) {
        return None;
    }
    let len = s.unicode_len();
    let w = space_run_end_exec(s, i + 10);
    if w == i + 10 {
        return None;
    }
    let d1e = digit_run_end_exec(s, w);
    if d1e == w || d1e >= len || s.get_char(d1e) != '.' {
        return None;
    }
    let d2e = digit_run_end_exec(s, d1e + 1);
    if d2e == d1e + 1 || d2e >= len || s.get_char(d2e) != '%' {
        return None;
    }
    proof {
        lemma_digit_run_end_bounds(s@, w as int);
        lemma_digit_run_end_bounds(s@, (d1e + 1) as int);
    }
    let whole = capped_digits(s, w, d1e);
    let ff: u32 = (s.get_char(d1e + 1) as u32) - 48;
    let bump: u32 = if ff >= 5 {
        1
    } else {
        0
    };
    let rounded = if whole + bump >= 100 {
        100
    } else {
        whole + bump
    };
    Some(rounded)
}

proof fn lemma_scan_in_range(s: Seq<char>, i: int)
    requires
        0 <= i,
    ensures
        scan_progress(s, i) matches Some(p) ==> p <= 100,
    decreases s.len() - i,
{
    if i + 10 <= s.len() {
        if progress_at(s, i) is Some {
            let w = space_run_end(s, i + 10);
            crate::chars::lemma_space_run_end_bounds(s, i + 10);
            crate::chars::lemma_digit_run_end_bounds(s, w);
            crate::chars::lemma_digits_value_nonneg(s, w, digit_run_end(s, w));
        } else {
            lemma_scan_in_range(s, i + 1);
        }
    }
}

/// Every progress value a line can yield lies in the displayed range
/// of 0 to 100.
pub proof fn lemma_progress_in_range(s: Seq<char>)
    ensures
        progress_of_line(s) matches Some(p) ==> p <= 100,
{
    lemma_scan_in_range(s, 0);
}

/// What the stderr reader does with one line: record progress, or
/// forward the line verbatim as a diagnostic.
#[derive(Clone, Copy, Debug, PartialEq, Eq, Structural)]
pub enum StderrEvent {
    Progress(u32),
    Diagnostic,
}

/// Decide what one stderr line means: a progress match is recorded,
/// every other line stays a visible diagnostic.
pub fn classify_stderr_line(line: &str) -> (r: StderrEvent)
    ensures
        match progress_of_line(line@) {
            Some(p) => r == StderrEvent::Progress(p),
            None => r == StderrEvent::Diagnostic,
        },
{
    match parse_progress(line) {
        Some(p) => StderrEvent::Progress(p),
        None => StderrEvent::Diagnostic,
    }
}

/// The single shared percentage the renderer displays.
pub struct ProgressState {
    pub percent: u32,
}

impl ProgressState {
    /// The displayed value never leaves the range 0 to 100.
    pub open spec fn inv(self) -> bool {
        self.percent <= 100
    }

    pub fn new() -> (r: ProgressState)
        ensures
            r.percent == 0,
            r.inv(),
    {
        ProgressState { percent: 0 }
    }

    /// Apply one stderr event: progress updates the displayed value
    /// (clamped), a diagnostic leaves it unchanged.
    pub fn apply(&mut self, ev: StderrEvent)
        ensures
            final(self).percent == (match ev {
                StderrEvent::Progress(p) => if p >= 100 {
                    100u32
                } else {
                    p
                },
                StderrEvent::Diagnostic => old(self).percent,
            }),
            old(self).inv() ==> final(self).inv(),
    {
        match ev {
            StderrEvent::Progress(p) => {
                self.percent = if p >= 100 {
                    100
                } else {
                    p
                };
            },
            StderrEvent::Diagnostic => {},
        }
    }

    pub fn get(&self) -> (r: u32)
        ensures
            r == self.percent,
    {
        self.percent
    }
}

} // verus!
