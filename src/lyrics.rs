//! Timed lyrics: parsing `[minutes:seconds]text` lines and finding the line
//! that is active at a playback position.
//!
//! Timestamps are kept in whole milliseconds; digits of a fraction of a
//! second past the third are dropped.
use crate::chars::{chars_of, string_from_chars};
use itertools::Itertools;
use vstd::prelude::*;

verus! {

/// A character that frames the timestamp of a lyric line.
pub open spec fn is_delim_spec(c: char) -> bool {
    c == '[' || c == ':' || c == ']'
}

pub open spec fn is_digit(c: char) -> bool {
    '0' <= c && c <= '9'
}

pub open spec fn digit_val(c: char) -> int {
    c as int - '0' as int
}

pub open spec fn all_digits(s: Seq<char>) -> bool {
    forall|i: int| 0 <= i < s.len() ==> is_digit(#[trigger] s[i])
}

/// The number that a run of decimal digits spells.
pub open spec fn digits_value(s: Seq<char>) -> int
    decreases s.len(),
{
    if s.len() == 0 {
        0
    } else {
        digits_value(s.drop_last()) * 10 + digit_val(s.last())
    }
}

/// The positions of the delimiters of `s`, ascending.
pub open spec fn delims(s: Seq<char>) -> Seq<int>
    decreases s.len(),
{
    if s.len() == 0 {
        Seq::empty()
    } else if is_delim_spec(s.last()) {
        delims(s.drop_last()).push(s.len() - 1)
    } else {
        delims(s.drop_last())
    }
}

/// `s` is `whole.frac`, both parts non-empty runs of digits, the dot at `k`.
pub open spec fn is_dot_split(s: Seq<char>, k: int) -> bool {
    &&& 0 < k < s.len() - 1
    &&& s[k] == '.'
    &&& all_digits(s.take(k))
    &&& all_digits(s.skip(k + 1))
}

/// A seconds field: digits, optionally followed by a dot and more digits.
pub open spec fn valid_seconds(s: Seq<char>) -> bool {
    (s.len() > 0 && all_digits(s)) || exists|k: int| is_dot_split(s, k)
}

/// Milliseconds spelled by the first three digits of a fraction, zero-padded.
pub open spec fn frac_ms(f: Seq<char>) -> int {
    (if 0 < f.len() { digit_val(f[0]) * 100 } else { 0 }) + (if 1 < f.len() {
        digit_val(f[1]) * 10
    } else {
        0
    }) + (if 2 < f.len() { digit_val(f[2]) } else { 0 })
}

/// Milliseconds spelled by a valid seconds field.
pub open spec fn seconds_ms(s: Seq<char>) -> int {
    if all_digits(s) {
        digits_value(s) * 1000
    } else {
        let k = choose|k: int| is_dot_split(s, k);
        digits_value(s.take(k)) * 1000 + frac_ms(s.skip(k + 1))
    }
}

/// Unicode White_Space, the characters that `char::is_whitespace` accepts.
pub open spec fn is_blank_char_spec(c: char) -> bool {
    ('\t' <= c && c <= '\r') || c == ' ' || c == '\u{85}' || c == '\u{a0}' || c == '\u{1680}'
        || ('\u{2000}' <= c && c <= '\u{200a}') || c == '\u{2028}' || c == '\u{2029}' || c
        == '\u{202f}' || c == '\u{205f}' || c == '\u{3000}'
}

/// `s` is empty once white space is trimmed from it.
pub open spec fn is_blank(s: Seq<char>) -> bool {
    forall|i: int| 0 <= i < s.len() ==> is_blank_char_spec(#[trigger] s[i])
}

/// The entry that one line of a lyric file gives, as (milliseconds, text):
/// the line is `[m:s]text`, with `m` a run of digits, `s` a seconds field,
/// `text` not blank, and the time within `u64`.
pub open spec fn parse_line_spec(line: Seq<char>) -> Option<(int, Seq<char>)> {
    let p = delims(line);
    if p.len() >= 3 && p[0] == 0 && line[p[1]] == ':' && line[p[2]] == ']' {
        let m = line.subrange(p[0] + 1, p[1]);
        let s = line.subrange(p[1] + 1, p[2]);
        let t = line.skip(p[2] + 1);
        let time = digits_value(m) * 60000 + seconds_ms(s);
        if m.len() > 0 && all_digits(m) && valid_seconds(s) && !is_blank(t) && time
            <= u64::MAX {
            Some((time, t))
        } else {
            None
        }
    } else {
        None
    }
}

/// The pieces of `s` between line feeds: `k` line feeds give `k + 1` pieces.
pub open spec fn pieces(s: Seq<char>) -> Seq<Seq<char>>
    decreases s.len(),
{
    if s.len() == 0 {
        seq![Seq::empty()]
    } else {
        let p = pieces(s.drop_last());
        if s.last() == '\n' {
            p.push(Seq::empty())
        } else {
            p.update(p.len() - 1, p.last().push(s.last()))
        }
    }
}

/// A line without the carriage return that ends it, if any.
pub open spec fn strip_cr(l: Seq<char>) -> Seq<char> {
    if l.len() > 0 && l.last() == '\r' {
        l.drop_last()
    } else {
        l
    }
}

/// The entries that the lines `ls` give, in order; lines that do not parse
/// give none.
pub open spec fn parsed_lines(ls: Seq<Seq<char>>) -> Seq<(int, Seq<char>)>
    decreases ls.len(),
{
    if ls.len() == 0 {
        Seq::empty()
    } else {
        let r = parsed_lines(ls.drop_last());
        match parse_line_spec(strip_cr(ls.last())) {
            Some(e) => r.push(e),
            None => r,
        }
    }
}

/// The entries of a lyric file, in the order of its lines.
pub open spec fn track_spec(s: Seq<char>) -> Seq<(int, Seq<char>)> {
    parsed_lines(pieces(s))
}

/// Entry `i` is the one shown at time `at`: its time has come, no entry with a
/// later time has, and no later entry of the same time.
pub open spec fn is_active(t: Seq<(int, Seq<char>)>, at: int, i: int) -> bool {
    &&& 0 <= i < t.len()
    &&& t[i].0 <= at
    &&& forall|j: int|
        0 <= j < t.len() && #[trigger] t[j].0 <= at ==> t[j].0 < t[i].0 || (t[j].0 == t[i].0
            && j <= i)
}

/// Some entry's time has come at `at`.
pub open spec fn has_started(t: Seq<(int, Seq<char>)>, at: int) -> bool {
    exists|j: int| 0 <= j < t.len() && #[trigger] t[j].0 <= at
}

/// A decorative character, shown as a space.
pub open spec fn is_decorative(c: char) -> bool {
    c == '，' || c == '。'
}

pub open spec fn display_char(c: char) -> char {
    if is_decorative(c) {
        ' '
    } else {
        c
    }
}

/// A text as it is displayed: decorative characters become spaces.
pub open spec fn display_spec(s: Seq<char>) -> Seq<char> {
    s.map_values(|c: char| display_char(c))
}

/// One timed line of lyrics.
#[derive(Clone, Debug)]
pub struct LyricLine {
    pub time_ms: u64,
    pub text: String,
}

impl View for LyricLine {
    type V = (int, Seq<char>);

    open spec fn view(&self) -> (int, Seq<char>) {
        (self.time_ms as int, self.text@)
    }
}

/// The lyrics of one track in one language, in the order of the file.
#[derive(Clone, Debug)]
pub struct LyricTrack {
    pub lines: Vec<LyricLine>,
}

impl View for LyricTrack {
    type V = Seq<(int, Seq<char>)>;

    open spec fn view(&self) -> Seq<(int, Seq<char>)> {
        self.lines@.map_values(|l: LyricLine| l@)
    }
}

pub fn is_delimiter(c: char) -> (r: bool)
    ensures
        r == is_delim_spec(c),
{
    c == '[' || c == ':' || c == ']'
}

pub fn is_blank_char(c: char) -> (r: bool)
    ensures
        r == is_blank_char_spec(c),
{
    ('\t' <= c && c <= '\r') || c == ' ' || c == '\u{85}' || c == '\u{a0}' || c == '\u{1680}'
        || ('\u{2000}' <= c && c <= '\u{200a}') || c == '\u{2028}' || c == '\u{2029}' || c
        == '\u{202f}' || c == '\u{205f}' || c == '\u{3000}'
}

/// Relies on itertools' `Itertools::positions` and `collect_vec`: the indices
/// of the delimiters of `line`, ascending.
#[verifier::external_body]
fn delimiter_positions(line: &[char]) -> (r: Vec<usize>)
    ensures
        r@.map_values(|u: usize| u as int) == delims(line@),
{
    line.iter().positions(|c| is_delimiter(*c)).collect_vec()
}

proof fn lemma_delims_bounds(s: Seq<char>)
    ensures
        forall|k: int| 0 <= k < delims(s).len() ==> 0 <= #[trigger] delims(s)[k] < s.len(),
        forall|a: int, b: int|
            0 <= a < b < delims(s).len() ==> #[trigger] delims(s)[a] < #[trigger] delims(s)[b],
    decreases s.len(),
{
    if s.len() > 0 {
        let t = s.drop_last();
        lemma_delims_bounds(t);
        let d = delims(t);
        if is_delim_spec(s.last()) {
            assert(delims(s) == d.push(s.len() - 1));
            assert forall|k: int| 0 <= k < delims(s).len() implies 0 <= #[trigger] delims(s)[k]
                < s.len() by {
                if k < d.len() {
                    assert(delims(s)[k] == d[k]);
                }
            }
            assert forall|a: int, b: int| 0 <= a < b < delims(s).len() implies #[trigger] delims(
                s,
            )[a] < #[trigger] delims(s)[b] by {
                assert(delims(s)[a] == d[a]);
                if b < d.len() {
                    assert(delims(s)[b] == d[b]);
                }
            }
        } else {
            assert(delims(s) == d);
        }
    }
}

proof fn lemma_digits_nonneg(s: Seq<char>)
    requires
        all_digits(s),
    ensures
        digits_value(s) >= 0,
    decreases s.len(),
{
    if s.len() > 0 {
        assert(is_digit(s[s.len() - 1]));
        lemma_digits_nonneg(s.drop_last());
    }
}

/// A prefix of a run of digits spells no larger a number than the whole run.
proof fn lemma_digits_prefix(s: Seq<char>, i: int)
    requires
        all_digits(s),
        0 <= i <= s.len(),
    ensures
        0 <= digits_value(s.take(i)) <= digits_value(s),
    decreases s.len(),
{
    if i == s.len() {
        assert(s.take(i) =~= s);
        lemma_digits_nonneg(s);
    } else {
        let t = s.drop_last();
        assert(s.take(i) =~= t.take(i));
        lemma_digits_prefix(t, i);
        assert(is_digit(s[s.len() - 1]));
    }
}

/// The number that the digits `s[lo..hi]` spell, if they are all digits and
/// it fits in `u64`.
fn digits_in(s: &[char], lo: usize, hi: usize) -> (r: Option<u64>)
    requires
        lo <= hi <= s@.len(),
    ensures
        match r {
            Some(v) => all_digits(s@.subrange(lo as int, hi as int)) && v == digits_value(
                s@.subrange(lo as int, hi as int),
            ),
            None => !(all_digits(s@.subrange(lo as int, hi as int)) && digits_value(
                s@.subrange(lo as int, hi as int),
            ) <= u64::MAX),
        },
{
    let ghost w = s@.subrange(lo as int, hi as int);
    let mut v: u64 = 0;
    let mut i: usize = lo;
    while i < hi
        invariant
            lo <= i <= hi <= s@.len(),
            w == s@.subrange(lo as int, hi as int),
            all_digits(w.take(i - lo)),
            v == digits_value(w.take(i - lo)),
        decreases hi - i,
    {
        let c = s[i];
        assert(w.take(i - lo + 1).drop_last() =~= w.take(i - lo));
        if !('0' <= c && c <= '9') {
            assert(!is_digit(w[i - lo]));
            return None;
        }
        let d = (c as u32 - '0' as u32) as u64;
        if v > (u64::MAX - d) / 10 {
            proof {
                assert(digits_value(w.take(i - lo + 1)) == v * 10 + d);
                if all_digits(w) {
                    lemma_digits_prefix(w, i - lo + 1);
                }
            }
            return None;
        }
        v = v * 10 + d;
        i = i + 1;
        assert(all_digits(w.take(i - lo)));
    }
    assert(w.take(i - lo) =~= w);
    Some(v)
}

/// Whether `s[lo..hi]` are all digits.
fn all_digits_in(s: &[char], lo: usize, hi: usize) -> (r: bool)
    requires
        lo <= hi <= s@.len(),
    ensures
        r == all_digits(s@.subrange(lo as int, hi as int)),
{
    let ghost w = s@.subrange(lo as int, hi as int);
    let mut i: usize = lo;
    while i < hi
        invariant
            lo <= i <= hi <= s@.len(),
            w == s@.subrange(lo as int, hi as int),
            forall|j: int| lo <= j < i ==> is_digit(#[trigger] s@[j]),
        decreases hi - i,
    {
        if !('0' <= s[i] && s[i] <= '9') {
            assert(w[i - lo] == s@[i as int]);
            return false;
        }
        i = i + 1;
    }
    assert forall|j: int| 0 <= j < w.len() implies is_digit(#[trigger] w[j]) by {
        assert(w[j] == s@[lo + j]);
    }
    true
}

proof fn lemma_dot_split_unique(s: Seq<char>, k1: int, k2: int)
    requires
        is_dot_split(s, k1),
        is_dot_split(s, k2),
    ensures
        k1 == k2,
{
    if k1 < k2 {
        assert(s.skip(k1 + 1)[k2 - k1 - 1] == s[k2]);
    } else if k2 < k1 {
        assert(s.skip(k2 + 1)[k1 - k2 - 1] == s[k1]);
    }
}

/// The milliseconds that the seconds field `s[lo..hi]` spells, if it is a
/// valid field whose value fits in `u64`.
fn seconds_in(s: &[char], lo: usize, hi: usize) -> (r: Option<u64>)
    requires
        lo <= hi <= s@.len(),
    ensures
        match r {
            Some(v) => valid_seconds(s@.subrange(lo as int, hi as int)) && v == seconds_ms(
                s@.subrange(lo as int, hi as int),
            ),
            None => !(valid_seconds(s@.subrange(lo as int, hi as int)) && seconds_ms(
                s@.subrange(lo as int, hi as int),
            ) <= u64::MAX),
        },
{
    let ghost w = s@.subrange(lo as int, hi as int);
    let mut k: usize = lo;
    while k < hi && s[k] != '.'
        invariant
            lo <= k <= hi <= s@.len(),
            w == s@.subrange(lo as int, hi as int),
            forall|j: int| lo <= j < k ==> s@[j] != '.',
        decreases hi - k,
    {
        k = k + 1;
    }
    if k == hi {
        if hi == lo {
            assert forall|k2: int| !is_dot_split(w, k2) by {}
            return None;
        }
        let whole = digits_in(s, lo, hi);
        proof {
            assert forall|k2: int| !is_dot_split(w, k2) by {
                if is_dot_split(w, k2) {
                    assert(w[k2] == s@[lo + k2]);
                }
            }
        }
        match whole {
            Some(v) => {
                if v > u64::MAX / 1000 {
                    assert(v * 1000 > u64::MAX) by (nonlinear_arith)
                        requires
                            v > u64::MAX / 1000,
                    ;
                    return None;
                }
                assert(valid_seconds(w));
                assert(seconds_ms(w) == v * 1000);
                Some(v * 1000)
            },
            None => {
                proof {
                    if all_digits(w) {
                        lemma_digits_nonneg(w);
                    }
                }
                None
            },
        }
    } else {
        let ghost kk = k - lo;
        assert(w[kk] == '.');
        assert(!is_digit(w[kk]));
        assert(w.subrange(0, kk) =~= s@.subrange(lo as int, k as int));
        assert(w.skip(kk + 1) =~= s@.subrange(k + 1, hi as int));
        assert(w.take(kk) =~= s@.subrange(lo as int, k as int));
        if k == lo || k + 1 >= hi {
            assert forall|k2: int| !is_dot_split(w, k2) by {
                if is_dot_split(w, k2) {
                    if k2 != kk {
                        if k2 < kk {
                            assert(w[k2] == s@[lo + k2]);
                        } else {
                            assert(w.take(k2)[kk] == w[kk]);
                        }
                    }
                }
            }
            return None;
        }
        let whole = digits_in(s, lo, k);
        let frac_ok = all_digits_in(s, k + 1, hi);
        match (whole, frac_ok) {
            (Some(wv), true) => {
                proof {
                    assert(is_dot_split(w, kk));
                    assert forall|k2: int| is_dot_split(w, k2) implies k2 == kk by {
                        lemma_dot_split_unique(w, kk, k2);
                    }
                }
                let ghost fs = w.skip(kk + 1);
                assert(fs =~= s@.subrange(k + 1, hi as int));
                proof {
                    assert(is_digit(fs[0]));
                    if fs.len() > 1 {
                        assert(is_digit(fs[1]));
                    }
                    if fs.len() > 2 {
                        assert(is_digit(fs[2]));
                    }
                }
                let d0: u64 = (s[k + 1] as u32 - '0' as u32) as u64;
                let d1: u64 = if hi - k > 2 {
                    (s[k + 2] as u32 - '0' as u32) as u64
                } else {
                    0
                };
                let d2: u64 = if hi - k > 3 {
                    (s[k + 3] as u32 - '0' as u32) as u64
                } else {
                    0
                };
                proof {
                    assert(is_digit(fs[0]));
                    if fs.len() > 1 {
                        assert(is_digit(fs[1]));
                    }
                    if fs.len() > 2 {
                        assert(is_digit(fs[2]));
                    }
                }
                let fm: u64 = d0 * 100 + d1 * 10 + d2;
                proof {
                    assert(fs[0] == s@[k + 1]);
                    if fs.len() > 1 {
                        assert(fs[1] == s@[k + 2]);
                    }
                    if fs.len() > 2 {
                        assert(fs[2] == s@[k + 3]);
                    }
                    assert(frac_ms(fs) == fm);
                    let kc = choose|k2: int| is_dot_split(w, k2);
                    assert(kc == kk);
                }
                if wv > (u64::MAX - fm) / 1000 {
                    assert(wv * 1000 + fm > u64::MAX) by (nonlinear_arith)
                        requires
                            wv > (u64::MAX - fm) / 1000,
                            fm <= u64::MAX,
                    ;
                    return None;
                }
                assert(wv * 1000 + fm <= u64::MAX) by (nonlinear_arith)
                    requires
                        wv <= (u64::MAX - fm) / 1000,
                        fm <= u64::MAX,
                ;
                assert(valid_seconds(w));
                assert(seconds_ms(w) == wv * 1000 + fm);
                Some(wv * 1000 + fm)
            },
            _ => {
                proof {
                    if is_dot_split(w, kk) {
                        lemma_digits_nonneg(w.take(kk));
                        let fs = w.skip(kk + 1);
                        assert(is_digit(fs[0]));
                        if fs.len() > 1 {
                            assert(is_digit(fs[1]));
                        }
                        if fs.len() > 2 {
                            assert(is_digit(fs[2]));
                        }
                        let kc = choose|k2: int| is_dot_split(w, k2);
                        lemma_dot_split_unique(w, kk, kc);
                    }
                    assert forall|k2: int| is_dot_split(w, k2) implies k2 == kk by {
                        if is_dot_split(w, kk) {
                            lemma_dot_split_unique(w, kk, k2);
                        } else if k2 < kk {
                            assert(w[k2] == s@[lo + k2]);
                        } else if k2 > kk {
                            assert(w.take(k2)[kk] == w[kk]);
                        }
                    }
                }
                None
            },
        }
    }
}

/// The entry that one line of a lyric file gives, if it is
/// `[minutes:seconds]text` with a non-blank text.
pub fn parse_line(line: &[char]) -> (r: Option<LyricLine>)
    ensures
        match r {
            Some(l) => parse_line_spec(line@) == Some(l@),
            None => parse_line_spec(line@) is None,
        },
{
    let p = delimiter_positions(line);
    proof {
        lemma_delims_bounds(line@);
        assert(p@.len() == delims(line@).len());
        assert forall|k: int| 0 <= k < p@.len() implies p@[k] as int == delims(line@)[k] by {
            assert(p@.map_values(|u: usize| u as int)[k] == p@[k] as int);
        }
    }
    if p.len() < 3 || p[0] != 0 || p[1] == 1 || line[p[1]] != ':' || line[p[2]] != ']' {
        return None;
    }
    let (p0, p1, p2) = (p[0], p[1], p[2]);
    let ghost l = line@;
    let ghost m = l.subrange(p0 + 1, p1 as int);
    let ghost t = l.skip(p2 + 1);
    let minutes = digits_in(line, p0 + 1, p1);
    let secs = seconds_in(line, p1 + 1, p2);
    let mut blank = true;
    let mut i: usize = p2 + 1;
    while i < line.len()
        invariant
            p2 + 1 <= i <= line@.len(),
            l == line@,
            t == l.skip(p2 + 1),
            blank == (forall|j: int| p2 + 1 <= j < i ==> is_blank_char_spec(#[trigger] l[j])),
        decreases line.len() - i,
    {
        if !is_blank_char(line[i]) {
            blank = false;
        }
        i = i + 1;
    }
    assert(blank == is_blank(t)) by {
        assert forall|j: int| 0 <= j < t.len() implies t[j] == l[j + p2 + 1] by {}
        if !blank {
            let j = choose|j: int| p2 + 1 <= j < i && !is_blank_char_spec(#[trigger] l[j]);
            assert(t[j - p2 - 1] == l[j]);
        }
    }
    if blank {
        return None;
    }
    match (minutes, secs) {
        (Some(mv), Some(sv)) => {
            if mv > (u64::MAX - sv) / 60000 {
                assert(mv * 60000 + sv > u64::MAX) by (nonlinear_arith)
                    requires
                        mv > (u64::MAX - sv) / 60000,
                        sv <= u64::MAX,
                ;
                return None;
            }
            let text = string_from_chars(line, p2 + 1, line.len());
            assert(line@.subrange(p2 + 1, line@.len() as int) =~= t);
            proof {
                let d = delims(l);
                assert(d[0] == p0 as int && d[1] == p1 as int && d[2] == p2 as int);
                assert(mv * 60000 + sv <= u64::MAX) by (nonlinear_arith)
                    requires
                        mv <= (u64::MAX - sv) / 60000,
                        sv <= u64::MAX,
                ;
                assert(parse_line_spec(l) == Some(((mv * 60000 + sv) as int, t)));
            }
            Some(LyricLine { time_ms: mv * 60000 + sv, text })
        },
        _ => {
            proof {
                if all_digits(m) {
                    lemma_digits_nonneg(m);
                }
                if valid_seconds(l.subrange(p1 + 1, p2 as int)) {
                    let s = l.subrange(p1 + 1, p2 as int);
                    if all_digits(s) {
                        lemma_digits_nonneg(s);
                    } else {
                        let k = choose|k: int| is_dot_split(s, k);
                        lemma_digits_nonneg(s.take(k));
                        assert(is_digit(s.skip(k + 1)[0]));
                        if s.skip(k + 1).len() > 1 {
                            assert(is_digit(s.skip(k + 1)[1]));
                        }
                        if s.skip(k + 1).len() > 2 {
                            assert(is_digit(s.skip(k + 1)[2]));
                        }
                    }
                }
            }
            None
        },
    }
}

impl LyricTrack {
    /// Parses a lyric file: one entry for each line that parses, in the order
    /// of the lines. Lines end at a line feed; a carriage return before it is
    /// dropped.
    pub fn parse(contents: &str) -> (r: LyricTrack)
        ensures
            r@ == track_spec(contents@),
    {
        let cs = chars_of(contents);
        let mut lines: Vec<LyricLine> = Vec::new();
        let mut cur: Vec<char> = Vec::new();
        let ghost done: Seq<Seq<char>> = Seq::empty();
        let mut i: usize = 0;
        while i < cs.len()
            invariant
                i <= cs@.len(),
                cs@ == contents@,
                pieces(cs@.take(i as int)) == done.push(cur@),
                lines@.map_values(|l: LyricLine| l@) == parsed_lines(done),
            decreases cs.len() - i,
        {
            let c = cs[i];
            let ghost before = cs@.take(i as int);
            assert(cs@.take(i + 1).drop_last() =~= before);
            if c == '\n' {
                Self::push_parsed(&mut lines, &cur);
                proof {
                    assert(done.push(cur@).drop_last() =~= done);
                    done = done.push(cur@);
                }
                cur = Vec::new();
            } else {
                let ghost old_cur = cur@;
                cur.push(c);
                proof {
                    let p = done.push(old_cur);
                    assert(p.last() == old_cur);
                    assert(p.update(p.len() - 1, p.last().push(c)) =~= done.push(cur@));
                }
            }
            i = i + 1;
        }
        Self::push_parsed(&mut lines, &cur);
        proof {
            assert(cs@.take(i as int) =~= cs@);
            assert(done.push(cur@).drop_last() =~= done);
        }
        LyricTrack { lines }
    }

    /// Appends the entry that `line` gives, if any.
    fn push_parsed(lines: &mut Vec<LyricLine>, line: &Vec<char>)
        ensures
            final(lines)@.map_values(|l: LyricLine| l@) == match parse_line_spec(
                strip_cr(line@),
            ) {
                Some(e) => old(lines)@.map_values(|l: LyricLine| l@).push(e),
                None => old(lines)@.map_values(|l: LyricLine| l@),
            },
    {
        let n = line.len();
        let parsed = if n > 0 && line[n - 1] == '\r' {
            let trimmed = Self::prefix(line, n - 1);
            assert(trimmed@ =~= strip_cr(line@));
            parse_line(trimmed.as_slice())
        } else {
            parse_line(line.as_slice())
        };
        match parsed {
            Some(l) => {
                lines.push(l);
                assert(lines@.map_values(|l: LyricLine| l@) =~= old(lines)@.map_values(
                    |l: LyricLine| l@,
                ).push(l@));
            },
            None => {},
        }
    }

    fn prefix(v: &Vec<char>, n: usize) -> (r: Vec<char>)
        requires
            n <= v@.len(),
        ensures
            r@ == v@.take(n as int),
    {
        let mut r: Vec<char> = Vec::new();
        let mut i: usize = 0;
        while i < n
            invariant
                i <= n <= v@.len(),
                r@ == v@.take(i as int),
            decreases n - i,
        {
            r.push(v[i]);
            i = i + 1;
            assert(r@ =~= v@.take(i as int));
        }
        r
    }

    /// The index of the entry shown at `at_ms`: of the entries whose time has
    /// come, the one with the latest time, and of those the last in the file.
    pub fn active_index(&self, at_ms: u64) -> (r: Option<usize>)
        ensures
            match r {
                Some(i) => is_active(self@, at_ms as int, i as int),
                None => !has_started(self@, at_ms as int),
            },
    {
        let ghost t = self@;
        let mut best: Option<usize> = None;
        let mut i: usize = 0;
        while i < self.lines.len()
            invariant
                i <= self.lines@.len(),
                t == self@,
                t.len() == self.lines@.len(),
                match best {
                    Some(b) => is_active(t.take(i as int), at_ms as int, b as int),
                    None => !has_started(t.take(i as int), at_ms as int),
                },
            decreases self.lines.len() - i,
        {
            let ti = self.lines[i].time_ms;
            assert(t[i as int].0 == ti);
            let ghost pre = t.take(i as int);
            let ghost next = t.take(i + 1);
            assert(forall|j: int| 0 <= j < i ==> next[j] == pre[j]);
            assert(next[i as int] == t[i as int]);
            if ti <= at_ms {
                let better = match best {
                    Some(b) => ti >= self.lines[b].time_ms,
                    None => true,
                };
                if better {
                    best = Some(i);
                }
            }
            i = i + 1;
            proof {
                match best {
                    Some(b) => {
                        assert forall|j: int|
                            0 <= j < next.len() && #[trigger] next[j].0 <= at_ms implies next[j].0
                            < next[b as int].0 || (next[j].0 == next[b as int].0 && j <= b) by {
                            if j < i - 1 {
                                assert(pre[j] == next[j]);
                            }
                        }
                    },
                    None => {
                        assert forall|j: int| 0 <= j < next.len() implies !(#[trigger] next[j].0
                            <= at_ms) by {
                            if j < i - 1 {
                                assert(pre[j] == next[j]);
                            }
                        }
                    },
                }
            }
        }
        assert(t.take(i as int) =~= t);
        best
    }

    /// The text of the entry shown at `at_ms`, if any entry's time has come.
    pub fn active_line(&self, at_ms: u64) -> (r: Option<String>)
        ensures
            match r {
                Some(s) => exists|i: int| is_active(self@, at_ms as int, i) && s@ == self@[i].1,
                None => !has_started(self@, at_ms as int),
            },
    {
        match self.active_index(at_ms) {
            Some(i) => {
                let s = self.lines[i].text.clone();
                assert(self@[i as int].1 == self.lines@[i as int].text@);
                Some(s)
            },
            None => None,
        }
    }
}

/// Entry `i` is the one shown at time `at`: `is_active` picks one entry.
pub proof fn lemma_active_unique(t: Seq<(int, Seq<char>)>, at: int, i: int, k: int)
    requires
        is_active(t, at, i),
        is_active(t, at, k),
    ensures
        i == k,
{
    assert(t[k].0 <= at);
    assert(t[i].0 <= at);
}

/// Lookup is monotonic in time: a later position never shows an entry with an
/// earlier timestamp.
pub proof fn lemma_active_monotonic(t: Seq<(int, Seq<char>)>, t1: int, t2: int, i1: int, i2: int)
    requires
        t1 < t2,
        is_active(t, t1, i1),
        is_active(t, t2, i2),
    ensures
        t[i2].0 >= t[i1].0,
{
    assert(t[i1].0 <= t2);
}

/// Once the first entry's time has come, some entry is shown.
pub proof fn lemma_started(t: Seq<(int, Seq<char>)>, at: int)
    requires
        t.len() > 0,
        t[0].0 <= at,
    ensures
        has_started(t, at),
{
}

/// Round trip: in the entries parsed from a file, looking up the exact time of
/// an entry shows that entry, unless a later entry has the same time; then the
/// last entry of that time is shown.
pub proof fn lemma_parse_lookup_round_trip(contents: Seq<char>, i: int, k: int)
    requires
        0 <= i < track_spec(contents).len(),
        is_active(track_spec(contents), track_spec(contents)[i].0, k),
    ensures
        track_spec(contents)[k].0 == track_spec(contents)[i].0,
        k >= i,
        forall|j: int|
            k < j < track_spec(contents).len() ==> #[trigger] track_spec(contents)[j].0
                != track_spec(contents)[i].0,
        (forall|j: int|
            i < j < track_spec(contents).len() ==> #[trigger] track_spec(contents)[j].0
                != track_spec(contents)[i].0) ==> k == i,
{
    let t = track_spec(contents);
    assert(t[i].0 <= t[i].0);
    assert forall|j: int| k < j < t.len() implies #[trigger] t[j].0 != t[i].0 by {
        if t[j].0 == t[i].0 {
            assert(t[j].0 <= t[i].0);
        }
    }
}

/// The text as displayed: decorative characters become spaces.
pub fn display_text(text: &String) -> (r: String)
    ensures
        r@ == display_spec(text@),
{
    let cs = chars_of(text.as_str());
    let mut out: Vec<char> = Vec::new();
    let mut i: usize = 0;
    while i < cs.len()
        invariant
            i <= cs@.len(),
            cs@ == text@,
            out@ == display_spec(cs@.take(i as int)),
        decreases cs.len() - i,
    {
        let c = cs[i];
        let d = if c == '，' || c == '。' {
            ' '
        } else {
            c
        };
        out.push(d);
        i = i + 1;
        assert(out@ =~= display_spec(cs@.take(i as int)));
    }
    assert(cs@.take(i as int) =~= cs@);
    string_from_chars(out.as_slice(), 0, out.len())
}

/// The lyric shown at `at_ms`, as displayed, if any entry's time has come.
pub fn get_lyrics(track: &LyricTrack, at_ms: u64) -> (r: Option<String>)
    ensures
        match r {
            Some(s) => exists|i: int|
                is_active(track@, at_ms as int, i) && s@ == display_spec(track@[i].1),
            None => !has_started(track@, at_ms as int),
        },
{
    match track.active_line(at_ms) {
        Some(s) => Some(display_text(&s)),
        None => None,
    }
}

} // verus!
