//! Progress metrics read from the converter's diagnostic lines.
use crate::decimal::{
    Decimal, MANTISSA_LIMIT, MAX_SCALE, decimal_in, decimal_of, in_range, lemma_decimal_in_range,
    pow10, pow10_exec,
};
use crate::text::{chars_of, trim, trim_bounds, split_words, words};
use vstd::prelude::*;

verus! {

/// Metrics recognised on one progress line.
#[derive(Debug, Clone, Copy, PartialEq, Eq)]
pub struct ProgressMetrics {
    /// Seconds of media processed so far.
    pub processed_seconds: Option<Decimal>,
    /// Frames encoded per second.
    pub fps: Option<Decimal>,
    /// Processing speed as a multiple of real time.
    pub speed: Option<Decimal>,
}

/// The pieces of `s` between occurrences of `sep`, given the piece `cur` read so far.
pub open spec fn pieces_from(s: Seq<char>, sep: char, cur: Seq<char>) -> Seq<Seq<char>>
    decreases s.len(),
{
    if s.len() == 0 {
        seq![cur]
    } else if s[0] == sep {
        seq![cur] + pieces_from(s.drop_first(), sep, seq![])
    } else {
        pieces_from(s.drop_first(), sep, cur.push(s[0]))
    }
}

/// The pieces of `s` between occurrences of `sep`, as `str::split` yields them.
pub open spec fn split_on(s: Seq<char>, sep: char) -> Seq<Seq<char>> {
    pieces_from(s, sep, seq![])
}

pub open spec fn max_scale(a: u32, b: u32) -> u32 {
    if a >= b {
        a
    } else {
        b
    }
}

/// `d` written with `scale` digits after the point.
pub open spec fn scaled(d: Decimal, scale: u32) -> int {
    d.mantissa * pow10((scale - d.scale) as nat)
}

/// `hours * 3600 + minutes * 60 + seconds`, exactly, at the finest of the three scales.
pub open spec fn hms_total(h: Decimal, m: Decimal, s: Decimal) -> Decimal {
    let sc = max_scale(max_scale(h.scale, m.scale), s.scale);
    Decimal {
        mantissa: (3600 * scaled(h, sc) + 60 * scaled(m, sc) + scaled(s, sc)) as i128,
        scale: sc,
    }
}

/// A timecode: `HH:MM:SS[.fff]` when there are exactly three `:`-separated
/// pieces, each a decimal; otherwise the whole text as bare seconds. Empty text
/// is no timecode.
pub open spec fn timecode_of(s: Seq<char>) -> Option<Decimal> {
    let p = split_on(s, ':');
    if s.len() == 0 {
        None
    } else if p.len() != 3 {
        decimal_of(s)
    } else {
        match (decimal_of(p[0]), decimal_of(p[1]), decimal_of(p[2])) {
            (Some(h), Some(m), Some(x)) => Some(hms_total(h, m, x)),
            _ => None,
        }
    }
}

pub open spec fn starts_with(s: Seq<char>, p: Seq<char>) -> bool {
    p.len() <= s.len() && s.subrange(0, p.len() as int) == p
}

/// What follows the prefix `p` in `s`.
pub open spec fn after_prefix(s: Seq<char>, p: Seq<char>) -> Seq<char> {
    s.subrange(p.len() as int, s.len() as int)
}

/// `s` without its trailing `'x'` characters.
pub open spec fn strip_x_end(s: Seq<char>) -> Seq<char>
    decreases s.len(),
{
    if s.len() > 0 && s.last() == 'x' {
        strip_x_end(s.drop_last())
    } else {
        s
    }
}

/// A speed value such as `1.5x`.
pub open spec fn speed_of(v: Seq<char>) -> Option<Decimal> {
    decimal_of(trim(strip_x_end(v)))
}

pub open spec fn time_key() -> Seq<char> {
    seq!['t', 'i', 'm', 'e', '=']
}

pub open spec fn out_time_key() -> Seq<char> {
    seq!['o', 'u', 't', '_', 't', 'i', 'm', 'e', '=']
}

pub open spec fn fps_key() -> Seq<char> {
    seq!['f', 'p', 's', '=']
}

pub open spec fn speed_key() -> Seq<char> {
    seq!['s', 'p', 'e', 'e', 'd', '=']
}

pub open spec fn no_metrics() -> ProgressMetrics {
    ProgressMetrics { processed_seconds: None, fps: None, speed: None }
}

/// The metrics after reading one token of a multi-field line.
pub open spec fn apply_token(acc: ProgressMetrics, tok: Seq<char>) -> ProgressMetrics {
    if starts_with(tok, time_key()) {
        ProgressMetrics {
            processed_seconds: timecode_of(after_prefix(tok, time_key())),
            fps: acc.fps,
            speed: acc.speed,
        }
    } else if starts_with(tok, out_time_key()) {
        ProgressMetrics {
            processed_seconds: timecode_of(after_prefix(tok, out_time_key())),
            fps: acc.fps,
            speed: acc.speed,
        }
    } else if starts_with(tok, fps_key()) {
        ProgressMetrics {
            processed_seconds: acc.processed_seconds,
            fps: decimal_of(after_prefix(tok, fps_key())),
            speed: acc.speed,
        }
    } else if starts_with(tok, speed_key()) {
        ProgressMetrics {
            processed_seconds: acc.processed_seconds,
            fps: acc.fps,
            speed: speed_of(after_prefix(tok, speed_key())),
        }
    } else {
        acc
    }
}

/// The metrics after reading the tokens in order: later ones overwrite earlier ones.
pub open spec fn apply_tokens(acc: ProgressMetrics, toks: Seq<Seq<char>>) -> ProgressMetrics
    decreases toks.len(),
{
    if toks.len() == 0 {
        acc
    } else {
        apply_tokens(apply_token(acc, toks[0]), toks.drop_first())
    }
}

/// The metrics read from a trimmed, non-empty line: a line that is a single
/// `out_time=`, `fps=` or `speed=` field whose value reads as one; any other
/// line token by token.
pub open spec fn line_metrics(t: Seq<char>) -> ProgressMetrics {
    if starts_with(t, out_time_key()) && timecode_of(after_prefix(t, out_time_key())) is Some {
        ProgressMetrics {
            processed_seconds: timecode_of(after_prefix(t, out_time_key())),
            fps: None,
            speed: None,
        }
    } else if starts_with(t, fps_key()) && decimal_of(after_prefix(t, fps_key())) is Some {
        ProgressMetrics { processed_seconds: None, fps: decimal_of(after_prefix(t, fps_key())), speed: None }
    } else if starts_with(t, speed_key()) && speed_of(after_prefix(t, speed_key())) is Some {
        ProgressMetrics {
            processed_seconds: None,
            fps: None,
            speed: speed_of(after_prefix(t, speed_key())),
        }
    } else {
        apply_tokens(no_metrics(), words(t))
    }
}

/// The progress of a diagnostic line: `None` where no metric is recognised.
pub open spec fn progress_of(line: Seq<char>) -> Option<ProgressMetrics> {
    let t = trim(line);
    let m = line_metrics(t);
    if t.len() == 0 || (m.processed_seconds is None && m.fps is None && m.speed is None) {
        None
    } else {
        Some(m)
    }
}

/// The pieces of `v[lo..hi]` between occurrences of `sep`.
fn split_pieces(v: &Vec<char>, lo: usize, hi: usize, sep: char) -> (r: Vec<Vec<char>>)
    requires
        lo <= hi <= v@.len(),
    ensures
        r@.len() == split_on(v@.subrange(lo as int, hi as int), sep).len(),
        forall|k: int|
            0 <= k < r@.len() ==> #[trigger] r@[k]@ == split_on(
                v@.subrange(lo as int, hi as int),
                sep,
            )[k],
{
    let ghost s = v@.subrange(lo as int, hi as int);
    let mut out: Vec<Vec<char>> = Vec::new();
    let mut cur: Vec<char> = Vec::new();
    let ghost acc: Seq<Seq<char>> = seq![];
    let mut i: usize = lo;
    while i < hi
        invariant
            lo <= i <= hi <= v@.len(),
            s == v@.subrange(lo as int, hi as int),
            out@.len() == acc.len(),
            forall|k: int| 0 <= k < out@.len() ==> #[trigger] out@[k]@ == acc[k],
            split_on(s, sep) == acc + pieces_from(v@.subrange(i as int, hi as int), sep, cur@),
        decreases hi - i,
    {
        let ghost rest = v@.subrange(i as int, hi as int);
        assert(rest.drop_first() =~= v@.subrange(i + 1, hi as int));
        let c = v[i];
        if c == sep {
            proof {
                assert(acc + (seq![cur@] + pieces_from(rest.drop_first(), sep, seq![])) =~= (
                acc.push(cur@)) + pieces_from(rest.drop_first(), sep, seq![]));
                acc = acc.push(cur@);
            }
            out.push(cur);
            cur = Vec::new();
            assert(cur@ =~= seq![]);
        } else {
            cur.push(c);
        }
        i = i + 1;
    }
    proof {
        assert(v@.subrange(i as int, hi as int) =~= Seq::<char>::empty());
        assert(acc + seq![cur@] =~= acc.push(cur@));
        acc = acc.push(cur@);
    }
    out.push(cur);
    out
}

/// `h * 3600 + m * 60 + s`, exactly.
fn hms_sum(h: Decimal, m: Decimal, s: Decimal) -> (r: Decimal)
    requires
        in_range(h),
        in_range(m),
        in_range(s),
    ensures
        r == hms_total(h, m, s),
{
    let sc1 = if h.scale >= m.scale { h.scale } else { m.scale };
    let sc = if sc1 >= s.scale { sc1 } else { s.scale };
    let ph = pow10_exec(sc - h.scale);
    let pm = pow10_exec(sc - m.scale);
    let ps = pow10_exec(sc - s.scale);
    let ghost lim: int = MANTISSA_LIMIT as int;
    assert(-lim * 1_000_000_000_000_000 <= h.mantissa * ph <= lim * 1_000_000_000_000_000)
        by (nonlinear_arith)
        requires
            -lim < h.mantissa < lim,
            1 <= ph <= 1_000_000_000_000_000,
            lim == 1_000_000_000_000_000,
    ;
    assert(-lim * 1_000_000_000_000_000 <= m.mantissa * pm <= lim * 1_000_000_000_000_000)
        by (nonlinear_arith)
        requires
            -lim < m.mantissa < lim,
            1 <= pm <= 1_000_000_000_000_000,
            lim == 1_000_000_000_000_000,
    ;
    assert(-lim * 1_000_000_000_000_000 <= s.mantissa * ps <= lim * 1_000_000_000_000_000)
        by (nonlinear_arith)
        requires
            -lim < s.mantissa < lim,
            1 <= ps <= 1_000_000_000_000_000,
            lim == 1_000_000_000_000_000,
    ;
    let total = 3600 * (h.mantissa * ph) + 60 * (m.mantissa * pm) + s.mantissa * ps;
    Decimal { mantissa: total, scale: sc }
}

/// Reads `v[lo..hi]` as a timecode.
fn timecode_in(v: &Vec<char>, lo: usize, hi: usize) -> (r: Option<Decimal>)
    requires
        lo <= hi <= v@.len(),
    ensures
        r == timecode_of(v@.subrange(lo as int, hi as int)),
{
    if lo == hi {
        return None;
    }
    let pieces = split_pieces(v, lo, hi, ':');
    if pieces.len() != 3 {
        return decimal_in(v, lo, hi);
    }
    proof {
        assert(pieces@[0]@.subrange(0, pieces@[0]@.len() as int) =~= pieces@[0]@);
        assert(pieces@[1]@.subrange(0, pieces@[1]@.len() as int) =~= pieces@[1]@);
        assert(pieces@[2]@.subrange(0, pieces@[2]@.len() as int) =~= pieces@[2]@);
    }
    let h = decimal_in(&pieces[0], 0, pieces[0].len());
    let m = decimal_in(&pieces[1], 0, pieces[1].len());
    let s = decimal_in(&pieces[2], 0, pieces[2].len());
    match (h, m, s) {
        (Some(h), Some(m), Some(s)) => {
            proof {
                lemma_decimal_in_range(pieces@[0]@);
                lemma_decimal_in_range(pieces@[1]@);
                lemma_decimal_in_range(pieces@[2]@);
            }
            Some(hms_sum(h, m, s))
        },
        _ => None,
    }
}

/// Reads a timecode: `"HH:MM:SS[.fff]"` gives `hours * 3600 + minutes * 60 +
/// seconds`; other non-empty text is read as bare seconds; empty text is `None`.
pub fn parse_timecode(value: &str) -> (r: Option<Decimal>)
    ensures
        r == timecode_of(value@),
{
    let v = chars_of(value);
    assert(v@.subrange(0, v@.len() as int) =~= v@);
    timecode_in(&v, 0, v.len())
}

/// Whether `v[lo..hi]` begins with `key`.
fn has_prefix(v: &Vec<char>, lo: usize, hi: usize, key: &[char]) -> (r: bool)
    requires
        lo <= hi <= v@.len(),
    ensures
        r == starts_with(v@.subrange(lo as int, hi as int), key@),
{
    if key.len() > hi - lo {
        return false;
    }
    let ghost s = v@.subrange(lo as int, hi as int);
    let mut k: usize = 0;
    while k < key.len()
        invariant
            k <= key@.len() <= hi - lo,
            lo <= hi <= v@.len(),
            s == v@.subrange(lo as int, hi as int),
            forall|j: int| 0 <= j < k ==> v@[lo + j] == key@[j],
        decreases key@.len() - k,
    {
        if v[lo + k] != key[k] {
            assert(s.subrange(0, key@.len() as int)[k as int] == v@[lo + k]);
            return false;
        }
        k = k + 1;
    }
    assert(s.subrange(0, key@.len() as int) =~= key@);
    true
}

/// The end of `v[lo..hi]` once trailing `'x'` characters are dropped.
fn strip_x_end_in(v: &Vec<char>, lo: usize, hi: usize) -> (r: usize)
    requires
        lo <= hi <= v@.len(),
    ensures
        lo <= r <= hi,
        v@.subrange(lo as int, r as int) == strip_x_end(v@.subrange(lo as int, hi as int)),
{
    let mut j: usize = hi;
    while j > lo && v[j - 1] == 'x'
        invariant
            lo <= j <= hi <= v@.len(),
            strip_x_end(v@.subrange(lo as int, hi as int)) == strip_x_end(
                v@.subrange(lo as int, j as int),
            ),
        decreases j - lo,
    {
        assert(v@.subrange(lo as int, j as int).drop_last() =~= v@.subrange(
            lo as int,
            j - 1,
        ));
        j = j - 1;
    }
    j
}

/// Reads `v[lo..hi]` as a speed such as `1.5x`.
fn speed_in(v: &Vec<char>, lo: usize, hi: usize) -> (r: Option<Decimal>)
    requires
        lo <= hi <= v@.len(),
    ensures
        r == speed_of(v@.subrange(lo as int, hi as int)),
{
    let j = strip_x_end_in(v, lo, hi);
    let (a, b) = trim_bounds(v, lo, j);
    decimal_in(v, a, b)
}

/// The metrics after reading the token `tok`.
fn read_token(acc: ProgressMetrics, tok: &Vec<char>) -> (r: ProgressMetrics)
    ensures
        r == apply_token(acc, tok@),
{
    let time: [char; 5] = ['t', 'i', 'm', 'e', '='];
    let out_time: [char; 9] = ['o', 'u', 't', '_', 't', 'i', 'm', 'e', '='];
    let fps: [char; 4] = ['f', 'p', 's', '='];
    let speed: [char; 6] = ['s', 'p', 'e', 'e', 'd', '='];
    assert(time@ =~= time_key());
    assert(out_time@ =~= out_time_key());
    assert(fps@ =~= fps_key());
    assert(speed@ =~= speed_key());
    let n = tok.len();
    assert(tok@.subrange(0, n as int) =~= tok@);
    if has_prefix(tok, 0, n, &time) {
        ProgressMetrics { processed_seconds: timecode_in(tok, 5, n), fps: acc.fps, speed: acc.speed }
    } else if has_prefix(tok, 0, n, &out_time) {
        ProgressMetrics { processed_seconds: timecode_in(tok, 9, n), fps: acc.fps, speed: acc.speed }
    } else if has_prefix(tok, 0, n, &fps) {
        ProgressMetrics {
            processed_seconds: acc.processed_seconds,
            fps: decimal_in(tok, 4, n),
            speed: acc.speed,
        }
    } else if has_prefix(tok, 0, n, &speed) {
        ProgressMetrics {
            processed_seconds: acc.processed_seconds,
            fps: acc.fps,
            speed: speed_in(tok, 6, n),
        }
    } else {
        acc
    }
}

/// The metrics of the tokens of `v[a..b]`, read in order.
fn read_tokens(v: &Vec<char>, a: usize, b: usize) -> (r: ProgressMetrics)
    requires
        a <= b <= v@.len(),
    ensures
        r == apply_tokens(no_metrics(), words(v@.subrange(a as int, b as int))),
{
    let toks = split_words(v, a, b);
    let ghost ws = words(v@.subrange(a as int, b as int));
    let mut acc = ProgressMetrics { processed_seconds: None, fps: None, speed: None };
    let mut i: usize = 0;
    assert(ws.subrange(0, ws.len() as int) =~= ws);
    while i < toks.len()
        invariant
            i <= toks@.len() == ws.len(),
            forall|k: int| 0 <= k < toks@.len() ==> #[trigger] toks@[k]@ == ws[k],
            apply_tokens(no_metrics(), ws) == apply_tokens(
                acc,
                ws.subrange(i as int, ws.len() as int),
            ),
        decreases toks@.len() - i,
    {
        assert(ws.subrange(i as int, ws.len() as int).drop_first() =~= ws.subrange(
            i + 1,
            ws.len() as int,
        ));
        acc = read_token(acc, &toks[i]);
        i = i + 1;
    }
    assert(ws.subrange(i as int, ws.len() as int) =~= Seq::<Seq<char>>::empty());
    acc
}

/// Reads the progress metrics of one diagnostic line. A line that is a single
/// `out_time=`, `fps=` or `speed=` field with a readable value gives that field;
/// any other line is read token by token, later tokens overwriting earlier
/// ones of the same kind.
/// `None` where the line is blank or no metric is recognised.
pub fn parse_progress_line(line: &str) -> (r: Option<ProgressMetrics>)
    ensures
        r == progress_of(line@),
{
    let v = chars_of(line);
    assert(v@.subrange(0, v@.len() as int) =~= v@);
    let (a, b) = trim_bounds(&v, 0, v.len());
    let ghost t = v@.subrange(a as int, b as int);
    if a == b {
        return None;
    }
    let out_time: [char; 9] = ['o', 'u', 't', '_', 't', 'i', 'm', 'e', '='];
    let fps: [char; 4] = ['f', 'p', 's', '='];
    let speed: [char; 6] = ['s', 'p', 'e', 'e', 'd', '='];
    assert(out_time@ =~= out_time_key());
    assert(fps@ =~= fps_key());
    assert(speed@ =~= speed_key());
    let single = if has_prefix(&v, a, b, &out_time) {
        assert(after_prefix(t, out_time_key()) =~= v@.subrange(a + 9, b as int));
        match timecode_in(&v, a + 9, b) {
            Some(x) => Some(ProgressMetrics { processed_seconds: Some(x), fps: None, speed: None }),
            None => None,
        }
    } else {
        None
    };
    let single = if single.is_none() && has_prefix(&v, a, b, &fps) {
        assert(after_prefix(t, fps_key()) =~= v@.subrange(a + 4, b as int));
        match decimal_in(&v, a + 4, b) {
            Some(x) => Some(ProgressMetrics { processed_seconds: None, fps: Some(x), speed: None }),
            None => None,
        }
    } else {
        single
    };
    let single = if single.is_none() && has_prefix(&v, a, b, &speed) {
        assert(after_prefix(t, speed_key()) =~= v@.subrange(a + 6, b as int));
        match speed_in(&v, a + 6, b) {
            Some(x) => Some(ProgressMetrics { processed_seconds: None, fps: None, speed: Some(x) }),
            None => None,
        }
    } else {
        single
    };
    let m = match single {
        Some(m) => m,
        None => read_tokens(&v, a, b),
    };
    if m.processed_seconds.is_none() && m.fps.is_none() && m.speed.is_none() {
        None
    } else {
        Some(m)
    }
}

} // verus!
