//! The converter's capabilities, read from the listings it prints for
//! `-encoders`, `-formats` and `-filters`.
use crate::sorted::{insert_sorted, strictly_sorted, texts_of};
use crate::validator::texts;
use crate::text::{
    chars_of, copy_range, lines, lines_from, skip_white, split_words, string_of, trim_start, words,
};
use vstd::prelude::*;

verus! {

/// What the converter offers.
#[derive(Debug, Clone)]
pub struct CapabilitySnapshot {
    pub video_encoders: Vec<String>,
    pub audio_encoders: Vec<String>,
    pub formats: Vec<String>,
    pub filters: Vec<String>,
}

/// The length of `c` in UTF-8.
pub open spec fn char_bytes(c: char) -> nat {
    let u = c as u32;
    if u < 0x80 {
        1
    } else if u < 0x800 {
        2
    } else if u < 0x10000 {
        3
    } else {
        4
    }
}

/// The length of `s` in UTF-8.
pub open spec fn byte_len(s: Seq<char>) -> nat
    decreases s.len(),
{
    if s.len() == 0 {
        0
    } else {
        char_bytes(s[0]) + byte_len(s.drop_first())
    }
}

/// How many characters the first `n` bytes of `s` hold, where byte `n` starts
/// a character (or ends the text).
pub open spec fn chars_in_bytes(s: Seq<char>, n: nat) -> Option<nat>
    decreases s.len(),
{
    if n == 0 {
        Some(0)
    } else if s.len() == 0 || char_bytes(s[0]) > n {
        None
    } else {
        match chars_in_bytes(s.drop_first(), (n - char_bytes(s[0])) as nat) {
            Some(k) => Some(k + 1),
            None => None,
        }
    }
}

/// The first word of `s`, empty when there is none.
pub open spec fn first_word(s: Seq<char>) -> Seq<char> {
    if words(s).len() > 0 {
        words(s)[0]
    } else {
        seq![]
    }
}

/// The flag column and the name of a listing line whose flags take `width`
/// bytes after the leading whitespace, and which is at least `min_len`
/// bytes long; a line whose flag column would end inside a character is
/// skipped.
pub open spec fn flagged_entry(line: Seq<char>, width: nat, min_len: nat) -> Option<(Seq<char>, Seq<char>)> {
    let t = trim_start(line);
    if byte_len(t) < min_len {
        None
    } else {
        match chars_in_bytes(t, width) {
            None => None,
            Some(k) => {
                let name = first_word(t.subrange(k as int, t.len() as int));
                if name.len() == 0 {
                    None
                } else {
                    Some((t.subrange(0, k as int), name))
                }
            },
        }
    }
}

/// The encoder named on a line of the `-encoders` listing whose flags start with `kind`.
pub open spec fn encoder_of(line: Seq<char>, kind: char) -> Option<Seq<char>> {
    match flagged_entry(line, 7, 8) {
        Some((flags, name)) => if flags.len() > 0 && flags[0] == kind {
            Some(name)
        } else {
            None
        },
        None => None,
    }
}

/// The format named on a line of the `-formats` listing that can be read or written.
pub open spec fn format_of(line: Seq<char>) -> Option<Seq<char>> {
    match flagged_entry(line, 3, 3) {
        Some((flags, name)) => if flags.contains('D') || flags.contains('E') {
            Some(name)
        } else {
            None
        },
        None => None,
    }
}

/// The filter named on a line of the `-filters` listing; names starting with
/// `*` are unavailable.
pub open spec fn filter_of(line: Seq<char>) -> Option<Seq<char>> {
    let t = trim_start(line);
    let name = first_word(t);
    if byte_len(t) < 2 || name.len() == 0 || name[0] == '*' {
        None
    } else {
        Some(name)
    }
}

/// Which listing a line belongs to, and so how it is read.
#[derive(Clone, Copy)]
pub enum Listing {
    Encoders(char),
    Formats,
    Filters,
}

pub open spec fn entry_of(listing: Listing, line: Seq<char>) -> Option<Seq<char>> {
    match listing {
        Listing::Encoders(kind) => encoder_of(line, kind),
        Listing::Formats => format_of(line),
        Listing::Filters => filter_of(line),
    }
}

/// The names that the lines of `output` yield, without repetition.
pub open spec fn names_in(listing: Listing, output: Seq<char>, n: Seq<char>) -> bool {
    exists|i: int| 0 <= i < lines(output).len() && entry_of(listing, #[trigger] lines(output)[i]) == Some(n)
}

/// The lines of `v`, as `str::lines` yields them.
fn split_lines(v: &Vec<char>) -> (r: Vec<Vec<char>>)
    ensures
        r@.len() == lines(v@).len(),
        forall|k: int| 0 <= k < r@.len() ==> #[trigger] r@[k]@ == lines(v@)[k],
{
    let mut out: Vec<Vec<char>> = Vec::new();
    let mut cur: Vec<char> = Vec::new();
    let ghost acc: Seq<Seq<char>> = seq![];
    let mut i: usize = 0;
    assert(v@.subrange(0, v@.len() as int) =~= v@);
    while i < v.len()
        invariant
            i <= v@.len(),
            out@.len() == acc.len(),
            forall|k: int| 0 <= k < out@.len() ==> #[trigger] out@[k]@ == acc[k],
            lines(v@) == acc + lines_from(v@.subrange(i as int, v@.len() as int), cur@),
        decreases v@.len() - i,
    {
        let ghost rest = v@.subrange(i as int, v@.len() as int);
        assert(rest.drop_first() =~= v@.subrange(i + 1, v@.len() as int));
        let c = v[i];
        if c == '\n' {
            let n = cur.len();
            if n > 0 && cur[n - 1] == '\r' {
                cur.pop();
            }
            proof {
                assert(acc + (seq![cur@] + lines_from(rest.drop_first(), seq![])) =~= acc.push(cur@)
                    + lines_from(rest.drop_first(), seq![]));
                acc = acc.push(cur@);
            }
            out.push(cur);
            cur = Vec::new();
            assert(cur@ =~= seq![]);
        } else {
            cur.push(c);
        }
        i = i + 1;
    }
    assert(v@.subrange(i as int, v@.len() as int) =~= Seq::<char>::empty());
    if cur.len() > 0 {
        proof {
            assert(acc + seq![cur@] =~= acc.push(cur@));
            acc = acc.push(cur@);
        }
        out.push(cur);
    } else {
        assert(acc + Seq::<Seq<char>>::empty() =~= acc);
    }
    out
}

pub open spec fn shift(o: Option<nat>, d: nat) -> Option<nat> {
    match o {
        Some(k) => Some(k + d),
        None => None,
    }
}

fn utf8_len(c: char) -> (r: usize)
    ensures
        r == char_bytes(c),
{
    let u = c as u32;
    if u < 0x80 {
        1
    } else if u < 0x800 {
        2
    } else if u < 0x10000 {
        3
    } else {
        4
    }
}

/// Whether `v[lo..hi]` is at least `n` bytes long in UTF-8.
fn byte_len_reaches(v: &Vec<char>, lo: usize, hi: usize, n: usize) -> (r: bool)
    requires
        lo <= hi <= v@.len(),
        n <= 16,
    ensures
        r == (byte_len(v@.subrange(lo as int, hi as int)) >= n),
{
    let mut acc: usize = 0;
    let mut i: usize = lo;
    while i < hi && acc < n
        invariant
            lo <= i <= hi <= v@.len(),
            n <= 16,
            acc <= n + 4,
            byte_len(v@.subrange(lo as int, hi as int)) == acc + byte_len(v@.subrange(i as int, hi as int)),
        decreases hi - i,
    {
        assert(v@.subrange(i as int, hi as int).drop_first() =~= v@.subrange(i + 1, hi as int));
        acc = acc + utf8_len(v[i]);
        i = i + 1;
    }
    proof {
        if i == hi {
            assert(v@.subrange(i as int, hi as int) =~= Seq::<char>::empty());
        }
    }
    acc >= n
}

/// How many characters the first `n` bytes of `v[lo..hi]` hold.
fn chars_for_bytes(v: &Vec<char>, lo: usize, hi: usize, n: usize) -> (r: Option<usize>)
    requires
        lo <= hi <= v@.len(),
    ensures
        r is Some <==> chars_in_bytes(v@.subrange(lo as int, hi as int), n as nat) is Some,
        r matches Some(k) ==> chars_in_bytes(v@.subrange(lo as int, hi as int), n as nat) == Some(k as nat) && lo + k <= hi,
{
    let mut m: usize = n;
    let mut i: usize = lo;
    while m > 0
        invariant
            lo <= i <= hi <= v@.len(),
            chars_in_bytes(v@.subrange(lo as int, hi as int), n as nat) == shift(
                chars_in_bytes(v@.subrange(i as int, hi as int), m as nat),
                (i - lo) as nat,
            ),
        decreases m,
    {
        if i == hi {
            assert(v@.subrange(i as int, hi as int) =~= Seq::<char>::empty());
            return None;
        }
        let b = utf8_len(v[i]);
        assert(v@.subrange(i as int, hi as int)[0] == v@[i as int]);
        if b > m {
            return None;
        }
        assert(v@.subrange(i as int, hi as int).drop_first() =~= v@.subrange(i + 1, hi as int));
        m = m - b;
        i = i + 1;
    }
    Some(i - lo)
}

/// The first word of `v[lo..hi]`, empty when there is none.
fn first_word_in(v: &Vec<char>, lo: usize, hi: usize) -> (r: Vec<char>)
    requires
        lo <= hi <= v@.len(),
    ensures
        r@ == first_word(v@.subrange(lo as int, hi as int)),
{
    let mut ws = split_words(v, lo, hi);
    if ws.len() > 0 {
        ws.remove(0)
    } else {
        Vec::new()
    }
}

/// The flag column and name of a listing line.
fn flagged_entry_in(line: &Vec<char>, width: usize, min_len: usize) -> (r: Option<(Vec<char>, Vec<char>)>)
    requires
        min_len <= 16,
    ensures
        match flagged_entry(line@, width as nat, min_len as nat) {
            Some((f, n)) => r matches Some((a, b)) && a@ == f && b@ == n,
            None => r is None,
        },
{
    let hi = line.len();
    assert(line@.subrange(0, hi as int) =~= line@);
    let a = skip_white(line, 0, hi);
    let ghost t = line@.subrange(a as int, hi as int);
    if !byte_len_reaches(line, a, hi, min_len) {
        return None;
    }
    let k = match chars_for_bytes(line, a, hi, width) {
        None => { return None; },
        Some(k) => k,
    };
    assert(t.subrange(k as int, t.len() as int) =~= line@.subrange(a + k, hi as int));
    assert(t.subrange(0, k as int) =~= line@.subrange(a as int, a + k));
    let name = first_word_in(line, a + k, hi);
    if name.len() == 0 {
        return None;
    }
    Some((copy_range(line, a, a + k), name))
}

/// Whether `v` holds `c`.
fn holds(v: &Vec<char>, c: char) -> (r: bool)
    ensures
        r == v@.contains(c),
{
    let mut i: usize = 0;
    while i < v.len()
        invariant
            i <= v@.len(),
            forall|k: int| 0 <= k < i ==> v@[k] != c,
        decreases v@.len() - i,
    {
        if v[i] == c {
            assert(v@[i as int] == c);
            return true;
        }
        i = i + 1;
    }
    false
}

/// The name a line of the listing yields.
fn entry_in(listing: Listing, line: &Vec<char>) -> (r: Option<Vec<char>>)
    ensures
        match entry_of(listing, line@) {
            Some(n) => r matches Some(v) && v@ == n,
            None => r is None,
        },
{
    match listing {
        Listing::Encoders(kind) => match flagged_entry_in(line, 7, 8) {
            Some((flags, name)) => if flags.len() > 0 && flags[0] == kind {
                Some(name)
            } else {
                None
            },
            None => None,
        },
        Listing::Formats => match flagged_entry_in(line, 3, 3) {
            Some((flags, name)) => if holds(&flags, 'D') || holds(&flags, 'E') {
                Some(name)
            } else {
                None
            },
            None => None,
        },
        Listing::Filters => {
            let hi = line.len();
            assert(line@.subrange(0, hi as int) =~= line@);
            let a = skip_white(line, 0, hi);
            let name = first_word_in(line, a, hi);
            if !byte_len_reaches(line, a, hi, 2) || name.len() == 0 || name[0] == '*' {
                None
            } else {
                Some(name)
            }
        },
    }
}

/// The names the lines of `output` yield for `listing`, ascending and without repetition.
pub fn parse_listing(output: &str, listing: Listing) -> (r: Vec<String>)
    ensures
        strictly_sorted(texts(r@)),
        forall|n: Seq<char>| #[trigger] texts(r@).contains(n) <==> names_in(listing, output@, n),
{
    let v = chars_of(output);
    let ls = split_lines(&v);
    let mut found: Vec<Vec<char>> = Vec::new();
    let mut i: usize = 0;
    while i < ls.len()
        invariant
            v@ == output@,
            ls@.len() == lines(output@).len(),
            forall|k: int| 0 <= k < ls@.len() ==> #[trigger] ls@[k]@ == lines(output@)[k],
            i <= ls@.len(),
            strictly_sorted(texts_of(found@)),
            forall|n: Seq<char>| #[trigger] texts_of(found@).contains(n) <==> exists|j: int| 0 <= j < i && entry_of(listing, #[trigger] lines(output@)[j]) == Some(n),
        decreases ls@.len() - i,
    {
        let ghost before = texts_of(found@);
        let e = entry_in(listing, &ls[i]);
        let ghost line = lines(output@)[i as int];
        match e {
            Some(name) => {
                let ghost nm = name@;
                insert_sorted(&mut found, name);
                proof {
                    assert forall|n: Seq<char>| #[trigger] texts_of(found@).contains(n) <==> exists|j: int| 0 <= j < i + 1 && entry_of(listing, #[trigger] lines(output@)[j]) == Some(n) by {
                        if n == nm {
                            assert(entry_of(listing, lines(output@)[i as int]) == Some(n));
                        }
                        if exists|j: int| 0 <= j < i + 1 && entry_of(listing, #[trigger] lines(output@)[j]) == Some(n) {
                            let j = choose|j: int| 0 <= j < i + 1 && entry_of(listing, #[trigger] lines(output@)[j]) == Some(n);
                            if j < i {
                                assert(before.contains(n));
                            }
                        }
                    }
                }
            },
            None => {
                proof {
                    assert forall|n: Seq<char>| #[trigger] texts_of(found@).contains(n) <==> exists|j: int| 0 <= j < i + 1 && entry_of(listing, #[trigger] lines(output@)[j]) == Some(n) by {
                        if exists|j: int| 0 <= j < i + 1 && entry_of(listing, #[trigger] lines(output@)[j]) == Some(n) {
                            let j = choose|j: int| 0 <= j < i + 1 && entry_of(listing, #[trigger] lines(output@)[j]) == Some(n);
                            if j == i {
                                assert(false);
                            }
                        }
                    }
                }
            },
        }
        i = i + 1;
    }
    let mut out: Vec<String> = Vec::new();
    let mut k: usize = 0;
    while k < found.len()
        invariant
            k <= found@.len(),
            out@.len() == k,
            forall|j: int| 0 <= j < k ==> #[trigger] out@[j]@ == found@[j]@,
        decreases found@.len() - k,
    {
        out.push(string_of(&found[k]));
        k = k + 1;
    }
    proof {
        assert(texts(out@) =~= texts_of(found@));
        assert forall|n: Seq<char>| #[trigger] texts(out@).contains(n) <==> names_in(listing, output@, n) by {
            if texts_of(found@).contains(n) {
                let j = choose|j: int| 0 <= j < i && entry_of(listing, #[trigger] lines(output@)[j]) == Some(n);
            }
        }
    }
    out
}

/// The video and the audio encoders of an `-encoders` listing: lines whose
/// flag column starts with `V` or `A`.
pub fn parse_encoders(output: &str) -> (r: (Vec<String>, Vec<String>))
    ensures
        strictly_sorted(texts(r.0@)),
        strictly_sorted(texts(r.1@)),
        forall|n: Seq<char>| #[trigger] texts(r.0@).contains(n) <==> names_in(Listing::Encoders('V'), output@, n),
        forall|n: Seq<char>| #[trigger] texts(r.1@).contains(n) <==> names_in(Listing::Encoders('A'), output@, n),
{
    (parse_listing(output, Listing::Encoders('V')), parse_listing(output, Listing::Encoders('A')))
}

/// The formats of a `-formats` listing that can be read (`D`) or written (`E`).
pub fn parse_formats(output: &str) -> (r: Vec<String>)
    ensures
        strictly_sorted(texts(r@)),
        forall|n: Seq<char>| #[trigger] texts(r@).contains(n) <==> names_in(Listing::Formats, output@, n),
{
    parse_listing(output, Listing::Formats)
}

/// The available filters of a `-filters` listing.
pub fn parse_filters(output: &str) -> (r: Vec<String>)
    ensures
        strictly_sorted(texts(r@)),
        forall|n: Seq<char>| #[trigger] texts(r@).contains(n) <==> names_in(Listing::Filters, output@, n),
{
    parse_listing(output, Listing::Filters)
}

} // verus!
