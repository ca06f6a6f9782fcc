//! Classification of one line of the downloader's standard output.
//!
//! A progress line is recognised on its whitespace-separated words:
//! `[download]`, a percentage word ending in `%`, `of`, then later
//! `at <rate> ETA <eta>`.  The percentage is kept in hundredths of a percent;
//! a field that is not a number in `[0, 100]` counts as zero.
use vstd::prelude::*;
use vstd::string::*;
use crate::text::{string_views, chars_of, contains_seq, contains_text, find_first, occurs_at, same_text};

verus! {

pub const DOWNLOAD_TAG: &'static str = "[download]";

pub const OF_WORD: &'static str = "of";

pub const AT_WORD: &'static str = "at";

pub const ETA_WORD: &'static str = "ETA";

pub const DESTINATION_MARKER: &'static str = "[download] Destination: ";

pub const MERGER_MARKER: &'static str = "[Merger] Merging formats into";

pub const EXTRACT_MARKER: &'static str = "[ExtractAudio]";

/// Largest progress value, in hundredths of a percent.
pub const FULL_PROGRESS: u32 = 10000;

pub open spec fn is_digit(c: char) -> bool {
    '0' <= c && c <= '9'
}

pub open spec fn digit_val(c: char) -> nat {
    (c as int - '0' as int) as nat
}

pub open spec fn all_digits(s: Seq<char>) -> bool {
    forall|i: int| 0 <= i < s.len() ==> is_digit(s[i])
}

/// The decimal value of a string of digits.
pub open spec fn digits_value(s: Seq<char>) -> nat
    decreases s.len(),
{
    if s.len() == 0 {
        0
    } else {
        digits_value(s.drop_last()) * 10 + digit_val(s.last())
    }
}

/// The number of digits at the start of `f`.
pub open spec fn leading_digits(f: Seq<char>) -> nat
    decreases f.len(),
{
    if f.len() > 0 && is_digit(f[0]) {
        1 + leading_digits(f.skip(1))
    } else {
        0
    }
}

/// The first two fractional digits, in hundredths.
pub open spec fn frac_centi(b: Seq<char>) -> nat {
    if b.len() >= 2 {
        digit_val(b[0]) * 10 + digit_val(b[1])
    } else if b.len() == 1 {
        digit_val(b[0]) * 10
    } else {
        0
    }
}

/// `f` has the shape `digits+ ('.' digits*)?`.
pub open spec fn numeric_field(f: Seq<char>) -> bool {
    let k = leading_digits(f) as int;
    k > 0 && (k == f.len() || (f[k] == '.' && all_digits(f.skip(k + 1))))
}

/// The value of a numeric field in hundredths (fraction truncated to two digits).
pub open spec fn field_centi(f: Seq<char>) -> nat {
    let k = leading_digits(f) as int;
    digits_value(f.take(k)) * 100 + if k < f.len() {
        frac_centi(f.skip(k + 1))
    } else {
        0
    }
}

/// The progress that a percentage field stands for, in hundredths of a
/// percent: its value when it is a number in `[0, 100]`, otherwise zero.
pub open spec fn percent_centi(f: Seq<char>) -> nat {
    if numeric_field(f) && field_centi(f) <= 10000 {
        field_centi(f)
    } else {
        0
    }
}

proof fn lemma_leading_digits(f: Seq<char>, k: int)
    requires
        0 <= k <= f.len(),
        all_digits(f.take(k)),
        k == f.len() || !is_digit(f[k]),
    ensures
        leading_digits(f) == k,
    decreases k,
{
    if k > 0 {
        assert(f.take(k)[0] == f[0]);
        let g = f.skip(1);
        assert forall|i: int| 0 <= i < k - 1 implies is_digit(#[trigger] g.take(k - 1)[i]) by {
            assert(g.take(k - 1)[i] == f.take(k)[i + 1]);
        }
        if k < f.len() {
            assert(g[k - 1] == f[k]);
        }
        lemma_leading_digits(g, k - 1);
    }
}

fn char_is_digit(c: char) -> (r: bool)
    ensures
        r == is_digit(c),
{
    '0' <= c && c <= '9'
}

fn char_digit(c: char) -> (r: u32)
    requires
        is_digit(c),
    ensures
        r as nat == digit_val(c),
        r <= 9,
{
    (c as u32) - ('0' as u32)
}

/// Reads a percentage field (the word before its `%`) as hundredths of a
/// percent; a malformed or out-of-range field reads as zero.
pub fn parse_percent(f: &Vec<char>) -> (r: u32)
    ensures
        r as nat == percent_centi(f@),
        r <= FULL_PROGRESS,
{
    let n = f.len();
    let mut k: usize = 0;
    let mut acc: u32 = 0;
    while k < n && char_is_digit(f[k])
        invariant
            n == f@.len(),
            k <= n,
            all_digits(f@.take(k as int)),
            acc <= 1000,
            acc == digits_value(f@.take(k as int)) || (acc == 1000 && digits_value(
                f@.take(k as int),
            ) >= 1000),
        decreases n - k,
    {
        let d = char_digit(f[k]);
        assert(f@.take(k + 1).drop_last() =~= f@.take(k as int));
        assert(f@.take(k + 1).last() == f@[k as int]);
        acc = if acc >= 100 {
            1000
        } else {
            acc * 10 + d
        };
        k = k + 1;
    }
    proof {
        lemma_leading_digits(f@, k as int);
    }
    if k == 0 {
        return 0;
    }
    let mut frac: u32 = 0;
    if k < n {
        if f[k] != '.' {
            return 0;
        }
        let mut m: usize = k + 1;
        while m < n
            invariant
                n == f@.len(),
                k < n,
                leading_digits(f@) == k,
                f@[k as int] == '.',
                k + 1 <= m <= n,
                forall|i: int| k + 1 <= i < m ==> is_digit(f@[i]),
            decreases n - m,
        {
            if !char_is_digit(f[m]) {
                assert(f@.skip(k + 1)[m - k - 1] == f@[m as int]);
                assert(!all_digits(f@.skip(k + 1)));
                return 0;
            }
            m = m + 1;
        }
        let ghost b = f@.skip(k + 1);
        assert forall|i: int| 0 <= i < b.len() implies is_digit(b[i]) by {
            assert(b[i] == f@[k + 1 + i]);
        }
        if n - k >= 3 {
            frac = char_digit(f[k + 1]) * 10 + char_digit(f[k + 2]);
            assert(b[0] == f@[k + 1] && b[1] == f@[k + 2]);
        } else if n - k == 2 {
            frac = char_digit(f[k + 1]) * 10;
            assert(b[0] == f@[k + 1]);
        }
    }
    let total = acc * 100 + frac;
    if total > FULL_PROGRESS {
        0
    } else {
        total
    }
}

/// The characters that separate words: Unicode's `White_Space` set.
pub open spec fn is_space(c: char) -> bool {
    ('\u{9}' <= c && c <= '\u{D}') || c == ' ' || c == '\u{85}' || c == '\u{A0}' || c == '\u{1680}'
        || ('\u{2000}' <= c && c <= '\u{200A}') || c == '\u{2028}' || c == '\u{2029}' || c
        == '\u{202F}' || c == '\u{205F}' || c == '\u{3000}'
}

/// Reading `s` from the left: the words completed so far, and the word in
/// progress at its end.
pub open spec fn split_state(s: Seq<char>) -> (Seq<Seq<char>>, Seq<char>)
    decreases s.len(),
{
    if s.len() == 0 {
        (Seq::empty(), Seq::empty())
    } else {
        let (ws, cur) = split_state(s.drop_last());
        if is_space(s.last()) {
            if cur.len() > 0 {
                (ws.push(cur), Seq::empty())
            } else {
                (ws, Seq::empty())
            }
        } else {
            (ws, cur.push(s.last()))
        }
    }
}

/// The words of a line: its maximal runs of non-space characters, in order.
pub open spec fn words_of(s: Seq<char>) -> Seq<Seq<char>> {
    let (ws, cur) = split_state(s);
    if cur.len() > 0 {
        ws.push(cur)
    } else {
        ws
    }
}

fn char_is_space(c: char) -> (r: bool)
    ensures
        r == is_space(c),
{
    ('\u{9}' <= c && c <= '\u{D}') || c == ' ' || c == '\u{85}' || c == '\u{A0}' || c == '\u{1680}'
        || ('\u{2000}' <= c && c <= '\u{200A}') || c == '\u{2028}' || c == '\u{2029}' || c
        == '\u{202F}' || c == '\u{205F}' || c == '\u{3000}'
}

/// The words of `line`, in order.
pub fn split_words(line: &str) -> (r: Vec<String>)
    ensures
        string_views(r@) == words_of(line@),
{
    let c = chars_of(line);
    let n = c.len();
    let mut r: Vec<String> = Vec::new();
    let mut start: usize = 0;
    let mut i: usize = 0;
    while i < n
        invariant
            n == c@.len(),
            c@ == line@,
            start <= i <= n,
            split_state(c@.take(i as int)) == (string_views(r@), c@.subrange(start as int, i as int)),
        decreases n - i,
    {
        let ghost prev = string_views(r@);
        assert(c@.take(i + 1).drop_last() =~= c@.take(i as int));
        assert(c@.take(i + 1).last() == c@[i as int]);
        if char_is_space(c[i]) {
            if start < i {
                let w = line.substring_char(start, i).to_owned();
                r.push(w);
                assert(string_views(r@) =~= prev.push(c@.subrange(start as int, i as int)));
            }
            start = i + 1;
            assert(c@.subrange(start as int, i + 1) =~= Seq::<char>::empty());
        } else {
            assert(c@.subrange(start as int, i + 1) =~= c@.subrange(start as int, i as int).push(c@[i as int]));
        }
        i = i + 1;
    }
    assert(c@.take(n as int) =~= c@);
    if start < n {
        let ghost prev = string_views(r@);
        let w = line.substring_char(start, n).to_owned();
        r.push(w);
        assert(string_views(r@) =~= prev.push(c@.subrange(start as int, n as int)));
    }
    r
}

/// `x` is a percentage word: it ends in `%`.
pub open spec fn is_percent_word(x: Seq<char>) -> bool {
    x.len() > 0 && x.last() == '%'
}

/// `x` starts with `of`.
pub open spec fn starts_with_of(x: Seq<char>) -> bool {
    x.len() >= OF_WORD@.len() && x.take(OF_WORD@.len() as int) == OF_WORD@
}

/// Words `i .. i + 2` read `[download] <pct>% of...`, and words `j .. j + 3`
/// read `at <rate> ETA <eta>`, with `j` after the `of` word.
pub open spec fn progress_at(w: Seq<Seq<char>>, i: int, j: int) -> bool {
    0 <= i && i + 2 < j && j + 3 < w.len() && w[i] == DOWNLOAD_TAG@ && is_percent_word(w[i + 1])
        && starts_with_of(w[i + 2]) && w[j] == AT_WORD@ && w[j + 2] == ETA_WORD@
}

/// `(i, j)` is the first match of the progress pattern: no match starts
/// before `i`, and none with the same `i` has its `at` before `j`.
pub open spec fn first_progress_at(w: Seq<Seq<char>>, i: int, j: int) -> bool {
    progress_at(w, i, j) && forall|a: int, b: int|
        (a < i || (a == i && b < j)) ==> !#[trigger] progress_at(w, a, b)
}

pub open spec fn has_progress(w: Seq<Seq<char>>) -> bool {
    exists|i: int, j: int| progress_at(w, i, j)
}

/// The percentage field of a percentage word: the word without its `%`.
pub open spec fn percent_field(x: Seq<char>) -> Seq<char> {
    x.drop_last()
}

/// The line announces its output file at `i`: the first occurrence of the
/// destination marker, followed by at least one character.
pub open spec fn destination_at(s: Seq<char>, i: int) -> bool {
    occurs_at(s, DESTINATION_MARKER@, i) && i + DESTINATION_MARKER@.len() < s.len() && forall|j: int|
        0 <= j < i ==> !occurs_at(s, DESTINATION_MARKER@, j)
}

pub open spec fn has_destination(s: Seq<char>) -> bool {
    exists|i: int| destination_at(s, i)
}

/// The line marks the start of merging or of audio extraction.
pub open spec fn is_processing_line(s: Seq<char>) -> bool {
    contains_seq(s, MERGER_MARKER@) || contains_seq(s, EXTRACT_MARKER@)
}

/// What a line of output means, as a mathematical value.
pub ghost enum LineClass {
    Progress { centi: nat, speed: Seq<char>, eta: Seq<char> },
    Destination { filename: Seq<char> },
    Processing,
    Other,
}

/// The meaning of line `s` whose words are `w`: a progress match wins, then
/// a destination announcement, then a post-processing marker.
pub open spec fn line_class(s: Seq<char>, w: Seq<Seq<char>>) -> LineClass {
    if has_progress(w) {
        let p = choose|p: (int, int)| first_progress_at(w, p.0, p.1);
        LineClass::Progress {
            centi: percent_centi(percent_field(w[p.0 + 1])),
            speed: w[p.1 + 1],
            eta: w[p.1 + 3],
        }
    } else if has_destination(s) {
        let i = choose|i: int| destination_at(s, i);
        LineClass::Destination { filename: s.skip(i + DESTINATION_MARKER@.len()) }
    } else if is_processing_line(s) {
        LineClass::Processing
    } else {
        LineClass::Other
    }
}

/// What a line of output means.
pub enum LineKind {
    /// A progress report: hundredths of a percent, rate and ETA words.
    Progress { percent_centi: u32, speed: String, eta: String },
    /// The announcement of the output file.
    Destination { filename: String },
    /// Merging or audio extraction has begun.
    Processing,
    /// Anything else.
    Other,
}

impl View for LineKind {
    type V = LineClass;

    open spec fn view(&self) -> LineClass {
        match self {
            LineKind::Progress { percent_centi, speed, eta } => LineClass::Progress {
                centi: *percent_centi as nat,
                speed: speed@,
                eta: eta@,
            },
            LineKind::Destination { filename } => LineClass::Destination { filename: filename@ },
            LineKind::Processing => LineClass::Processing,
            LineKind::Other => LineClass::Other,
        }
    }
}

proof fn lemma_first_progress_unique(w: Seq<Seq<char>>, i: int, j: int, a: int, b: int)
    requires
        first_progress_at(w, i, j),
        first_progress_at(w, a, b),
    ensures
        i == a && j == b,
{
    assert(progress_at(w, a, b));
    assert(progress_at(w, i, j));
}

fn word_is(w: &Vec<String>, i: usize, lit: &str) -> (r: bool)
    requires
        i < w@.len(),
    ensures
        r == (w@[i as int]@ == lit@),
{
    same_text(w[i].as_str(), lit)
}

fn percent_word(w: &Vec<String>, i: usize) -> (r: bool)
    requires
        i < w@.len(),
    ensures
        r == is_percent_word(w@[i as int]@),
{
    let x = chars_of(w[i].as_str());
    x.len() > 0 && x[x.len() - 1] == '%'
}

fn of_word(w: &Vec<String>, i: usize) -> (r: bool)
    requires
        i < w@.len(),
    ensures
        r == starts_with_of(w@[i as int]@),
{
    let x = chars_of(w[i].as_str());
    let o = chars_of(OF_WORD);
    if x.len() < o.len() {
        return false;
    }
    matches_prefix(&x, &o)
}

fn matches_prefix(x: &Vec<char>, o: &Vec<char>) -> (r: bool)
    requires
        o@.len() <= x@.len(),
    ensures
        r == (x@.take(o@.len() as int) == o@),
{
    let b = crate::text::matches_at(x, o, 0);
    assert(x@.subrange(0, o@.len() as int) =~= x@.take(o@.len() as int));
    b
}

/// The first match of the progress pattern among the words `w`.
pub fn find_progress(w: &Vec<String>) -> (r: Option<(usize, usize)>)
    ensures
        match r {
            Some((i, j)) => first_progress_at(string_views(w@), i as int, j as int),
            None => !has_progress(string_views(w@)),
        },
{
    let ghost wv = string_views(w@);
    let n = w.len();
    let mut i: usize = 0;
    while i < n
        invariant
            n == w@.len(),
            wv == string_views(w@),
            wv.len() == n,
            forall|a: int, b: int| a < i ==> !#[trigger] progress_at(wv, a, b),
        decreases n - i,
    {
        if n - i > 3 && word_is(w, i, DOWNLOAD_TAG) && percent_word(w, i + 1) && of_word(w, i + 2) {
            let mut j: usize = i + 3;
            while n - j > 3
                invariant
                    j <= n,
                    n == w@.len(),
                    wv == string_views(w@),
                    wv.len() == n,
                    i + 3 <= j,
                    i + 3 < n,
                    wv[i as int] == DOWNLOAD_TAG@,
                    is_percent_word(wv[i + 1]),
                    starts_with_of(wv[i + 2]),
                    forall|a: int, b: int| a < i ==> !#[trigger] progress_at(wv, a, b),
                    forall|b: int| b < j ==> !#[trigger] progress_at(wv, i as int, b),
                decreases n - j,
            {
                if word_is(w, j, AT_WORD) && word_is(w, j + 2, ETA_WORD) {
                    return Some((i, j));
                }
                j = j + 1;
            }
        }
        i = i + 1;
    }
    None
}

/// The meaning of `line`, given its whitespace-separated words `words`.
pub fn classify_words(line: &str, words: &Vec<String>) -> (r: LineKind)
    ensures
        r@ == line_class(line@, string_views(words@)),
{
    let ghost wv = string_views(words@);
    match find_progress(words) {
        Some((i, j)) => {
            assert(wv.len() == words@.len());
            assert(progress_at(wv, i as int, j as int));
            let n = words.len();
            assert(j + 3 < n);
            let speed = words[j + 1].clone();
            let eta = words[j + 3].clone();
            proof {
                let p = choose|p: (int, int)| first_progress_at(wv, p.0, p.1);
                lemma_first_progress_unique(wv, i as int, j as int, p.0, p.1);
            }
            let x = chars_of(words[i + 1].as_str());
            let mut field = x;
            field.pop();
            assert(field@ =~= percent_field(wv[i + 1]));
            let centi = parse_percent(&field);
            return LineKind::Progress {
                percent_centi: centi,
                speed,
                eta,
            };
        },
        None => {},
    }
    let s = chars_of(line);
    let marker = chars_of(DESTINATION_MARKER);
    match find_first(&s, &marker) {
        Some(i) => {
            assert(occurs_at(s@, marker@, i as int));
            let ml = marker.len();
            let sl = s.len();
            if i < sl && sl - i > ml {
                assert(destination_at(line@, i as int));
                proof {
                    let k = choose|k: int| destination_at(line@, k);
                    assert(k == i);
                }
                let start = i + ml;
                let name = line.substring_char(start, sl);
                return LineKind::Destination { filename: name.to_owned() };
            } else {
                assert forall|k: int| !destination_at(line@, k) by {
                    if destination_at(line@, k) && k > i {
                        assert(occurs_at(line@, DESTINATION_MARKER@, k));
                    }
                }
            }
        },
        None => {
            assert forall|k: int| !destination_at(line@, k) by {
                if destination_at(line@, k) {
                    assert(occurs_at(line@, DESTINATION_MARKER@, k));
                }
            }
        },
    }
    if contains_text(line, MERGER_MARKER) || contains_text(line, EXTRACT_MARKER) {
        LineKind::Processing
    } else {
        LineKind::Other
    }
}

/// The meaning of one line of the downloader's standard output.
pub fn classify_line(line: &str) -> (r: LineKind)
    ensures
        r@ == line_class(line@, words_of(line@)),
{
    let words = split_words(line);
    classify_words(line, &words)
}

/// Every line that matches the progress pattern means a progress report
/// whose value lies in `[0, 100]` percent; a line that matches none of the
/// patterns means nothing.
pub proof fn lemma_progress_lines(s: Seq<char>, w: Seq<Seq<char>>)
    ensures
        has_progress(w) ==> line_class(s, w) is Progress && line_class(s, w)->centi <= FULL_PROGRESS,
        !has_progress(w) && !has_destination(s) && !is_processing_line(s) ==> line_class(s, w) is Other,
{
}

/// A percentage field that is not a number, or is cut short before its
/// digits, reads as zero progress.
pub proof fn lemma_malformed_percent_is_zero(f: Seq<char>)
    requires
        !numeric_field(f),
    ensures
        percent_centi(f) == 0,
{
}

} // verus!
