//! Reading the transcript out of whisper.cpp's standard output.
//!
//! Each useful line reads `[HH:MM:SS.mmm --> HH:MM:SS.mmm]   text`. Lines
//! whose text is a non-speech marker, a known hallucination or a bare
//! artifact are dropped; the remaining texts are joined with single spaces.
use vstd::prelude::*;
use vstd::string::*;
use crate::chars::{chars_contain, from_chars, seq_contains, to_chars};
use crate::text::{join_words, lower_of, lowercase, trim_whitespace, trim_ws};

verus! {

/// Number of non-speech and hallucination markers.
pub const NOISE_MARKER_COUNT: usize = 24;

/// Number of bare artifacts.
pub const ARTIFACT_COUNT: usize = 13;

/// Marker `i`: a line whose lowercased text contains it is dropped.
pub open spec fn noise_marker(i: int) -> &'static str {
    if i == 0 {
        "[musik]"
    } else if i == 1 {
        "[music]"
    } else if i == 2 {
        "* musik *"
    } else if i == 3 {
        "* music *"
    } else if i == 4 {
        "[applaus]"
    } else if i == 5 {
        "[applause]"
    } else if i == 6 {
        "[laughter]"
    } else if i == 7 {
        "[lachen]"
    } else if i == 8 {
        "[stille]"
    } else if i == 9 {
        "[silence]"
    } else if i == 10 {
        "[blank_audio]"
    } else if i == 11 {
        "[no speech]"
    } else if i == 12 {
        "(silence)"
    } else if i == 13 {
        "(stille)"
    } else if i == 14 {
        "danke fürs zuschauen"
    } else if i == 15 {
        "danke fuer's zuschauen"
    } else if i == 16 {
        "danke für's zuschauen"
    } else if i == 17 {
        "thanks for watching"
    } else if i == 18 {
        "abonnieren"
    } else if i == 19 {
        "subscribe"
    } else if i == 20 {
        "like and subscribe"
    } else if i == 21 {
        "gefällt mir"
    } else if i == 22 {
        "kanal"
    } else {
        "channel"
    }
}

fn noise_marker_entry(i: usize) -> (r: &'static str)
    requires
        i < NOISE_MARKER_COUNT,
    ensures
        r == noise_marker(i as int),
{
    if i == 0 {
        "[musik]"
    } else if i == 1 {
        "[music]"
    } else if i == 2 {
        "* musik *"
    } else if i == 3 {
        "* music *"
    } else if i == 4 {
        "[applaus]"
    } else if i == 5 {
        "[applause]"
    } else if i == 6 {
        "[laughter]"
    } else if i == 7 {
        "[lachen]"
    } else if i == 8 {
        "[stille]"
    } else if i == 9 {
        "[silence]"
    } else if i == 10 {
        "[blank_audio]"
    } else if i == 11 {
        "[no speech]"
    } else if i == 12 {
        "(silence)"
    } else if i == 13 {
        "(stille)"
    } else if i == 14 {
        "danke fürs zuschauen"
    } else if i == 15 {
        "danke fuer's zuschauen"
    } else if i == 16 {
        "danke für's zuschauen"
    } else if i == 17 {
        "thanks for watching"
    } else if i == 18 {
        "abonnieren"
    } else if i == 19 {
        "subscribe"
    } else if i == 20 {
        "like and subscribe"
    } else if i == 21 {
        "gefällt mir"
    } else if i == 22 {
        "kanal"
    } else {
        "channel"
    }
}

/// Artifact `i`: a line whose trimmed lowercased text equals it is dropped.
pub open spec fn artifact(i: int) -> &'static str {
    if i == 0 {
        "..."
    } else if i == 1 {
        ".."
    } else if i == 2 {
        "."
    } else if i == 3 {
        "-"
    } else if i == 4 {
        "--"
    } else if i == 5 {
        "♪"
    } else if i == 6 {
        "♪♪"
    } else if i == 7 {
        ""
    } else if i == 8 {
        "äh"
    } else if i == 9 {
        "ähm"
    } else if i == 10 {
        "äähm"
    } else if i == 11 {
        "mhm"
    } else {
        "hmm"
    }
}

fn artifact_entry(i: usize) -> (r: &'static str)
    requires
        i < ARTIFACT_COUNT,
    ensures
        r == artifact(i as int),
{
    if i == 0 {
        "..."
    } else if i == 1 {
        ".."
    } else if i == 2 {
        "."
    } else if i == 3 {
        "-"
    } else if i == 4 {
        "--"
    } else if i == 5 {
        "♪"
    } else if i == 6 {
        "♪♪"
    } else if i == 7 {
        ""
    } else if i == 8 {
        "äh"
    } else if i == 9 {
        "ähm"
    } else if i == 10 {
        "äähm"
    } else if i == 11 {
        "mhm"
    } else {
        "hmm"
    }
}

/// Pieces of `s` between line feeds, scanning from `i` with the current
/// piece `cur` and the finished pieces `acc`.
pub open spec fn lines_from(s: Seq<char>, i: int, cur: Seq<char>, acc: Seq<Seq<char>>) -> Seq<
    Seq<char>,
>
    decreases s.len() - i,
{
    if i >= s.len() {
        acc.push(cur)
    } else if s[i] == '\n' {
        lines_from(s, i + 1, Seq::empty(), acc.push(cur))
    } else {
        lines_from(s, i + 1, cur.push(s[i]), acc)
    }
}

/// The lines of `s` (a carriage return before a line feed stays in the line
/// and is trimmed away with the other whitespace).
pub open spec fn lines_of(s: Seq<char>) -> Seq<Seq<char>> {
    lines_from(s, 0, Seq::empty(), Seq::empty())
}

/// `b` is the first position of `c` in `t`.
pub open spec fn first_at(t: Seq<char>, c: char, b: int) -> bool {
    0 <= b < t.len() && t[b] == c && forall|k: int| 0 <= k < b ==> t[k] != c
}

/// Whether a lowercased text is a marker, hallucination or bare artifact.
pub open spec fn is_noise(lower: Seq<char>) -> bool {
    (exists|i: int| 0 <= i < NOISE_MARKER_COUNT && seq_contains(lower, #[trigger] noise_marker(i)@))
        || (exists|i: int| 0 <= i < ARTIFACT_COUNT && trim_ws(lower) == #[trigger] artifact(i)@)
}

/// The text a line contributes: after the first `]` of a trimmed line that
/// starts with `[` and contains `-->`, trimmed, when it is not empty and
/// not noise.
pub open spec fn line_text(line: Seq<char>) -> Option<Seq<char>> {
    let t = trim_ws(line);
    if t.len() > 0 && t[0] == '[' && seq_contains(t, "-->"@) && exists|b: int| first_at(t, ']', b) {
        let b = choose|b: int| first_at(t, ']', b);
        let part = trim_ws(t.subrange(b + 1, t.len() as int));
        if part.len() > 0 && !is_noise(lower_of(part)) {
            Some(part)
        } else {
            None
        }
    } else {
        None
    }
}

/// The texts of the lines, in order.
pub open spec fn texts_of(lines: Seq<Seq<char>>) -> Seq<Seq<char>>
    decreases lines.len(),
{
    if lines.len() == 0 {
        Seq::empty()
    } else {
        match line_text(lines.last()) {
            Some(p) => texts_of(lines.drop_last()).push(p),
            None => texts_of(lines.drop_last()),
        }
    }
}

/// The transcript: the texts joined with single spaces, or none.
pub open spec fn transcript_of(stdout: Seq<char>) -> Option<Seq<char>> {
    let parts = texts_of(lines_of(stdout));
    if parts.len() == 0 {
        None
    } else {
        Some(join_words(parts))
    }
}

fn split_lines(s: &[char]) -> (r: Vec<Vec<char>>)
    ensures
        r@.map_values(|w: Vec<char>| w@) == lines_of(s@),
{
    let mut acc: Vec<Vec<char>> = Vec::new();
    let mut cur: Vec<char> = Vec::new();
    let mut i: usize = 0;
    assert(acc@.map_values(|w: Vec<char>| w@) =~= Seq::<Seq<char>>::empty());
    assert(cur@ =~= Seq::<char>::empty());
    while i < s.len()
        invariant
            i <= s@.len(),
            lines_from(s@, i as int, cur@, acc@.map_values(|w: Vec<char>| w@)) == lines_of(s@),
        decreases s@.len() - i,
    {
        let ghost a0 = acc@.map_values(|w: Vec<char>| w@);
        let ghost c0 = cur@;
        if s[i] == '\n' {
            acc.push(cur);
            assert(acc@.map_values(|w: Vec<char>| w@) =~= a0.push(c0));
            cur = Vec::new();
            assert(cur@ =~= Seq::<char>::empty());
        } else {
            cur.push(s[i]);
            assert(cur@ =~= c0.push(s@[i as int]));
        }
        i = i + 1;
    }
    let ghost a0 = acc@.map_values(|w: Vec<char>| w@);
    let ghost c0 = cur@;
    acc.push(cur);
    assert(acc@.map_values(|w: Vec<char>| w@) =~= a0.push(c0));
    acc
}

fn is_noise_text(part: &[char]) -> (r: bool)
    ensures
        r == is_noise(lower_of(part@)),
{
    let s = from_chars(part);
    let lower_string = lowercase(s.as_str());
    let lower = to_chars(lower_string.as_str());
    let mut i: usize = 0;
    while i < NOISE_MARKER_COUNT
        invariant
            lower@ == lower_of(part@),
            i <= NOISE_MARKER_COUNT,
            forall|m: int| 0 <= m < i ==> !seq_contains(lower@, #[trigger] noise_marker(m)@),
        decreases NOISE_MARKER_COUNT - i,
    {
        let marker = to_chars(noise_marker_entry(i));
        if chars_contain(&lower, &marker) {
            return true;
        }
        i = i + 1;
    }
    let trimmed = trim_whitespace(&lower);
    let mut j: usize = 0;
    while j < ARTIFACT_COUNT
        invariant
            lower@ == lower_of(part@),
            trimmed@ == trim_ws(lower@),
            forall|m: int| 0 <= m < NOISE_MARKER_COUNT ==> !seq_contains(lower@, #[trigger] noise_marker(m)@),
            j <= ARTIFACT_COUNT,
            forall|m: int| 0 <= m < j ==> trimmed@ != #[trigger] artifact(m)@,
        decreases ARTIFACT_COUNT - j,
    {
        let a = to_chars(artifact_entry(j));
        if crate::text::chars_equal(&trimmed, &a) {
            return true;
        }
        j = j + 1;
    }
    false
}

fn line_text_of(line: &[char]) -> (r: Option<Vec<char>>)
    ensures
        r is None <==> line_text(line@) is None,
        r matches Some(v) ==> line_text(line@) == Some(v@),
{
    let t = trim_whitespace(line);
    let n = t.len();
    let mut b: usize = 0;
    while b < n && t[b] != ']'
        invariant
            n == t@.len(),
            b <= n,
            forall|k: int| 0 <= k < b ==> t@[k] != ']',
        decreases n - b,
    {
        b = b + 1;
    }
    if b == n {
        assert(!exists|b: int| first_at(t@, ']', b));
        return None;
    }
    assert(first_at(t@, ']', b as int));
    proof {
        reveal_strlit("-->");
    }
    let arrow = to_chars("-->");
    if !(t[0] == '[' && chars_contain(&t, &arrow)) {
        return None;
    }
    let ghost bc = choose|x: int| first_at(t@, ']', x);
    assert(bc == b) by {
        if bc < b {
            assert(t@[bc] != ']');
        } else if bc > b {
            assert(t@[b as int] != ']');
        }
    }
    let rest = vstd::slice::slice_subrange(t.as_slice(), b + 1, n);
    let part = trim_whitespace(rest);
    if part.len() == 0 || is_noise_text(&part) {
        return None;
    }
    Some(part)
}

/// The transcript in whisper.cpp's standard output, or none when no line
/// carries speech.
pub fn parse_whisper_stdout(stdout: &str) -> (r: Option<String>)
    ensures
        r is None <==> transcript_of(stdout@) is None,
        r matches Some(s) ==> transcript_of(stdout@) == Some(s@),
{
    let chars = to_chars(stdout);
    let lines = split_lines(&chars);
    let ghost ls = lines@.map_values(|w: Vec<char>| w@);
    let n = lines.len();
    let mut out: Vec<char> = Vec::new();
    let mut count: usize = 0;
    let mut i: usize = 0;
    while i < n
        invariant
            n == lines@.len(),
            ls == lines@.map_values(|w: Vec<char>| w@),
            ls == lines_of(stdout@),
            i <= n,
            count <= i,
            count == texts_of(ls.take(i as int)).len(),
            out@ == join_words(texts_of(ls.take(i as int))),
        decreases n - i,
    {
        let ghost prev = texts_of(ls.take(i as int));
        assert(ls.take(i + 1).drop_last() =~= ls.take(i as int));
        assert(ls.take(i + 1).last() == ls[i as int]);
        match line_text_of(lines[i].as_slice()) {
            Some(p) => {
                let ghost before = out@;
                if count > 0 {
                    out.push(' ');
                }
                let ghost mid = out@;
                let mut t: usize = 0;
                while t < p.len()
                    invariant
                        t <= p@.len(),
                        out@ == mid + p@.subrange(0, t as int),
                    decreases p@.len() - t,
                {
                    out.push(p[t]);
                    t = t + 1;
                    assert(out@ =~= mid + p@.subrange(0, t as int));
                }
                assert(p@.subrange(0, t as int) =~= p@);
                proof {
                    let now = prev.push(p@);
                    assert(now.drop_last() =~= prev);
                    if prev.len() == 0 {
                        assert(out@ =~= p@);
                    } else {
                        assert(out@ =~= join_words(prev) + seq![' '] + p@);
                    }
                }
                count = count + 1;
            },
            None => {},
        }
        i = i + 1;
    }
    assert(ls.take(n as int) =~= ls);
    if count == 0 {
        None
    } else {
        Some(from_chars(&out))
    }
}

} // verus!
