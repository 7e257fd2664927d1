//! Clean-up of transcription output: known hallucinations, filler words,
//! stutter artifacts and excess whitespace.
use vstd::prelude::*;
use vstd::string::*;
use crate::chars::{chars_contain, from_chars, seq_contains, to_chars};

verus! {

/// What `str::to_lowercase` gives for a string.
pub uninterp spec fn lower_of(s: Seq<char>) -> Seq<char>;

/// Relies on `str::to_lowercase`: the lowercase form of the string, which
/// depends on its characters alone.
#[verifier::external_body]
pub(crate) fn lowercase(s: &str) -> (r: String)
    ensures
        r@ == lower_of(s@),
{
    s.to_lowercase()
}

/// What `char::is_alphabetic` says of a character.
pub uninterp spec fn alphabetic(c: char) -> bool;

/// Relies on `char::is_alphabetic`: the Unicode Alphabetic property.
#[verifier::external_body]
fn is_alpha(c: char) -> (r: bool)
    ensures
        r == alphabetic(c),
{
    c.is_alphabetic()
}

/// The characters that `regex::escape` escapes (regex-syntax's meta characters).
pub open spec fn is_regex_meta(c: char) -> bool {
    c == '\\' || c == '.' || c == '+' || c == '*' || c == '?' || c == '(' || c == ')' || c == '|'
        || c == '[' || c == ']' || c == '{' || c == '}' || c == '^' || c == '$' || c == '#' || c
        == '&' || c == '-' || c == '~'
}

/// The text with a backslash before each meta character.
pub open spec fn regex_escaped(s: Seq<char>) -> Seq<char>
    decreases s.len(),
{
    if s.len() == 0 {
        Seq::empty()
    } else if is_regex_meta(s.last()) {
        regex_escaped(s.drop_last()) + seq!['\\', s.last()]
    } else {
        regex_escaped(s.drop_last()) + seq![s.last()]
    }
}

/// Relies on `regex::escape` (regex-syntax's `escape_into`): each character
/// in order, preceded by a backslash when it is a meta character.
#[verifier::external_body]
fn escape_literal(text: &str) -> (r: String)
    ensures
        r@ == regex_escaped(text@),
{
    regex::escape(text)
}

/// What replacing every match of `pattern` in `text` by `rep` gives, or
/// none when the pattern does not compile.
pub uninterp spec fn regex_replaced(pattern: Seq<char>, text: Seq<char>, rep: Seq<char>) -> Option<
    Seq<char>,
>;

/// Relies on `regex::Regex::new` and `regex::Regex::replace_all`: every
/// non-overlapping match of the pattern, leftmost first, replaced by `rep`;
/// none when `Regex::new` refuses the pattern.
#[verifier::external_body]
fn replace_all_matches(pattern: &str, text: &str, rep: &str) -> (r: Option<String>)
    ensures
        r is Some <==> regex_replaced(pattern@, text@, rep@) is Some,
        r matches Some(s) ==> regex_replaced(pattern@, text@, rep@) == Some(s@),
{
    match regex::Regex::new(pattern) {
        Ok(re) => Some(re.replace_all(text, rep).into_owned()),
        Err(_) => None,
    }
}

/// The replaced text, or the text unchanged when the pattern does not compile.
pub open spec fn replaced_or_kept(pattern: Seq<char>, text: Seq<char>, rep: Seq<char>) -> Seq<char> {
    match regex_replaced(pattern, text, rep) {
        Some(s) => s,
        None => text,
    }
}

fn replace_or_keep(pattern: &str, text: &str, rep: &str) -> (r: String)
    ensures
        r@ == replaced_or_kept(pattern@, text@, rep@),
{
    match replace_all_matches(pattern, text, rep) {
        Some(s) => s,
        None => String::from_str(text),
    }
}

/// The characters `char::is_whitespace` accepts (Unicode White_Space).
pub open spec fn is_ws(c: char) -> bool {
    let u = c as u32;
    u == 0x20 || (0x09 <= u <= 0x0d) || u == 0x85 || u == 0xa0 || u == 0x1680 || (0x2000 <= u
        <= 0x200a) || u == 0x2028 || u == 0x2029 || u == 0x202f || u == 0x205f || u == 0x3000
}

pub fn is_whitespace(c: char) -> (r: bool)
    ensures
        r == is_ws(c),
{
    let u = c as u32;
    u == 0x20 || (0x09 <= u && u <= 0x0d) || u == 0x85 || u == 0xa0 || u == 0x1680 || (0x2000
        <= u && u <= 0x200a) || u == 0x2028 || u == 0x2029 || u == 0x202f || u == 0x205f || u
        == 0x3000
}

/// Bytes of a character in UTF-8.
pub open spec fn utf8_width(c: char) -> nat {
    let u = c as u32;
    if u < 0x80 {
        1
    } else if u < 0x800 {
        2
    } else if u < 0x10000 {
        3
    } else {
        4
    }
}

/// Bytes of a character sequence in UTF-8.
pub open spec fn utf8_len(s: Seq<char>) -> nat
    decreases s.len(),
{
    if s.len() == 0 {
        0
    } else {
        utf8_len(s.drop_last()) + utf8_width(s.last())
    }
}

/// Whitespace-separated words, scanning from `i` with the current word
/// `cur` and the finished words `acc`.
pub open spec fn split_from(s: Seq<char>, i: int, cur: Seq<char>, acc: Seq<Seq<char>>) -> Seq<
    Seq<char>,
>
    decreases s.len() - i,
{
    if i >= s.len() {
        if cur.len() > 0 {
            acc.push(cur)
        } else {
            acc
        }
    } else if is_ws(s[i]) {
        split_from(
            s,
            i + 1,
            Seq::empty(),
            if cur.len() > 0 {
                acc.push(cur)
            } else {
                acc
            },
        )
    } else {
        split_from(s, i + 1, cur.push(s[i]), acc)
    }
}

/// The words of `s`, as `str::split_whitespace` gives them.
pub open spec fn words_of(s: Seq<char>) -> Seq<Seq<char>> {
    split_from(s, 0, Seq::empty(), Seq::empty())
}

/// Words joined with single spaces.
pub open spec fn join_words(ws: Seq<Seq<char>>) -> Seq<char>
    decreases ws.len(),
{
    if ws.len() == 0 {
        Seq::empty()
    } else if ws.len() == 1 {
        ws[0]
    } else {
        join_words(ws.drop_last()) + seq![' '] + ws.last()
    }
}

/// A word of at most two bytes, all alphabetic, once lowercased.
pub open spec fn short_alpha(lw: Seq<char>) -> bool {
    utf8_len(lw) <= 2 && forall|k: int| 0 <= k < lw.len() ==> alphabetic(#[trigger] lw[k])
}

/// Length of the run of words from `j` whose lowercase form is `lw`.
pub open spec fn repeat_run(ws: Seq<Seq<char>>, j: int, lw: Seq<char>) -> nat
    decreases ws.len() - j,
{
    if j < 0 || j >= ws.len() || lower_of(ws[j]) != lw {
        0
    } else {
        1 + repeat_run(ws, j + 1, lw)
    }
}

/// Where the scan continues after word `i`: past a run of three or more
/// repetitions of a short alphabetic word, else at the next word.
pub open spec fn next_word(ws: Seq<Seq<char>>, i: int) -> int {
    let lw = lower_of(ws[i]);
    let count = 1 + repeat_run(ws, i + 1, lw);
    if short_alpha(lw) && count >= 3 {
        if i + count <= ws.len() {
            i + count
        } else {
            ws.len() as int
        }
    } else {
        i + 1
    }
}

/// The words kept from `i` on: each word is kept, and a run of three or
/// more repetitions (ignoring case) of a short alphabetic word collapses
/// to its first word.
pub open spec fn collapse_from(ws: Seq<Seq<char>>, i: int) -> Seq<Seq<char>>
    decreases ws.len() - i,
{
    if i < 0 || i >= ws.len() {
        Seq::empty()
    } else {
        seq![ws[i]] + collapse_from(ws, next_word(ws, i))
    }
}

/// The text with stutters collapsed and words joined by single spaces; a
/// text without words stays as it is.
pub open spec fn collapse_text(t: Seq<char>) -> Seq<char> {
    if words_of(t).len() == 0 {
        t
    } else {
        join_words(collapse_from(words_of(t), 0))
    }
}

fn split_words(s: &[char]) -> (r: Vec<Vec<char>>)
    ensures
        r@.map_values(|w: Vec<char>| w@) == words_of(s@),
{
    let mut acc: Vec<Vec<char>> = Vec::new();
    let mut cur: Vec<char> = Vec::new();
    let mut i: usize = 0;
    assert(acc@.map_values(|w: Vec<char>| w@) =~= Seq::<Seq<char>>::empty());
    assert(cur@ =~= Seq::<char>::empty());
    while i < s.len()
        invariant
            i <= s@.len(),
            split_from(s@, i as int, cur@, acc@.map_values(|w: Vec<char>| w@)) == words_of(s@),
        decreases s@.len() - i,
    {
        let ghost a0 = acc@.map_values(|w: Vec<char>| w@);
        let ghost c0 = cur@;
        if is_whitespace(s[i]) {
            if cur.len() > 0 {
                acc.push(cur);
                assert(acc@.map_values(|w: Vec<char>| w@) =~= a0.push(c0));
                cur = Vec::new();
            } else {
                assert(c0 =~= Seq::<char>::empty());
            }
            assert(cur@ =~= Seq::<char>::empty());
        } else {
            cur.push(s[i]);
            assert(cur@ =~= c0.push(s@[i as int]));
        }
        i = i + 1;
    }
    if cur.len() > 0 {
        let ghost a0 = acc@.map_values(|w: Vec<char>| w@);
        let ghost c0 = cur@;
        acc.push(cur);
        assert(acc@.map_values(|w: Vec<char>| w@) =~= a0.push(c0));
    }
    acc
}

pub(crate) fn chars_equal(a: &[char], b: &[char]) -> (r: bool)
    ensures
        r == (a@ == b@),
{
    if a.len() != b.len() {
        return false;
    }
    let mut i: usize = 0;
    while i < a.len()
        invariant
            a@.len() == b@.len(),
            i <= a@.len(),
            forall|k: int| 0 <= k < i ==> a@[k] == b@[k],
        decreases a@.len() - i,
    {
        if a[i] != b[i] {
            return false;
        }
        i = i + 1;
    }
    assert(a@ =~= b@);
    true
}

fn is_short_alpha(lw: &[char]) -> (r: bool)
    ensures
        r == short_alpha(lw@),
{
    let mut bytes: usize = 0;
    let mut i: usize = 0;
    while i < lw.len()
        invariant
            i <= lw@.len(),
            bytes == utf8_len(lw@.take(i as int)),
            bytes <= 2,
            forall|k: int| 0 <= k < i ==> alphabetic(#[trigger] lw@[k]),
        decreases lw@.len() - i,
    {
        assert(lw@.take(i + 1).drop_last() =~= lw@.take(i as int));
        let c = lw[i];
        let u = c as u32;
        let w: usize = if u < 0x80 {
            1
        } else if u < 0x800 {
            2
        } else if u < 0x10000 {
            3
        } else {
            4
        };
        if bytes + w > 2 {
            proof {
                lemma_utf8_len_prefix(lw@, i as int + 1);
            }
            return false;
        }
        if !is_alpha(c) {
            return false;
        }
        bytes = bytes + w;
        i = i + 1;
    }
    assert(lw@.take(i as int) =~= lw@);
    true
}

proof fn lemma_utf8_len_prefix(s: Seq<char>, k: int)
    requires
        0 <= k <= s.len(),
    ensures
        utf8_len(s.take(k)) <= utf8_len(s),
    decreases s.len() - k,
{
    if k < s.len() {
        lemma_utf8_len_prefix(s, k + 1);
        assert(s.take(k + 1).drop_last() =~= s.take(k));
    } else {
        assert(s.take(k) =~= s);
    }
}

proof fn lemma_repeat_run_bound(ws: Seq<Seq<char>>, j: int, lw: Seq<char>)
    requires
        0 <= j,
    ensures
        repeat_run(ws, j, lw) <= if j <= ws.len() {
            ws.len() - j
        } else {
            0
        },
    decreases ws.len() - j,
{
    if j < ws.len() && lower_of(ws[j]) == lw {
        lemma_repeat_run_bound(ws, j + 1, lw);
    }
}

/// Collapses three or more repetitions of a one- or two-letter word
/// (ignoring case) to the first one, e.g. "wh wh wh why" to "wh why".
pub fn collapse_stutters(text: &str) -> (r: String)
    ensures
        r@ == collapse_text(text@),
{
    let chars = to_chars(text);
    let words = split_words(&chars);
    let ghost ws = words@.map_values(|w: Vec<char>| w@);
    if words.len() == 0 {
        return from_chars(&chars);
    }
    let n = words.len();
    let mut lowers: Vec<Vec<char>> = Vec::new();
    let mut j: usize = 0;
    while j < n
        invariant
            n == words@.len(),
            ws == words@.map_values(|w: Vec<char>| w@),
            j <= n,
            lowers@.len() == j,
            forall|m: int| 0 <= m < j ==> (#[trigger] lowers@[m])@ == lower_of(ws[m]),
        decreases n - j,
    {
        let word = from_chars(words[j].as_slice());
        let lower = lowercase(word.as_str());
        lowers.push(to_chars(lower.as_str()));
        j = j + 1;
    }
    let mut out: Vec<char> = Vec::new();
    let ghost mut kept: Seq<Seq<char>> = Seq::empty();
    let mut i: usize = 0;
    while i < n
        invariant
            n == words@.len(),
            n == lowers@.len(),
            ws == words@.map_values(|w: Vec<char>| w@),
            forall|m: int| 0 <= m < n ==> (#[trigger] lowers@[m])@ == lower_of(ws[m]),
            i <= n,
            kept + collapse_from(ws, i as int) == collapse_from(ws, 0),
            out@ == join_words(kept),
            i > 0 ==> kept.len() > 0,
        decreases n - i,
    {
        let ghost k0 = kept;
        let lw = &lowers[i];
        let mut step: usize = 1;
        if is_short_alpha(lw.as_slice()) {
            let mut count: usize = 1;
            while i + count < n && chars_equal(lowers[i + count].as_slice(), lw.as_slice())
                invariant
                    n == lowers@.len(),
                    n == ws.len(),
                    forall|m: int| 0 <= m < n ==> (#[trigger] lowers@[m])@ == lower_of(ws[m]),
                    i < n,
                    lw@ == lower_of(ws[i as int]),
                    1 <= count <= n - i,
                    1 + repeat_run(ws, i + 1, lw@) == count + repeat_run(ws, i + count, lw@),
                decreases n - i - count,
            {
                count = count + 1;
            }
            assert(repeat_run(ws, i + count, lw@) == 0);
            if count >= 3 {
                step = count;
            }
        }
        proof {
            lemma_repeat_run_bound(ws, i + 1, lower_of(ws[i as int]));
        }
        assert(next_word(ws, i as int) == i + step);
        let ghost before = out@;
        if i > 0 {
            out.push(' ');
        }
        let w = &words[i];
        let mut t: usize = 0;
        let ghost mid = out@;
        while t < w.len()
            invariant
                t <= w@.len(),
                out@ == mid + w@.subrange(0, t as int),
            decreases w@.len() - t,
        {
            out.push(w[t]);
            t = t + 1;
            assert(out@ =~= mid + w@.subrange(0, t as int));
        }
        assert(w@.subrange(0, t as int) =~= w@);
        proof {
            kept = kept.push(ws[i as int]);
            assert(kept.drop_last() =~= k0);
            if k0.len() == 0 {
                assert(before =~= Seq::<char>::empty());
                assert(out@ =~= ws[i as int]);
            } else {
                assert(out@ =~= join_words(k0) + seq![' '] + ws[i as int]);
            }
            assert(collapse_from(ws, i as int) =~= seq![ws[i as int]] + collapse_from(
                ws,
                i + step,
            ));
            assert(k0 + collapse_from(ws, i as int) =~= kept + collapse_from(ws, i + step));
        }
        i = i + step;
    }
    assert(kept =~= collapse_from(ws, 0));
    from_chars(out.as_slice())
}

/// The text without leading whitespace.
pub open spec fn trim_start(s: Seq<char>) -> Seq<char>
    decreases s.len(),
{
    if s.len() > 0 && is_ws(s[0]) {
        trim_start(s.drop_first())
    } else {
        s
    }
}

/// The text without trailing whitespace.
pub open spec fn trim_end(s: Seq<char>) -> Seq<char>
    decreases s.len(),
{
    if s.len() > 0 && is_ws(s.last()) {
        trim_end(s.drop_last())
    } else {
        s
    }
}

/// The text without leading and trailing whitespace, as `str::trim` gives it.
pub open spec fn trim_ws(s: Seq<char>) -> Seq<char> {
    trim_end(trim_start(s))
}

pub fn trim_whitespace(s: &[char]) -> (r: Vec<char>)
    ensures
        r@ == trim_ws(s@),
{
    let n = s.len();
    let mut a: usize = 0;
    assert(s@.subrange(0, n as int) =~= s@);
    while a < n && is_whitespace(s[a])
        invariant
            n == s@.len(),
            a <= n,
            trim_start(s@.subrange(a as int, n as int)) == trim_start(s@),
        decreases n - a,
    {
        assert(s@.subrange(a + 1, n as int) =~= s@.subrange(a as int, n as int).drop_first());
        a = a + 1;
    }
    assert(trim_start(s@) == s@.subrange(a as int, n as int));
    let mut b: usize = n;
    while b > a && is_whitespace(s[b - 1])
        invariant
            n == s@.len(),
            a <= b <= n,
            trim_end(s@.subrange(a as int, b as int)) == trim_ws(s@),
        decreases b - a,
    {
        assert(s@.subrange(a as int, b - 1) =~= s@.subrange(a as int, b as int).drop_last());
        b = b - 1;
    }
    let r = vstd::slice::slice_to_vec(vstd::slice::slice_subrange(s, a, b));
    r
}

/// Number of hallucination markers.
pub const HALLUCINATION_COUNT: usize = 10;

/// Marker `i` of a known transcription hallucination (compared lowercased).
pub open spec fn hallucination_marker(i: int) -> &'static str {
    if i == 0 {
        "untertitelung des zdf"
    } else if i == 1 {
        "untertitel des zdf"
    } else if i == 2 {
        "copyright"
    } else if i == 3 {
        "© 20"
    } else if i == 4 {
        "untertitelung"
    } else if i == 5 {
        "subtitles"
    } else if i == 6 {
        "danke fürs zuschauen"
    } else if i == 7 {
        "thanks for watching"
    } else if i == 8 {
        "subscribe"
    } else {
        "abonnieren"
    }
}

fn hallucination_entry(i: usize) -> (r: &'static str)
    requires
        i < HALLUCINATION_COUNT,
    ensures
        r == hallucination_marker(i as int),
{
    if i == 0 {
        "untertitelung des zdf"
    } else if i == 1 {
        "untertitel des zdf"
    } else if i == 2 {
        "copyright"
    } else if i == 3 {
        "© 20"
    } else if i == 4 {
        "untertitelung"
    } else if i == 5 {
        "subtitles"
    } else if i == 6 {
        "danke fürs zuschauen"
    } else if i == 7 {
        "thanks for watching"
    } else if i == 8 {
        "subscribe"
    } else {
        "abonnieren"
    }
}

/// Number of filler words.
pub const FILLER_COUNT: usize = 36;

/// Filler word `i` (English, then German).
pub open spec fn filler_word(i: int) -> &'static str {
    if i == 0 { "uh" } else if i == 1 { "um" } else if i == 2 { "uhm" } else if i == 3 { "umm" }
    else if i == 4 { "uhh" } else if i == 5 { "uhhh" } else if i == 6 { "ah" } else if i == 7 {
        "eh"
    } else if i == 8 { "hmm" } else if i == 9 { "hm" } else if i == 10 { "mmm" } else if i
        == 11 { "mm" } else if i == 12 { "mh" } else if i == 13 { "ha" } else if i == 14 {
        "ehh"
    } else if i == 15 { "er" } else if i == 16 { "err" } else if i == 17 { "äh" } else if i
        == 18 { "ähm" } else if i == 19 { "äähm" } else if i == 20 { "öhm" } else if i == 21 {
        "ohm"
    } else if i == 22 { "mhm" } else if i == 23 { "hmm" } else if i == 24 { "naja" } else if i
        == 25 { "also" } else if i == 26 { "halt" } else if i == 27 { "eben" } else if i == 28 {
        "genau"
    } else if i == 29 { "quasi" } else if i == 30 { "sozusagen" } else if i == 31 {
        "eigentlich"
    } else if i == 32 { "ja" } else if i == 33 { "ne" } else if i == 34 { "gell" } else {
        "oder"
    }
}

fn filler_entry(i: usize) -> (r: &'static str)
    requires
        i < FILLER_COUNT,
    ensures
        r == filler_word(i as int),
{
    if i == 0 { "uh" } else if i == 1 { "um" } else if i == 2 { "uhm" } else if i == 3 { "umm" }
    else if i == 4 { "uhh" } else if i == 5 { "uhhh" } else if i == 6 { "ah" } else if i == 7 {
        "eh"
    } else if i == 8 { "hmm" } else if i == 9 { "hm" } else if i == 10 { "mmm" } else if i
        == 11 { "mm" } else if i == 12 { "mh" } else if i == 13 { "ha" } else if i == 14 {
        "ehh"
    } else if i == 15 { "er" } else if i == 16 { "err" } else if i == 17 { "äh" } else if i
        == 18 { "ähm" } else if i == 19 { "äähm" } else if i == 20 { "öhm" } else if i == 21 {
        "ohm"
    } else if i == 22 { "mhm" } else if i == 23 { "hmm" } else if i == 24 { "naja" } else if i
        == 25 { "also" } else if i == 26 { "halt" } else if i == 27 { "eben" } else if i == 28 {
        "genau"
    } else if i == 29 { "quasi" } else if i == 30 { "sozusagen" } else if i == 31 {
        "eigentlich"
    } else if i == 32 { "ja" } else if i == 33 { "ne" } else if i == 34 { "gell" } else {
        "oder"
    }
}

/// The pattern for filler word `i`: the escaped word between word
/// boundaries, case-insensitive, with one optional comma or period after it.
pub open spec fn filler_pattern(i: int) -> Seq<char> {
    "(?i)\\b"@ + regex_escaped(filler_word(i)@) + "\\b[,.]?"@
}

/// The text after removing the first `k` filler words in order.
pub open spec fn strip_fillers(t: Seq<char>, k: int) -> Seq<char>
    decreases k,
{
    if k <= 0 {
        t
    } else {
        replaced_or_kept(filler_pattern(k - 1), strip_fillers(t, k - 1), Seq::empty())
    }
}

/// Whether the lowercased text holds a hallucination marker.
pub open spec fn has_hallucination(lower: Seq<char>) -> bool {
    exists|i: int| 0 <= i < HALLUCINATION_COUNT && seq_contains(lower, #[trigger] hallucination_marker(i)@)
}

/// The cleaned text: empty for a hallucination; otherwise fillers removed,
/// stutters collapsed, runs of two or more whitespace characters made one
/// space, and the ends trimmed. A pattern that does not compile (none of
/// these constant patterns fails) leaves its step without effect.
pub open spec fn filtered_text(text: Seq<char>) -> Seq<char> {
    if has_hallucination(lower_of(text)) {
        Seq::empty()
    } else {
        trim_ws(
            replaced_or_kept(
                "\\s{2,}"@,
                collapse_text(strip_fillers(text, FILLER_COUNT as int)),
                " "@,
            ),
        )
    }
}

/// Cleans raw transcription output (see `filtered_text`).
pub fn filter_transcription_output(text: &str) -> (r: String)
    ensures
        r@ == filtered_text(text@),
{
    let lower = lowercase(text);
    let lower_chars = to_chars(lower.as_str());
    let mut i: usize = 0;
    while i < HALLUCINATION_COUNT
        invariant
            lower_chars@ == lower_of(text@),
            i <= HALLUCINATION_COUNT,
            forall|m: int| 0 <= m < i ==> !seq_contains(lower_chars@, #[trigger] hallucination_marker(m)@),
        decreases HALLUCINATION_COUNT - i,
    {
        let marker = to_chars(hallucination_entry(i));
        if chars_contain(&lower_chars, &marker) {
            return String::new();
        }
        i = i + 1;
    }
    let mut filtered = String::from_str(text);
    let mut k: usize = 0;
    while k < FILLER_COUNT
        invariant
            k <= FILLER_COUNT,
            filtered@ == strip_fillers(text@, k as int),
        decreases FILLER_COUNT - k,
    {
        let mut pattern = String::from_str("(?i)\\b");
        let escaped = escape_literal(filler_entry(k));
        pattern.append(escaped.as_str());
        pattern.append("\\b[,.]?");
        proof {
            reveal_strlit("");
            assert(""@ =~= Seq::<char>::empty());
        }
        filtered = replace_or_keep(pattern.as_str(), filtered.as_str(), "");
        k = k + 1;
    }
    let collapsed = collapse_stutters(filtered.as_str());
    let spaced = replace_or_keep("\\s{2,}", collapsed.as_str(), " ");
    let spaced_chars = to_chars(spaced.as_str());
    let trimmed = trim_whitespace(&spaced_chars);
    from_chars(&trimmed)
}

} // verus!
