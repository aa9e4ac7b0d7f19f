//! Video encoders: reading the list that `ffmpeg -encoders` prints, and
//! choosing the encoder to record with.

use vstd::prelude::*;
use crate::text::{chars_of, has_prefix, string_from_chars};

verus! {

// ---------------------------------------------------------------------------
// Lines of text
// ---------------------------------------------------------------------------

/// The first position at or after `p` that holds a line feed, or the length
/// of `s` when there is none.
pub open spec fn next_newline(s: Seq<char>, p: int) -> int
    decreases s.len() - p,
{
    if p >= s.len() {
        s.len() as int
    } else if s[p] == '\n' {
        p
    } else {
        next_newline(s, p + 1)
    }
}

pub proof fn lemma_next_newline_bounds(s: Seq<char>, p: int)
    requires
        0 <= p <= s.len(),
    ensures
        p <= next_newline(s, p) <= s.len(),
        next_newline(s, p) < s.len() ==> s[next_newline(s, p)] == '\n',
        forall|j: int| p <= j < next_newline(s, p) ==> s[j] != '\n',
    decreases s.len() - p,
{
    if p < s.len() && s[p] != '\n' {
        lemma_next_newline_bounds(s, p + 1);
    }
}

/// The line that starts at `p` and whose line feed (or the end of the text)
/// is at `e`; a carriage return just before the line feed is not part of it.
pub open spec fn line_at(s: Seq<char>, p: int, e: int) -> Seq<char> {
    if e < s.len() && p < e && s[e - 1] == '\r' {
        s.subrange(p, e - 1)
    } else {
        s.subrange(p, e)
    }
}

/// The lines of `s` from position `p` on, as `str::lines` yields them: split
/// at line feeds, a final line feed ends the last line rather than starting
/// an empty one, and `\r\n` counts as one line ending.
pub open spec fn lines_from(s: Seq<char>, p: int) -> Seq<Seq<char>>
    decreases s.len() + 1 - p,
{
    if p < 0 || p >= s.len() {
        seq![]
    } else {
        let e = next_newline(s, p);
        proof {
            lemma_next_newline_bounds(s, p);
        }
        seq![line_at(s, p, e)] + lines_from(s, e + 1)
    }
}

/// The lines of `s`.
pub open spec fn lines(s: Seq<char>) -> Seq<Seq<char>> {
    lines_from(s, 0)
}

// ---------------------------------------------------------------------------
// Whitespace-separated words
// ---------------------------------------------------------------------------

/// Characters with the Unicode `White_Space` property, as `char::is_whitespace`
/// knows them.
pub open spec fn is_ws(c: char) -> bool {
    ||| '\u{9}' <= c <= '\u{d}'
    ||| c == ' '
    ||| c == '\u{85}'
    ||| c == '\u{a0}'
    ||| c == '\u{1680}'
    ||| '\u{2000}' <= c <= '\u{200a}'
    ||| c == '\u{2028}'
    ||| c == '\u{2029}'
    ||| c == '\u{202f}'
    ||| c == '\u{205f}'
    ||| c == '\u{3000}'
}

/// Whether `c` is whitespace.
pub fn is_whitespace(c: char) -> (r: bool)
    ensures
        r == is_ws(c),
{
    ('\u{9}' <= c && c <= '\u{d}') || c == ' ' || c == '\u{85}' || c == '\u{a0}' || c
        == '\u{1680}' || ('\u{2000}' <= c && c <= '\u{200a}') || c == '\u{2028}' || c
        == '\u{2029}' || c == '\u{202f}' || c == '\u{205f}' || c == '\u{3000}'
}

/// The first position at or after `i` that is not whitespace (or the end).
pub open spec fn skip_ws(s: Seq<char>, i: int) -> int
    decreases s.len() - i,
{
    if i >= s.len() {
        s.len() as int
    } else if is_ws(s[i]) {
        skip_ws(s, i + 1)
    } else {
        i
    }
}

/// The first position at or after `i` that is whitespace (or the end).
pub open spec fn skip_word(s: Seq<char>, i: int) -> int
    decreases s.len() - i,
{
    if i >= s.len() {
        s.len() as int
    } else if !is_ws(s[i]) {
        skip_word(s, i + 1)
    } else {
        i
    }
}

pub proof fn lemma_skip_bounds(s: Seq<char>, i: int)
    requires
        0 <= i <= s.len(),
    ensures
        i <= skip_ws(s, i) <= s.len(),
        i <= skip_word(s, i) <= s.len(),
        skip_ws(s, i) < s.len() ==> !is_ws(s[skip_ws(s, i)]),
        i < s.len() && !is_ws(s[i]) ==> i < skip_word(s, i),
    decreases s.len() - i,
{
    if i < s.len() {
        lemma_skip_bounds(s, i + 1);
    }
}

/// The words of `s` from position `i` on: the maximal runs of characters
/// that are not whitespace, as `str::split_whitespace` yields them.
pub open spec fn words_from(s: Seq<char>, i: int) -> Seq<Seq<char>>
    decreases s.len() - i,
{
    if i < 0 || i > s.len() {
        seq![]
    } else {
        let a = skip_ws(s, i);
        proof {
            lemma_skip_bounds(s, i);
        }
        if a >= s.len() {
            seq![]
        } else {
            let b = skip_word(s, a);
            proof {
                lemma_skip_bounds(s, a);
            }
            seq![s.subrange(a, b)] + words_from(s, b)
        }
    }
}

/// The whitespace-separated words of `s`.
pub open spec fn words(s: Seq<char>) -> Seq<Seq<char>> {
    words_from(s, 0)
}

fn skip_ws_exec(s: &Vec<char>, i: usize) -> (r: usize)
    requires
        i <= s@.len(),
    ensures
        r == skip_ws(s@, i as int),
{
    let mut j = i;
    while j < s.len() && is_whitespace(s[j])
        invariant
            i <= j <= s@.len(),
            skip_ws(s@, i as int) == skip_ws(s@, j as int),
        decreases s@.len() - j,
    {
        j = j + 1;
    }
    j
}

fn skip_word_exec(s: &Vec<char>, i: usize) -> (r: usize)
    requires
        i <= s@.len(),
    ensures
        r == skip_word(s@, i as int),
{
    let mut j = i;
    while j < s.len() && !is_whitespace(s[j])
        invariant
            i <= j <= s@.len(),
            skip_word(s@, i as int) == skip_word(s@, j as int),
        decreases s@.len() - j,
    {
        j = j + 1;
    }
    j
}

/// The characters of `s` from `from` up to `to`.
pub fn slice_chars(s: &Vec<char>, from: usize, to: usize) -> (v: Vec<char>)
    requires
        from <= to <= s@.len(),
    ensures
        v@ == s@.subrange(from as int, to as int),
{
    let mut v: Vec<char> = Vec::new();
    let mut k = from;
    while k < to
        invariant
            from <= k <= to <= s@.len(),
            v@ == s@.subrange(from as int, k as int),
        decreases to - k,
    {
        v.push(s[k]);
        k = k + 1;
        assert(v@ =~= s@.subrange(from as int, k as int));
    }
    v
}

// ---------------------------------------------------------------------------
// The encoder list
// ---------------------------------------------------------------------------

/// A line of the encoder list that describes a video encoder begins with a
/// space and `V`; the encoder's name is its second word.
pub open spec fn line_encoder(line: Seq<char>) -> Seq<Seq<char>> {
    if has_prefix(line, seq![' ', 'V']) && words(line).len() >= 2 {
        seq![words(line)[1]]
    } else {
        seq![]
    }
}

/// The names of the video encoders that the given lines describe, in order.
pub open spec fn encoder_names(ls: Seq<Seq<char>>) -> Seq<Seq<char>>
    decreases ls.len(),
{
    if ls.len() == 0 {
        seq![]
    } else {
        line_encoder(ls[0]) + encoder_names(ls.drop_first())
    }
}

/// A rule line: nothing but spaces and dashes, with at least one dash. The
/// encoder list puts one (` ------`) between its legend and its table.
pub open spec fn is_rule(line: Seq<char>) -> bool {
    &&& exists|i: int| 0 <= i < line.len() && line[i] == '-'
    &&& forall|i: int| 0 <= i < line.len() ==> line[i] == ' ' || line[i] == '-'
}

/// The position of the first rule line at or after `k`, or -1.
pub open spec fn first_rule_from(ls: Seq<Seq<char>>, k: int) -> int
    decreases ls.len() - k,
{
    if k < 0 || k >= ls.len() {
        -1
    } else if is_rule(ls[k]) {
        k
    } else {
        first_rule_from(ls, k + 1)
    }
}

/// The lines of the encoder table: those after the first rule line, which
/// ends the legend; all lines when there is no rule line.
pub open spec fn table_lines(ls: Seq<Seq<char>>) -> Seq<Seq<char>> {
    let r = first_rule_from(ls, 0);
    if r < 0 {
        ls
    } else {
        ls.skip(r + 1)
    }
}

/// The video encoders listed in the text that `ffmpeg -encoders` prints:
/// the legend before the rule line (` V..... = Video` and the like) is not
/// read.
pub open spec fn listed_encoders(text: Seq<char>) -> Seq<Seq<char>> {
    encoder_names(table_lines(lines(text)))
}

/// The views of a list of character vectors.
pub open spec fn line_views(v: Seq<Vec<char>>) -> Seq<Seq<char>> {
    v.map_values(|l: Vec<char>| l@)
}

/// The views of a list of strings.
pub open spec fn views(v: Seq<String>) -> Seq<Seq<char>> {
    v.map_values(|s: String| s@)
}

fn line_encoder_exec(line: &Vec<char>) -> (r: Option<Vec<char>>)
    ensures
        match r {
            Some(name) => line_encoder(line@) == seq![name@],
            None => line_encoder(line@) == Seq::<Seq<char>>::empty(),
        },
{
    let n = line.len();
    let ghost s = line@;
    if !(n >= 2 && line[0] == ' ' && line[1] == 'V') {
        proof {
            if has_prefix(s, seq![' ', 'V']) {
                assert(s.subrange(0, 2)[0] == ' ');
                assert(s.subrange(0, 2)[1] == 'V');
            }
        }
        return None;
    }
    assert(s.subrange(0, 2) =~= seq![' ', 'V']);
    let a0 = skip_ws_exec(line, 0);
    proof {
        lemma_skip_bounds(s, 0);
    }
    if a0 >= n {
        return None;
    }
    let b0 = skip_word_exec(line, a0);
    proof {
        lemma_skip_bounds(s, a0 as int);
    }
    let a1 = skip_ws_exec(line, b0);
    proof {
        lemma_skip_bounds(s, b0 as int);
    }
    if a1 >= n {
        assert(words_from(s, b0 as int) =~= Seq::<Seq<char>>::empty());
        assert(words(s).len() == 1);
        return None;
    }
    let b1 = skip_word_exec(line, a1);
    proof {
        lemma_skip_bounds(s, a1 as int);
        assert(words(s) == seq![s.subrange(a0 as int, b0 as int)] + words_from(s, b0 as int));
        assert(words_from(s, b0 as int) == seq![s.subrange(a1 as int, b1 as int)] + words_from(
            s,
            b1 as int,
        ));
    }
    Some(slice_chars(line, a1, b1))
}

/// Splits the text into its lines.
pub fn split_lines(s: &Vec<char>) -> (ls: Vec<Vec<char>>)
    ensures
        line_views(ls@) == lines(s@),
{
    let n = s.len();
    let mut ls: Vec<Vec<char>> = Vec::new();
    let mut p: usize = 0;
    assert(line_views(ls@) + lines_from(s@, 0) =~= lines_from(s@, 0));
    while p < n
        invariant
            n == s@.len(),
            p <= n,
            line_views(ls@) + lines_from(s@, p as int) == lines_from(s@, 0),
        decreases n - p,
    {
        let mut e = p;
        while e < n && s[e] != '\n'
            invariant
                p <= e <= n,
                n == s@.len(),
                next_newline(s@, p as int) == next_newline(s@, e as int),
            decreases n - e,
        {
            e = e + 1;
        }
        let end = if e < n && p < e && s[e - 1] == '\r' {
            e - 1
        } else {
            e
        };
        let line = slice_chars(s, p, end);
        assert(line@ == line_at(s@, p as int, e as int));
        let ghost old_views = line_views(ls@);
        let ghost lv = line@;
        ls.push(line);
        assert(line_views(ls@) =~= old_views.push(lv));
        let ghost rest = lines_from(s@, e + 1);
        assert(lines_from(s@, p as int) == seq![lv] + rest);
        p = if e < n {
            e + 1
        } else {
            n
        };
        assert(lines_from(s@, p as int) == rest);
        assert(line_views(ls@) + rest =~= old_views + (seq![lv] + rest));
    }
    assert(lines_from(s@, p as int) =~= Seq::<Seq<char>>::empty());
    assert(line_views(ls@) =~= line_views(ls@) + Seq::<Seq<char>>::empty());
    ls
}

/// Whether the line is a rule line.
fn is_rule_exec(line: &Vec<char>) -> (r: bool)
    ensures
        r == is_rule(line@),
{
    let mut dash = false;
    let mut i: usize = 0;
    while i < line.len()
        invariant
            i <= line@.len(),
            forall|j: int| 0 <= j < i ==> line@[j] == ' ' || line@[j] == '-',
            dash == exists|j: int| 0 <= j < i && line@[j] == '-',
        decreases line@.len() - i,
    {
        let c = line[i];
        if c != ' ' && c != '-' {
            return false;
        }
        if c == '-' {
            dash = true;
        }
        i = i + 1;
        assert(dash == exists|j: int| 0 <= j < i && line@[j] == '-') by {
            if dash && c != '-' {
                let j = choose|j: int| 0 <= j < i - 1 && line@[j] == '-';
            }
        }
    }
    dash
}

/// Where the encoder table begins: just after the first rule line, or at
/// the first line when there is none.
fn table_start(ls: &Vec<Vec<char>>) -> (k: usize)
    ensures
        k <= ls@.len(),
        line_views(ls@).skip(k as int) == table_lines(line_views(ls@)),
{
    let ghost v = line_views(ls@);
    let mut i: usize = 0;
    while i < ls.len()
        invariant
            i <= ls@.len(),
            v == line_views(ls@),
            first_rule_from(v, 0) == first_rule_from(v, i as int),
        decreases ls@.len() - i,
    {
        assert(v[i as int] == ls@[i as int]@);
        if is_rule_exec(&ls[i]) {
            return i + 1;
        }
        i = i + 1;
    }
    assert(v.skip(0) =~= v);
    0
}

/// Reads the names of the video encoders from the text that
/// `ffmpeg -hide_banner -encoders` prints: below the rule line that ends
/// the legend (or throughout, when there is none), the second word of every
/// line that begins with " V", in the order of the lines.
pub fn parse_encoders(text: &str) -> (names: Vec<String>)
    ensures
        views(names@) == listed_encoders(text@),
{
    let s = chars_of(text);
    let ls = split_lines(&s);
    let start = table_start(&ls);
    let ghost v = line_views(ls@);
    let mut names: Vec<String> = Vec::new();
    let mut i = start;
    assert(views(names@) + encoder_names(v.skip(start as int)) =~= encoder_names(v.skip(start as int)));
    while i < ls.len()
        invariant
            start <= i <= ls@.len(),
            v == line_views(ls@),
            views(names@) + encoder_names(v.skip(i as int)) == encoder_names(v.skip(start as int)),
        decreases ls@.len() - i,
    {
        let ghost old_names = views(names@);
        let ghost tail = v.skip(i as int);
        assert(tail[0] == ls@[i as int]@);
        assert(tail.drop_first() =~= v.skip(i + 1));
        match line_encoder_exec(&ls[i]) {
            Some(name) => {
                names.push(string_from_chars(&name));
                assert(views(names@) =~= old_names + line_encoder(tail[0]));
            },
            None => {
                assert(old_names + line_encoder(tail[0]) =~= old_names);
            },
        }
        i = i + 1;
        assert(views(names@) + encoder_names(v.skip(i as int)) =~= old_names + encoder_names(tail));
    }
    assert(v.skip(i as int) =~= Seq::<Seq<char>>::empty());
    assert(views(names@) =~= views(names@) + encoder_names(v.skip(i as int)));
    names
}

/// Name for what `String::from_utf8_lossy` makes of a byte string: the text
/// it decodes, with U+FFFD in place of each invalid sequence.
pub uninterp spec fn utf8_lossy(bytes: Seq<u8>) -> Seq<char>;

/// Calls `String::from_utf8_lossy`. Its contract claims that the result is
/// `utf8_lossy` of the bytes, and that valid UTF-8 is decoded unchanged.
#[verifier::external_body]
fn decode_utf8_lossy(bytes: &[u8]) -> (text: String)
    ensures
        text@ == utf8_lossy(bytes@),
        vstd::utf8::valid_utf8(bytes@) ==> text@ == vstd::utf8::decode_utf8(bytes@),
{
    String::from_utf8_lossy(bytes).into_owned()
}

/// Reads the video encoders from the raw standard output of
/// `ffmpeg -hide_banner -encoders`, decoded as `String::from_utf8_lossy` does.
pub fn encoders_from_output(stdout: &[u8]) -> (names: Vec<String>)
    ensures
        views(names@) == listed_encoders(utf8_lossy(stdout@)),
        vstd::utf8::valid_utf8(stdout@) ==> views(names@) == listed_encoders(
            vstd::utf8::decode_utf8(stdout@),
        ),
{
    let text = decode_utf8_lossy(stdout);
    parse_encoders(text.as_str())
}


// ---------------------------------------------------------------------------
// Choosing an encoder
// ---------------------------------------------------------------------------

/// The encoders tried, best first: AV1 in software, then AV1, HEVC and H.264
/// on the GPU, then VP9 in software.
pub open spec fn codec_priority() -> Seq<Seq<char>> {
    seq![
        "libsvtav1"@,
        "av1_nvenc"@,
        "hevc_vaapi"@,
        "h264_vaapi"@,
        "hevc_nvenc"@,
        "h264_nvenc"@,
        "libvpx-vp9"@,
    ]
}

/// The encoder used when none of the preferred ones is available.
pub open spec fn fallback_codec() -> Seq<char> {
    "libx264"@
}

/// The first of `prio` that `available` holds, or the fallback.
pub open spec fn first_available(prio: Seq<Seq<char>>, available: Seq<Seq<char>>) -> Seq<char>
    decreases prio.len(),
{
    if prio.len() == 0 {
        fallback_codec()
    } else if available.contains(prio[0]) {
        prio[0]
    } else {
        first_available(prio.drop_first(), available)
    }
}

/// The encoder chosen from the available ones.
pub open spec fn best_codec(available: Seq<Seq<char>>) -> Seq<char> {
    first_available(codec_priority(), available)
}

/// Whether `available` holds a string equal to `name`.
fn holds(available: &[String], name: &str) -> (r: bool)
    ensures
        r == views(available@).contains(name@),
{
    let mut i: usize = 0;
    while i < available.len()
        invariant
            i <= available@.len(),
            forall|j: int| 0 <= j < i ==> available@[j]@ != name@,
        decreases available@.len() - i,
    {
        if crate::text::str_eq(available[i].as_str(), name) {
            assert(views(available@)[i as int] == name@);
            return true;
        }
        i = i + 1;
    }
    assert forall|j: int| 0 <= j < views(available@).len() implies views(available@)[j] != name@ by {
        assert(views(available@)[j] == available@[j]@);
    }
    false
}

/// Picks the best encoder that `ffmpeg` offers: the first of the preferred
/// encoders that `available` names, or `libx264` when it names none of them.
pub fn pick_best(available: &[String]) -> (codec: String)
    ensures
        codec@ == best_codec(views(available@)),
{
    let prio: Vec<&str> = vec![
        "libsvtav1",
        "av1_nvenc",
        "hevc_vaapi",
        "h264_vaapi",
        "hevc_nvenc",
        "h264_nvenc",
        "libvpx-vp9",
    ];
    let ghost avail = views(available@);
    let ghost pv = prio@.map_values(|c: &str| c@);
    assert(pv =~= codec_priority());
    assert(pv.skip(0) =~= pv);
    let mut i: usize = 0;
    while i < prio.len()
        invariant
            i <= prio@.len(),
            avail == views(available@),
            pv == prio@.map_values(|c: &str| c@),
            pv.len() == prio@.len(),
            first_available(pv.skip(i as int), avail) == best_codec(avail),
        decreases prio@.len() - i,
    {
        let c = prio[i];
        assert(pv.skip(i as int)[0] == c@);
        assert(pv.skip(i as int).drop_first() =~= pv.skip(i + 1));
        if holds(available, c) {
            return String::from_str(c);
        }
        i = i + 1;
    }
    assert(pv.skip(i as int) =~= Seq::<Seq<char>>::empty());
    String::from_str("libx264")
}

/// The encoder to record with: the one asked for, or else the best available.
pub fn choose_codec(requested: Option<String>, available: &[String]) -> (codec: String)
    ensures
        codec@ == match requested {
            Some(c) => c@,
            None => best_codec(views(available@)),
        },
{
    match requested {
        Some(c) => c,
        None => pick_best(available),
    }
}

/// If AV1 in software is available it is always the one chosen.
pub proof fn lemma_av1_first(available: Seq<Seq<char>>)
    requires
        available.contains("libsvtav1"@),
    ensures
        best_codec(available) == "libsvtav1"@,
{
}

/// The chosen encoder is either available and preferred, with every better
/// preferred encoder unavailable, or it is the fallback and no preferred
/// encoder is available.
pub proof fn lemma_best_codec_is_first_available(available: Seq<Seq<char>>)
    ensures
        ({
            let c = best_codec(available);
            ||| exists|k: int|
                0 <= k < codec_priority().len() && codec_priority()[k] == c
                    && available.contains(c) && forall|j: int|
                    0 <= j < k ==> !available.contains(#[trigger] codec_priority()[j])
            ||| c == fallback_codec() && forall|j: int|
                0 <= j < codec_priority().len() ==> !available.contains(
                    #[trigger] codec_priority()[j],
                )
        }),
{
    lemma_first_available_is_first(codec_priority(), available);
}

proof fn lemma_first_available_is_first(prio: Seq<Seq<char>>, available: Seq<Seq<char>>)
    ensures
        ({
            let c = first_available(prio, available);
            ||| exists|k: int|
                0 <= k < prio.len() && prio[k] == c && available.contains(c) && forall|j: int|
                    0 <= j < k ==> !available.contains(#[trigger] prio[j])
            ||| c == fallback_codec() && forall|j: int|
                0 <= j < prio.len() ==> !available.contains(#[trigger] prio[j])
        }),
    decreases prio.len(),
{
    if prio.len() > 0 && !available.contains(prio[0]) {
        let rest = prio.drop_first();
        lemma_first_available_is_first(rest, available);
        let c = first_available(rest, available);
        if exists|k: int|
            0 <= k < rest.len() && rest[k] == c && available.contains(c) && forall|j: int|
                0 <= j < k ==> !available.contains(#[trigger] rest[j]) {
            let k = choose|k: int|
                0 <= k < rest.len() && rest[k] == c && available.contains(c) && forall|j: int|
                    0 <= j < k ==> !available.contains(#[trigger] rest[j]);
            assert(prio[k + 1] == c);
            assert forall|j: int| 0 <= j < k + 1 implies !available.contains(#[trigger] prio[j]) by {
                if j > 0 {
                    assert(prio[j] == rest[j - 1]);
                }
            }
        } else {
            assert forall|j: int| 0 <= j < prio.len() implies !available.contains(
                #[trigger] prio[j],
            ) by {
                if j > 0 {
                    assert(prio[j] == rest[j - 1]);
                }
            }
        }
    } else if prio.len() > 0 {
        assert(prio[0] == first_available(prio, available));
    }
}


/// The position in `prio` of the first encoder that `available` holds, or
/// the length of `prio` when it holds none of them (the fallback's place).
pub open spec fn first_index(prio: Seq<Seq<char>>, available: Seq<Seq<char>>) -> nat
    decreases prio.len(),
{
    if prio.len() == 0 {
        0
    } else if available.contains(prio[0]) {
        0
    } else {
        1 + first_index(prio.drop_first(), available)
    }
}

proof fn lemma_first_index(prio: Seq<Seq<char>>, a: Seq<Seq<char>>, b: Seq<Seq<char>>)
    requires
        forall|x: Seq<char>| a.contains(x) ==> b.contains(x),
    ensures
        first_index(prio, a) <= prio.len(),
        first_available(prio, a) == if first_index(prio, a) < prio.len() {
            prio[first_index(prio, a) as int]
        } else {
            fallback_codec()
        },
        first_index(prio, b) <= first_index(prio, a),
    decreases prio.len(),
{
    if prio.len() > 0 {
        let rest = prio.drop_first();
        lemma_first_index(rest, a, b);
        if !a.contains(prio[0]) && first_index(prio, a) < prio.len() {
            assert(prio[first_index(prio, a) as int] == rest[first_index(rest, a) as int]);
        }
    }
}

/// Offering more encoders never gives a choice that comes later in the
/// priority list: the chosen encoder is the one at `first_index` (the
/// fallback when that is past the list), and that position can only move
/// forward when encoders are added.
pub proof fn lemma_more_encoders_never_worse(a: Seq<Seq<char>>, b: Seq<Seq<char>>)
    requires
        forall|x: Seq<char>| a.contains(x) ==> b.contains(x),
    ensures
        best_codec(a) == if first_index(codec_priority(), a) < codec_priority().len() {
            codec_priority()[first_index(codec_priority(), a) as int]
        } else {
            fallback_codec()
        },
        best_codec(b) == if first_index(codec_priority(), b) < codec_priority().len() {
            codec_priority()[first_index(codec_priority(), b) as int]
        } else {
            fallback_codec()
        },
        first_index(codec_priority(), b) <= first_index(codec_priority(), a),
{
    lemma_first_index(codec_priority(), a, b);
    lemma_first_index(codec_priority(), b, b);
}


/// The order in which encoders are preferred, by name: libsvtav1, then
/// av1_nvenc, hevc_vaapi, h264_vaapi, hevc_nvenc, h264_nvenc, libvpx-vp9,
/// and libx264 when none of these is available. Each line says: when this
/// encoder is available and none named before it is, it is the one chosen.
pub proof fn lemma_priority_by_name(available: Seq<Seq<char>>)
    ensures
        available.contains("libsvtav1"@) ==> best_codec(available) == "libsvtav1"@,
        !available.contains("libsvtav1"@) && available.contains("av1_nvenc"@) ==> best_codec(
            available,
        ) == "av1_nvenc"@,
        !available.contains("libsvtav1"@) && !available.contains("av1_nvenc"@)
            && available.contains("hevc_vaapi"@) ==> best_codec(available) == "hevc_vaapi"@,
        !available.contains("libsvtav1"@) && !available.contains("av1_nvenc"@)
            && !available.contains("hevc_vaapi"@) && available.contains("h264_vaapi"@)
            ==> best_codec(available) == "h264_vaapi"@,
        !available.contains("libsvtav1"@) && !available.contains("av1_nvenc"@)
            && !available.contains("hevc_vaapi"@) && !available.contains("h264_vaapi"@)
            && available.contains("hevc_nvenc"@) ==> best_codec(available) == "hevc_nvenc"@,
        !available.contains("libsvtav1"@) && !available.contains("av1_nvenc"@)
            && !available.contains("hevc_vaapi"@) && !available.contains("h264_vaapi"@)
            && !available.contains("hevc_nvenc"@) && available.contains("h264_nvenc"@)
            ==> best_codec(available) == "h264_nvenc"@,
        !available.contains("libsvtav1"@) && !available.contains("av1_nvenc"@)
            && !available.contains("hevc_vaapi"@) && !available.contains("h264_vaapi"@)
            && !available.contains("hevc_nvenc"@) && !available.contains("h264_nvenc"@)
            && available.contains("libvpx-vp9"@) ==> best_codec(available) == "libvpx-vp9"@,
        !available.contains("libsvtav1"@) && !available.contains("av1_nvenc"@)
            && !available.contains("hevc_vaapi"@) && !available.contains("h264_vaapi"@)
            && !available.contains("hevc_nvenc"@) && !available.contains("h264_nvenc"@)
            && !available.contains("libvpx-vp9"@) ==> best_codec(available) == "libx264"@,
{
    reveal_with_fuel(first_available, 9);
}

} // verus!
