//! Output file names: the extension of a path, and the container format
//! that the extension selects.

use vstd::prelude::*;
use crate::text::{chars_of, seq_eq};
use crate::codec::slice_chars;

verus! {

/// The position of the last `/` before `end`, or -1 when there is none.
pub open spec fn last_slash_before(s: Seq<char>, end: int) -> int
    decreases end,
{
    if end <= 0 {
        -1
    } else if s[end - 1] == '/' {
        end - 1
    } else {
        last_slash_before(s, end - 1)
    }
}

pub proof fn lemma_last_slash_bounds(s: Seq<char>, end: int)
    requires
        0 <= end <= s.len(),
    ensures
        -1 <= last_slash_before(s, end) < end,
        last_slash_before(s, end) >= 0 ==> s[last_slash_before(s, end)] == '/',
        forall|j: int| last_slash_before(s, end) < j < end ==> s[j] != '/',
    decreases end,
{
    if end > 0 && s[end - 1] != '/' {
        lemma_last_slash_bounds(s, end - 1);
    }
}

/// The final component of the path `s[0..end)`, as `Path::file_name` sees
/// it: empty components and `.` components are passed over, and a final
/// `..` (or no component at all) means there is no file name.
pub open spec fn file_name_in(s: Seq<char>, end: int) -> Option<Seq<char>>
    decreases end,
{
    if end <= 0 || end > s.len() {
        None
    } else {
        let b = last_slash_before(s, end);
        proof {
            lemma_last_slash_bounds(s, end);
        }
        let seg = s.subrange(b + 1, end);
        if seg.len() == 0 || seg == seq!['.'] {
            if b < 0 {
                None
            } else {
                file_name_in(s, b)
            }
        } else if seg == seq!['.', '.'] {
            None
        } else {
            Some(seg)
        }
    }
}

/// The file name of the path `s`.
pub open spec fn file_name(s: Seq<char>) -> Option<Seq<char>> {
    file_name_in(s, s.len() as int)
}

/// The position of the last `.` before `end`, or -1 when there is none.
pub open spec fn last_dot_before(s: Seq<char>, end: int) -> int
    decreases end,
{
    if end <= 0 {
        -1
    } else if s[end - 1] == '.' {
        end - 1
    } else {
        last_dot_before(s, end - 1)
    }
}

pub proof fn lemma_last_dot_bounds(s: Seq<char>, end: int)
    requires
        0 <= end <= s.len(),
    ensures
        -1 <= last_dot_before(s, end) < end,
        last_dot_before(s, end) >= 0 ==> s[last_dot_before(s, end)] == '.',
        forall|j: int| last_dot_before(s, end) < j < end ==> s[j] != '.',
    decreases end,
{
    if end > 0 && s[end - 1] != '.' {
        lemma_last_dot_bounds(s, end - 1);
    }
}

/// The extension of a file name, as `Path::extension` gives it: what
/// follows the last `.`, when that dot is not the name's first character.
pub open spec fn name_extension(name: Seq<char>) -> Option<Seq<char>> {
    let d = last_dot_before(name, name.len() as int);
    if d <= 0 {
        None
    } else {
        Some(name.subrange(d + 1, name.len() as int))
    }
}

/// The extension of the path `s`.
pub open spec fn extension(s: Seq<char>) -> Option<Seq<char>> {
    match file_name(s) {
        Some(name) => name_extension(name),
        None => None,
    }
}

/// The container format for an output path: WebM for a `.webm` file or a
/// path without extension, MP4 for every other extension.
pub open spec fn container_spec(output: Seq<char>) -> Seq<char> {
    match extension(output) {
        None => "webm"@,
        Some(e) => if e == "webm"@ {
            "webm"@
        } else {
            "mp4"@
        },
    }
}

fn last_slash_exec(s: &Vec<char>, end: usize) -> (r: Option<usize>)
    requires
        end <= s@.len(),
    ensures
        match r {
            Some(b) => b == last_slash_before(s@, end as int),
            None => last_slash_before(s@, end as int) == -1,
        },
{
    let mut k = end;
    while k > 0 && s[k - 1] != '/'
        invariant
            k <= end <= s@.len(),
            last_slash_before(s@, end as int) == last_slash_before(s@, k as int),
        decreases k,
    {
        k = k - 1;
    }
    if k == 0 {
        None
    } else {
        Some(k - 1)
    }
}

fn last_dot_exec(s: &Vec<char>, end: usize) -> (r: Option<usize>)
    requires
        end <= s@.len(),
    ensures
        match r {
            Some(d) => d == last_dot_before(s@, end as int),
            None => last_dot_before(s@, end as int) == -1,
        },
{
    let mut k = end;
    while k > 0 && s[k - 1] != '.'
        invariant
            k <= end <= s@.len(),
            last_dot_before(s@, end as int) == last_dot_before(s@, k as int),
        decreases k,
    {
        k = k - 1;
    }
    if k == 0 {
        None
    } else {
        Some(k - 1)
    }
}

/// Where the file name of the path `s` lies in it.
fn file_name_range(s: &Vec<char>) -> (r: Option<(usize, usize)>)
    ensures
        match r {
            Some((a, b)) => a <= b <= s@.len() && file_name(s@) == Some(
                s@.subrange(a as int, b as int),
            ),
            None => file_name(s@) is None,
        },
{
    let mut end = s.len();
    loop
        invariant
            end <= s@.len(),
            file_name(s@) == file_name_in(s@, end as int),
        decreases end,
    {
        if end == 0 {
            return None;
        }
        proof {
            lemma_last_slash_bounds(s@, end as int);
        }
        let start = match last_slash_exec(s, end) {
            Some(b) => b + 1,
            None => 0,
        };
        let ghost seg = s@.subrange(start as int, end as int);
        let len = end - start;
        if len == 0 || (len == 1 && s[start] == '.') {
            proof {
                if len == 1 {
                    assert(seg =~= seq!['.']);
                }
            }
            if start == 0 {
                return None;
            }
            end = start - 1;
        } else if len == 2 && s[start] == '.' && s[start + 1] == '.' {
            assert(seg =~= seq!['.', '.']);
            return None;
        } else {
            proof {
                if seg == seq!['.'] {
                    assert(seg[0] == s@[start as int]);
                }
                if seg == seq!['.', '.'] {
                    assert(seg[0] == s@[start as int]);
                    assert(seg[1] == s@[start + 1]);
                }
                assert(seg.len() != 0);
                assert(seg != seq!['.']);
                assert(seg != seq!['.', '.']);
                assert(start as int == last_slash_before(s@, end as int) + 1);
                assert(file_name_in(s@, end as int) == Some(seg));
            }
            return Some((start, end));
        }
    }
}

/// Chooses the output container from the file extension: `"webm"` when the
/// path has no extension or the extension is `webm`, `"mp4"` otherwise.
pub fn container_for(output: &str) -> (fmt: &str)
    ensures
        fmt@ == container_spec(output@),
{
    let s = chars_of(output);
    match file_name_range(&s) {
        None => "webm",
        Some((a, b)) => {
            let name = slice_chars(&s, a, b);
            proof {
                lemma_last_dot_bounds(name@, name@.len() as int);
            }
            match last_dot_exec(&name, name.len()) {
                None => "webm",
                Some(d) => {
                    if d == 0 {
                        "webm"
                    } else {
                        let ext = slice_chars(&name, d + 1, name.len());
                        if seq_eq(&ext, &chars_of("webm")) {
                            "webm"
                        } else {
                            "mp4"
                        }
                    }
                },
            }
        },
    }
}


proof fn lemma_last_slash_is(s: Seq<char>, b: int, end: int)
    requires
        -1 <= b < end <= s.len(),
        b >= 0 ==> s[b] == '/',
        forall|j: int| b < j < end ==> s[j] != '/',
    ensures
        last_slash_before(s, end) == b,
    decreases end,
{
    if end - 1 > b {
        lemma_last_slash_is(s, b, end - 1);
    }
}

proof fn lemma_last_dot_is(s: Seq<char>, d: int, end: int)
    requires
        -1 <= d < end <= s.len(),
        d >= 0 ==> s[d] == '.',
        forall|j: int| d < j < end ==> s[j] != '.',
    ensures
        last_dot_before(s, end) == d,
    decreases end,
{
    if end - 1 > d {
        lemma_last_dot_is(s, d, end - 1);
    }
}

/// A file named `stem.ext`, alone or after a directory ending in `/`, has
/// the extension `ext`; the container is WebM for `.webm` and MP4 for any
/// other extension.
pub proof fn lemma_container_by_extension(dir: Seq<char>, stem: Seq<char>, ext: Seq<char>)
    requires
        dir.len() == 0 || dir.last() == '/',
        stem.len() > 0,
        ext.len() > 0,
        forall|i: int| 0 <= i < stem.len() ==> stem[i] != '/',
        forall|i: int| 0 <= i < ext.len() ==> ext[i] != '/' && ext[i] != '.',
    ensures
        extension(dir + stem + seq!['.'] + ext) == Some(ext),
        container_spec(dir + stem + seq!['.'] + ext) == if ext == "webm"@ {
            "webm"@
        } else {
            "mp4"@
        },
{
    let name = stem + seq!['.'] + ext;
    let s = dir + stem + seq!['.'] + ext;
    assert(s =~= dir + name);
    let b = dir.len() - 1;
    assert forall|j: int| b < j < s.len() implies s[j] != '/' by {
        assert(s[j] == name[j - dir.len()]);
        if j - dir.len() > stem.len() {
            assert(name[j - dir.len()] == ext[j - dir.len() - stem.len() - 1]);
        }
    }
    lemma_last_slash_is(s, b, s.len() as int);
    assert(s.subrange(b + 1, s.len() as int) =~= name);
    assert(name.len() >= 3);
    assert(name != seq!['.']);
    assert(name != seq!['.', '.']);
    assert(file_name(s) == Some(name));
    let d = stem.len() as int;
    assert forall|j: int| d < j < name.len() implies name[j] != '.' by {
        assert(name[j] == ext[j - d - 1]);
    }
    lemma_last_dot_is(name, d, name.len() as int);
    assert(name.subrange(d + 1, name.len() as int) =~= ext);
}

/// A path without a file name, or a file name without an extension, is
/// recorded as WebM.
pub proof fn lemma_no_extension_is_webm(output: Seq<char>)
    requires
        extension(output) is None,
    ensures
        container_spec(output) == "webm"@,
{
}

} // verus!
