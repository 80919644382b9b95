//! Naming rules for selected files: the name shown for an entry and the
//! path that its OCR output is written to.
//!
//! Paths follow the Unix rules of `std::path`: a path is a sequence of
//! components split on `/`, where empty and `.` components are skipped (a
//! leading `.` and a leading root stay). The file name is the last component
//! when it is a name, so not the root, a leading `.` or `..`. Its stem is the
//! name without its extension, where the extension starts at the last `.` that
//! is not the name's first character.
use vstd::prelude::*;
use vstd::string::*;

verus! {

/// Index of the last occurrence of `c` in `s`, or -1 when `c` does not occur.
pub open spec fn last_index_of(s: Seq<char>, c: char) -> int
    decreases s.len(),
{
    if s.len() == 0 {
        -1
    } else if s.last() == c {
        s.len() - 1
    } else {
        last_index_of(s.drop_last(), c)
    }
}

/// Where the components of a path begin: past a leading root `/`, or past a
/// leading `.` component.
pub open spec fn body_start(p: Seq<char>) -> int {
    if p.len() > 0 && p[0] == '/' {
        1
    } else if p.len() > 0 && p[0] == '.' && (p.len() == 1 || p[1] == '/') {
        1
    } else {
        0
    }
}

/// `p` without the trailing separators and `.` components that follow its
/// last real component; nothing before `b` is taken away.
pub open spec fn trim_end(p: Seq<char>, b: int) -> Seq<char>
    decreases p.len(),
{
    if b < 0 || p.len() <= b {
        p
    } else if p.last() == '/' {
        trim_end(p.drop_last(), b)
    } else if p.last() == '.' && p.len() - 1 == b {
        trim_end(p.drop_last(), b)
    } else if p.last() == '.' && p.len() >= b + 2 && p[p.len() - 2] == '/' {
        trim_end(p.subrange(0, p.len() - 2), b)
    } else {
        p
    }
}

/// Start of the last component of a trimmed path `t` whose body starts at `b`.
pub open spec fn piece_start(t: Seq<char>, b: int) -> int {
    b + last_index_of(t.subrange(b, t.len() as int), '/') + 1
}

/// The last component of a path when it is a name; a path that ends in the
/// root, a leading `.` or a `..` has none.
pub open spec fn file_name(p: Seq<char>) -> Option<Seq<char>> {
    let b = body_start(p);
    let t = trim_end(p, b);
    let name = t.subrange(piece_start(t, b), t.len() as int);
    if t.len() > b && name != seq!['.', '.'] {
        Some(name)
    } else {
        None
    }
}

/// The path with its last component taken away, trimmed as above.
pub open spec fn parent_of(p: Seq<char>) -> Seq<char> {
    let b = body_start(p);
    let t = trim_end(p, b);
    let ps = piece_start(t, b);
    trim_end(t.subrange(0, if ps > b { ps - 1 } else { b }), b)
}

/// The name shown for a path: its file name, or nothing.
pub open spec fn display_name_of(p: Seq<char>) -> Seq<char> {
    match file_name(p) {
        Some(n) => n,
        None => Seq::empty(),
    }
}

/// `base` ready to take a name under it: with a separator at its end, unless
/// it is empty or already ends in one.
pub open spec fn with_separator(base: Seq<char>) -> Seq<char> {
    if base.len() > 0 && base.last() != '/' {
        base.push('/')
    } else {
        base
    }
}

/// `name` placed under `base`.
pub open spec fn joined(base: Seq<char>, name: Seq<char>) -> Seq<char> {
    with_separator(base) + name
}

/// A file name without its extension. A name whose only dot is its first
/// character (a hidden file) has no extension.
pub open spec fn file_stem(name: Seq<char>) -> Seq<char> {
    let d = last_index_of(name, '.');
    if d > 0 {
        name.subrange(0, d)
    } else {
        name
    }
}

/// What is appended to a stem to name the output file.
pub open spec fn ocr_suffix() -> Seq<char> {
    seq!['_', 'o', 'c', 'r', '.', 'p', 'd', 'f']
}

/// The output file of an input: the input's file name replaced by its stem
/// followed by `_ocr.pdf`, so the input's own extension is dropped. A path
/// without a file name gets `_ocr.pdf` placed under it.
pub open spec fn output_path_of(p: Seq<char>) -> Seq<char> {
    match file_name(p) {
        Some(n) => joined(parent_of(p), file_stem(n) + ocr_suffix()),
        None => joined(p, ocr_suffix()),
    }
}

/// `last_index_of` is -1 or an index holding `c`, and `c` does not occur
/// after it.
pub proof fn lemma_last_index_bounds(s: Seq<char>, c: char)
    ensures
        -1 <= last_index_of(s, c) < s.len(),
        last_index_of(s, c) >= 0 ==> s[last_index_of(s, c)] == c,
        forall|j: int| last_index_of(s, c) < j < s.len() ==> s[j] != c,
    decreases s.len(),
{
    if s.len() > 0 && s.last() != c {
        lemma_last_index_bounds(s.drop_last(), c);
        assert forall|j: int| last_index_of(s, c) < j < s.len() implies s[j] != c by {
            if j < s.len() - 1 {
                assert(s[j] == s.drop_last()[j]);
            }
        }
    }
}

/// Finds the last occurrence of `c` in `s` between positions `lo` and `hi`.
fn find_last_in(s: &str, c: char, lo: usize, hi: usize) -> (r: Option<usize>)
    requires
        lo <= hi <= s@.len(),
    ensures
        match r {
            Some(i) => lo <= i < hi && i as int == lo + last_index_of(
                s@.subrange(lo as int, hi as int),
                c,
            ),
            None => last_index_of(s@.subrange(lo as int, hi as int), c) == -1,
        },
{
    let mut found: Option<usize> = None;
    let mut i: usize = lo;
    while i < hi
        invariant
            lo <= i <= hi <= s@.len(),
            match found {
                Some(k) => lo <= k < i && k as int == lo + last_index_of(
                    s@.subrange(lo as int, i as int),
                    c,
                ),
                None => last_index_of(s@.subrange(lo as int, i as int), c) == -1,
            },
        decreases hi - i,
    {
        assert(s@.subrange(lo as int, i + 1).drop_last() =~= s@.subrange(lo as int, i as int));
        if s.get_char(i) == c {
            found = Some(i);
        }
        i = i + 1;
    }
    found
}

/// Where the components of `p` begin.
fn body_start_at(p: &str) -> (r: usize)
    ensures
        r as int == body_start(p@),
        r <= p@.len(),
{
    let n = p.unicode_len();
    if n > 0 && p.get_char(0) == '/' {
        1
    } else if n > 0 && p.get_char(0) == '.' && (n == 1 || p.get_char(1) == '/') {
        1
    } else {
        0
    }
}

/// The length of the first `end` characters of `p` once trimmed.
fn trim_end_at(p: &str, b: usize, end: usize) -> (r: usize)
    requires
        b <= end <= p@.len(),
    ensures
        b <= r <= end,
        p@.subrange(0, r as int) == trim_end(p@.subrange(0, end as int), b as int),
{
    let mut cur = end;
    loop
        invariant
            b <= cur <= end <= p@.len(),
            trim_end(p@.subrange(0, end as int), b as int) == trim_end(
                p@.subrange(0, cur as int),
                b as int,
            ),
        decreases cur,
    {
        let ghost q = p@.subrange(0, cur as int);
        if cur == b {
            return cur;
        }
        let last = p.get_char(cur - 1);
        assert(q.last() == last);
        if last == '/' || (last == '.' && cur - 1 == b) {
            assert(q.drop_last() =~= p@.subrange(0, cur - 1));
            cur = cur - 1;
        } else if last == '.' && cur - b >= 2 && p.get_char(cur - 2) == '/' {
            assert(q[q.len() - 2] == p@[cur - 2]);
            assert(q.subrange(0, q.len() - 2) =~= p@.subrange(0, cur - 2));
            cur = cur - 2;
        } else {
            return cur;
        }
    }
}

/// Locates the last component of `path` when it is a name.
fn locate_name(path: &str) -> (r: Option<(usize, usize)>)
    ensures
        match r {
            Some((s, e)) => {
                &&& s <= e <= path@.len()
                &&& file_name(path@) == Some(path@.subrange(s as int, e as int))
                &&& parent_of(path@) == trim_end(
                    path@.subrange(
                        0,
                        if s > body_start(path@) {
                            s - 1
                        } else {
                            body_start(path@)
                        },
                    ),
                    body_start(path@),
                )
                &&& s >= body_start(path@)
            },
            None => file_name(path@) is None,
        },
{
    let n = path.unicode_len();
    let b = body_start_at(path);
    let e = trim_end_at(path, b, n);
    let ghost t = path@.subrange(0, e as int);
    assert(path@.subrange(0, n as int) =~= path@);
    if e <= b {
        return None;
    }
    assert(t.subrange(b as int, t.len() as int) =~= path@.subrange(b as int, e as int));
    let s = match find_last_in(path, '/', b, e) {
        Some(k) => k + 1,
        None => b,
    };
    assert(t.subrange(s as int, t.len() as int) =~= path@.subrange(s as int, e as int));
    let cut = if s > b {
        s - 1
    } else {
        b
    };
    assert(t.subrange(0, cut as int) =~= path@.subrange(0, cut as int));
    if e - s == 2 && path.get_char(s) == '.' && path.get_char(s + 1) == '.' {
        assert(path@.subrange(s as int, e as int) =~= seq!['.', '.']);
        None
    } else {
        Some((s, e))
    }
}

/// The stem of a file name.
fn stem_of(name: &str) -> (r: &str)
    ensures
        r@ == file_stem(name@),
{
    let n = name.unicode_len();
    assert(name@.subrange(0, n as int) =~= name@);
    match find_last_in(name, '.', 0, n) {
        Some(d) => if d > 0 {
            name.substring_char(0, d)
        } else {
            name
        },
        None => name,
    }
}

/// Appends a separator to `out` when `base` is non-empty and does not end in one.
fn separate(out: &mut String, base: &str)
    requires
        old(out)@ == base@,
    ensures
        final(out)@ == with_separator(base@),
{
    let n = base.unicode_len();
    proof {
        reveal_strlit("/");
    }
    if n > 0 && base.get_char(n - 1) != '/' {
        out.append("/");
        assert("/"@ =~= seq!['/']);
        assert(out@ =~= base@.push('/'));
    }
}

/// The name shown for a selected file: the last component of its path, or
/// nothing when the path ends in the root, `.` or `..`.
pub fn display_name(path: &str) -> (r: String)
    ensures
        r@ == display_name_of(path@),
{
    match locate_name(path) {
        Some((s, e)) => String::from_str(path.substring_char(s, e)),
        None => String::new(),
    }
}

/// The file that OCR of `path` writes to.
pub fn output_path(path: &str) -> (r: String)
    ensures
        r@ == output_path_of(path@),
{
    proof {
        reveal_strlit("_ocr.pdf");
    }
    assert("_ocr.pdf"@ =~= ocr_suffix());
    match locate_name(path) {
        Some((s, e)) => {
            let b = body_start_at(path);
            let cut = if s > b {
                s - 1
            } else {
                b
            };
            let pe = trim_end_at(path, b, cut);
            let base = path.substring_char(0, pe);
            let stem = stem_of(path.substring_char(s, e));
            let mut out = String::from_str(base);
            separate(&mut out, base);
            out.append(stem);
            out.append("_ocr.pdf");
            out
        },
        None => {
            let mut out = String::from_str(path);
            separate(&mut out, path);
            out.append("_ocr.pdf");
            out
        },
    }
}

} // verus!
