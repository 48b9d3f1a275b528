//! Unix paths held as `String`s: their components, file name, stem,
//! extension and joining, as std's `Path` and `PathBuf` compute them on Unix.
use vstd::prelude::*;
use crate::text::{chars_of, last_index, lemma_last_index_facts, push_char, push_chars, rfind_char, string_of, string_of_range};

verus! {

/// Adds a finished component to the list of parts. Empty components (from a
/// leading, repeated or trailing `/`) and `.` components are dropped, as
/// std's `Path::components` drops them.
pub open spec fn accept_part(parts: Seq<Seq<char>>, cur: Seq<char>) -> Seq<Seq<char>> {
    if cur.len() == 0 || cur == seq!['.'] {
        parts
    } else {
        parts.push(cur)
    }
}

/// Reads `s` from the left: the parts finished so far and the component being read.
pub open spec fn scan_parts(s: Seq<char>) -> (Seq<Seq<char>>, Seq<char>)
    decreases s.len(),
{
    if s.len() == 0 {
        (Seq::empty(), Seq::empty())
    } else {
        let prev = scan_parts(s.drop_last());
        if s.last() == '/' {
            (accept_part(prev.0, prev.1), Seq::empty())
        } else {
            (prev.0, prev.1.push(s.last()))
        }
    }
}

/// The named components of a path, in order: its `/`-separated pieces that are
/// neither empty nor `.`. `..` is kept.
pub open spec fn path_parts(s: Seq<char>) -> Seq<Seq<char>> {
    accept_part(scan_parts(s).0, scan_parts(s).1)
}

/// The `..` component.
pub open spec fn dot_dot() -> Seq<char> {
    seq!['.', '.']
}

/// std's `Path::file_name`: the last component, unless the path ends in `..`
/// or has no named component.
pub open spec fn file_name(p: Seq<char>) -> Option<Seq<char>> {
    let parts = path_parts(p);
    if parts.len() == 0 || parts.last() == dot_dot() {
        None
    } else {
        Some(parts.last())
    }
}

/// The file name of std's `Path::parent`: the component before the last one,
/// when there is one and it is not `..`.
pub open spec fn parent_file_name(p: Seq<char>) -> Option<Seq<char>> {
    let parts = path_parts(p);
    if parts.len() < 2 || parts[parts.len() - 2] == dot_dot() {
        None
    } else {
        Some(parts[parts.len() - 2])
    }
}

/// The stem of a file name: the part before its last `.`, unless that `.`
/// is the first character (a name like `.bashrc` is all stem).
pub open spec fn stem_of_name(name: Seq<char>) -> Seq<char> {
    match last_index(name, '.') {
        Some(i) => if i > 0 {
            name.take(i)
        } else {
            name
        },
        None => name,
    }
}

/// The extension of a file name: the part after its last `.`, when that `.`
/// is not the first character.
pub open spec fn extension_of_name(name: Seq<char>) -> Option<Seq<char>> {
    match last_index(name, '.') {
        Some(i) => if i > 0 {
            Some(name.skip(i + 1))
        } else {
            None
        },
        None => None,
    }
}

/// A file name splits at its last `.` into stem and extension: with an
/// extension, the stem is not empty and the stem, a `.` and the extension
/// make up the name, the extension holding no `.`; without one, the stem is
/// the whole name, which holds no `.` but perhaps a leading one.
pub proof fn lemma_stem_and_extension(name: Seq<char>)
    ensures
        match extension_of_name(name) {
            Some(e) => {
                &&& stem_of_name(name).len() > 0
                &&& stem_of_name(name) + seq!['.'] + e == name
                &&& !e.contains('.')
            },
            None => {
                &&& stem_of_name(name) == name
                &&& name.contains('.') ==> name[0] == '.' && !name.drop_first().contains('.')
            },
        },
{
    lemma_last_index_facts(name, '.');
    match last_index(name, '.') {
        Some(i) => {
            if i > 0 {
                assert(name.take(i) + seq!['.'] + name.skip(i + 1) =~= name);
            } else {
                assert(name.drop_first() =~= name.skip(1));
            }
        },
        None => {},
    }
}

/// std's `Path::file_stem`.
pub open spec fn file_stem(p: Seq<char>) -> Option<Seq<char>> {
    match file_name(p) {
        Some(name) => Some(stem_of_name(name)),
        None => None,
    }
}

/// std's `Path::extension`.
pub open spec fn extension(p: Seq<char>) -> Option<Seq<char>> {
    match file_name(p) {
        Some(name) => extension_of_name(name),
        None => None,
    }
}

/// std's `Path::join` on Unix: an absolute `p` replaces `base`; otherwise `p`
/// is appended, with a `/` between them unless `base` is empty or ends in one.
pub open spec fn path_join(base: Seq<char>, p: Seq<char>) -> Seq<char> {
    if p.len() > 0 && p[0] == '/' {
        p
    } else if base.len() > 0 && base.last() != '/' {
        base + seq!['/'] + p
    } else {
        base + p
    }
}

/// The named components of `p`, each as its characters.
pub fn parts_of(p: &[char]) -> (r: Vec<Vec<char>>)
    ensures
        r@.len() == path_parts(p@).len(),
        forall|k: int| 0 <= k < r@.len() ==> #[trigger] r@[k]@ == path_parts(p@)[k],
{
    let n = p.len();
    let mut parts: Vec<Vec<char>> = Vec::new();
    let mut cur: Vec<char> = Vec::new();
    let ghost mut gparts: Seq<Seq<char>> = Seq::empty();
    let mut i: usize = 0;
    assert(p@.take(0) =~= Seq::<char>::empty());
    while i < n
        invariant
            n == p@.len(),
            i <= n,
            (gparts, cur@) == scan_parts(p@.take(i as int)),
            parts@.len() == gparts.len(),
            forall|k: int| 0 <= k < parts@.len() ==> #[trigger] parts@[k]@ == gparts[k],
        decreases n - i,
    {
        assert(p@.take(i + 1).drop_last() =~= p@.take(i as int));
        let c = p[i];
        if c == '/' {
            if !is_empty_or_dot(&cur) {
                proof {
                    gparts = gparts.push(cur@);
                }
                parts.push(cur);
            }
            cur = Vec::new();
        } else {
            cur.push(c);
        }
        i = i + 1;
    }
    assert(p@.take(n as int) =~= p@);
    if !is_empty_or_dot(&cur) {
        proof {
            gparts = gparts.push(cur@);
        }
        parts.push(cur);
    }
    parts
}

fn is_empty_or_dot(v: &Vec<char>) -> (r: bool)
    ensures
        r == (v@.len() == 0 || v@ == seq!['.']),
{
    if v.len() == 0 {
        true
    } else if v.len() == 1 && v[0] == '.' {
        assert(v@ =~= seq!['.']);
        true
    } else {
        false
    }
}

fn is_dot_dot(v: &Vec<char>) -> (r: bool)
    ensures
        r == (v@ == dot_dot()),
{
    if v.len() == 2 && v[0] == '.' && v[1] == '.' {
        assert(v@ =~= dot_dot());
        true
    } else {
        false
    }
}

/// The file name of path `p` (std's `Path::file_name`).
pub fn path_file_name(p: &str) -> (r: Option<String>)
    ensures
        r.deep_view() == file_name(p@),
{
    let v = chars_of(p);
    let parts = parts_of(v.as_slice());
    let k = parts.len();
    if k == 0 {
        return None;
    }
    let last = &parts[k - 1];
    if is_dot_dot(last) {
        None
    } else {
        Some(string_of(last.as_slice()))
    }
}

/// The file name of the parent of path `p` (std's `Path::parent`, then `Path::file_name`).
pub fn path_parent_file_name(p: &str) -> (r: Option<String>)
    ensures
        r.deep_view() == parent_file_name(p@),
{
    let v = chars_of(p);
    let parts = parts_of(v.as_slice());
    let k = parts.len();
    if k < 2 {
        return None;
    }
    let before = &parts[k - 2];
    if is_dot_dot(before) {
        None
    } else {
        Some(string_of(before.as_slice()))
    }
}

/// The stem of file name `name`.
pub fn name_stem(name: &[char]) -> (r: String)
    ensures
        r@ == stem_of_name(name@),
{
    match rfind_char(name, '.') {
        Some(i) => if i > 0 {
            string_of_range(name, 0, i)
        } else {
            string_of(name)
        },
        None => string_of(name),
    }
}

/// The extension of file name `name`.
pub fn name_extension(name: &[char]) -> (r: Option<String>)
    ensures
        r.deep_view() == extension_of_name(name@),
{
    match rfind_char(name, '.') {
        Some(i) => if i > 0 {
            assert(last_index(name@, '.') == Some(i as int));
            assert((i as int) < name@.len());
            assert(name@.len() == name.len());
            Some(string_of_range(name, i + 1, name.len()))
        } else {
            None
        },
        None => None,
    }
}

/// The file stem of path `p` (std's `Path::file_stem`).
pub fn path_file_stem(p: &str) -> (r: Option<String>)
    ensures
        r.deep_view() == file_stem(p@),
{
    match path_file_name(p) {
        Some(name) => {
            let v = chars_of(name.as_str());
            Some(name_stem(v.as_slice()))
        },
        None => None,
    }
}

/// The extension of path `p` (std's `Path::extension`).
pub fn path_extension(p: &str) -> (r: Option<String>)
    ensures
        r.deep_view() == extension(p@),
{
    match path_file_name(p) {
        Some(name) => {
            let v = chars_of(name.as_str());
            name_extension(v.as_slice())
        },
        None => None,
    }
}

/// `p` joined onto `base` (std's `Path::join` on Unix).
pub fn join_path(base: &str, p: &str) -> (r: String)
    ensures
        r@ == path_join(base@, p@),
{
    let pv = chars_of(p);
    if pv.len() > 0 && pv[0] == '/' {
        return string_of(pv.as_slice());
    }
    let bv = chars_of(base);
    let mut out = string_of(bv.as_slice());
    if bv.len() > 0 && bv[bv.len() - 1] != '/' {
        push_char(&mut out, '/');
    }
    push_chars(&mut out, pv.as_slice());
    out
}

} // verus!
