//! Completing a directory path as it is typed: the directory to look in and
//! the partial name typed, the matching directories in order, and the
//! completed text.
use vstd::prelude::*;
use vstd::relations::{sorted_by, total_ordering};
use crate::app::App;
use crate::path::{file_name, join_path, path_file_name, path_join};
use crate::settings::{collapse_tilde_with, collapsed};
use crate::text::{after_last, chars_of, push_char, rfind_char, starts_with, string_of, string_of_range};
use crate::ui::{byte_len, byte_prefix, bytes_of, cuttable};

verus! {

// ---------------------------------------------------------------------------
// The parent of a path
// ---------------------------------------------------------------------------

/// What follows the last `c` is no longer than the whole.
pub proof fn lemma_after_last_len(s: Seq<char>, c: char)
    ensures
        after_last(s, c).len() <= s.len(),
    decreases s.len(),
{
    if s.len() > 0 && s.last() != c {
        lemma_after_last_len(s.drop_last(), c);
    }
}

/// The length of what comes before a path's first named component: a root
/// `/`, or a leading `.` component.
pub open spec fn before_body_len(p: Seq<char>) -> nat {
    if p.len() > 0 && p[0] == '/' {
        1
    } else if p.len() > 0 && p[0] == '.' && (p.len() == 1 || p[1] == '/') {
        1
    } else {
        0
    }
}

/// The last piece of `q`, after its last `/`, not looking before `floor`.
pub open spec fn back_piece(q: Seq<char>, floor: nat) -> Seq<char> {
    after_last(q.skip(floor as int), '/')
}

/// How much `q` shrinks when its last piece is taken off: the piece, and the
/// `/` before it if there is one.
pub open spec fn back_size(q: Seq<char>, floor: nat) -> nat {
    let piece = back_piece(q, floor);
    if piece.len() < q.len() - floor {
        piece.len() + 1
    } else {
        piece.len()
    }
}

/// `q` without trailing empty and `.` pieces, never cutting below `floor`.
pub open spec fn trim_back(q: Seq<char>, floor: nat) -> Seq<char>
    decreases q.len(),
{
    if q.len() <= floor {
        q
    } else {
        let piece = back_piece(q, floor);
        if piece.len() == 0 || piece == seq!['.'] {
            proof {
                lemma_after_last_len(q.skip(floor as int), '/');
            }
            trim_back(q.take(q.len() - back_size(q, floor)), floor)
        } else {
            q
        }
    }
}

/// std's `Path::parent` on Unix: the path without its last component (and
/// the separators and `.` pieces around it). A root has no parent; a lone
/// `.` has the empty path as parent; a path with no component has none.
pub open spec fn parent_path(p: Seq<char>) -> Option<Seq<char>> {
    let floor = before_body_len(p);
    let t = trim_back(p, floor);
    if t.len() <= floor {
        if p.len() > 0 && p[0] == '.' && floor == 1 {
            Some(Seq::empty())
        } else {
            None
        }
    } else {
        Some(trim_back(t.take(t.len() - back_size(t, floor)), floor))
    }
}

/// The last piece of the first `len` characters of `p`, from `floor` on: where
/// it starts, and how much taking it off shrinks them.
fn last_piece(p: &[char], len: usize, floor: usize) -> (r: (usize, usize))
    requires
        floor <= len <= p@.len(),
    ensures
        floor <= r.0 <= len,
        back_piece(p@.take(len as int), floor as nat) == p@.subrange(r.0 as int, len as int),
        r.1 == back_size(p@.take(len as int), floor as nat),
        r.1 <= len - floor,
{
    let mut seg: Vec<char> = Vec::new();
    let mut k = floor;
    while k < len
        invariant
            floor <= k <= len <= p@.len(),
            seg@ == p@.subrange(floor as int, k as int),
        decreases len - k,
    {
        seg.push(p[k]);
        assert(p@.subrange(floor as int, k + 1) =~= p@.subrange(floor as int, k as int).push(
            p@[k as int],
        ));
        k = k + 1;
    }
    assert(seg@ =~= p@.take(len as int).skip(floor as int));
    let found = rfind_char(seg.as_slice(), '/');
    match found {
        Some(i) => {
            assert((i as int) < seg@.len());
            assert(seg@.skip(i + 1) =~= p@.subrange(floor + i + 1, len as int));
            (floor + i + 1, len - floor - i)
        },
        None => {
            assert(seg@ =~= p@.subrange(floor as int, len as int));
            (floor, len - floor)
        },
    }
}

/// The length to which `trim_back` cuts the first `len` characters of `p`.
fn trim_back_len(p: &[char], len: usize, floor: usize) -> (r: usize)
    requires
        floor <= len <= p@.len(),
    ensures
        floor <= r <= len,
        trim_back(p@.take(len as int), floor as nat) == p@.take(r as int),
    decreases len,
{
    if len <= floor {
        return len;
    }
    let (start, size) = last_piece(p, len, floor);
    let is_dot = len - start == 1 && p[start] == '.';
    if start == len || is_dot {
        proof {
            let q = p@.take(len as int);
            let piece = back_piece(q, floor as nat);
            if is_dot {
                assert(piece =~= seq!['.']);
            }
            assert(q.take(q.len() - size) =~= p@.take(len - size));
        }
        trim_back_len(p, len - size, floor)
    } else {
        proof {
            let q = p@.take(len as int);
            let piece = back_piece(q, floor as nat);
            assert(piece.len() > 0);
            if piece == seq!['.'] {
                assert(piece.len() == 1);
                assert(piece[0] == p@[start as int]);
            }
        }
        len
    }
}

/// The length of what comes before the first named component of `p`.
fn before_body(p: &[char]) -> (r: usize)
    ensures
        r == before_body_len(p@),
{
    if p.len() > 0 && p[0] == '/' {
        1
    } else if p.len() > 0 && p[0] == '.' && (p.len() == 1 || p[1] == '/') {
        1
    } else {
        0
    }
}

/// The parent of path `p` (std's `Path::parent`).
pub fn path_parent(p: &str) -> (r: Option<String>)
    ensures
        r.deep_view() == parent_path(p@),
{
    let v = chars_of(p);
    let n = v.len();
    let floor = before_body(v.as_slice());
    assert(v@.take(n as int) =~= v@);
    let t = trim_back_len(v.as_slice(), n, floor);
    if t <= floor {
        if n > 0 && v[0] == '.' && floor == 1 {
            Some(String::new())
        } else {
            None
        }
    } else {
        let (_start, size) = last_piece(v.as_slice(), t, floor);
        let ghost tq = v@.take(t as int);
        assert(tq.take(tq.len() - size) =~= v@.take(t - size));
        let r = trim_back_len(v.as_slice(), t - size, floor);
        Some(string_of_range(v.as_slice(), 0, r))
    }
}

// ---------------------------------------------------------------------------
// Where to look and what was typed
// ---------------------------------------------------------------------------

/// The directory to look in and the start of the name typed: all of `input`
/// and nothing when `input` names a directory; otherwise its parent and its
/// file name. Nothing when `input` has no parent.
pub open spec fn completion_base(input: Seq<char>, input_is_dir: bool) -> Option<(Seq<char>, Seq<char>)> {
    if input_is_dir {
        Some((input, Seq::empty()))
    } else {
        match parent_path(input) {
            Some(par) => Some(
                (
                    par,
                    match file_name(input) {
                        Some(n) => n,
                        None => Seq::empty(),
                    },
                ),
            ),
            None => None,
        }
    }
}

/// The directory to look in and the start of the name typed.
pub fn autocomplete_base(input: &str, input_is_dir: bool) -> (r: Option<(String, String)>)
    ensures
        match (r, completion_base(input@, input_is_dir)) {
            (Some((d, n)), Some((sd, sn))) => d@ == sd && n@ == sn,
            (None, None) => true,
            _ => false,
        },
{
    if input_is_dir {
        return Some((String::from_str(input), String::new()));
    }
    match path_parent(input) {
        Some(par) => {
            let name = match path_file_name(input) {
                Some(n) => n,
                None => String::new(),
            };
            Some((par, name))
        },
        None => None,
    }
}

// ---------------------------------------------------------------------------
// Ordering names
// ---------------------------------------------------------------------------

/// `a` comes before or equals `b`, character by character (for UTF-8 text,
/// the order of its bytes).
pub open spec fn lex_le(a: Seq<char>, b: Seq<char>) -> bool
    decreases a.len(),
{
    if a.len() == 0 {
        true
    } else if b.len() == 0 {
        false
    } else if a[0] != b[0] {
        (a[0] as u32) < (b[0] as u32)
    } else {
        lex_le(a.drop_first(), b.drop_first())
    }
}

/// The order of names, as a relation.
pub open spec fn name_order() -> spec_fn(Seq<char>, Seq<char>) -> bool {
    |a: Seq<char>, b: Seq<char>| lex_le(a, b)
}

proof fn lemma_lex_reflexive(a: Seq<char>)
    ensures
        lex_le(a, a),
    decreases a.len(),
{
    if a.len() > 0 {
        lemma_lex_reflexive(a.drop_first());
    }
}

proof fn lemma_lex_antisymmetric(a: Seq<char>, b: Seq<char>)
    requires
        lex_le(a, b),
        lex_le(b, a),
    ensures
        a == b,
    decreases a.len(),
{
    if a.len() > 0 && b.len() > 0 {
        if a[0] == b[0] {
            lemma_lex_antisymmetric(a.drop_first(), b.drop_first());
            assert(a =~= seq![a[0]] + a.drop_first());
            assert(b =~= seq![b[0]] + b.drop_first());
        } else {
            vstd::utf8::char_u32_cast(a[0], a[0] as u32);
        }
    } else {
        assert(a.len() == 0 && b.len() == 0);
        assert(a =~= b);
    }
}

proof fn lemma_lex_transitive(a: Seq<char>, b: Seq<char>, c: Seq<char>)
    requires
        lex_le(a, b),
        lex_le(b, c),
    ensures
        lex_le(a, c),
    decreases a.len(),
{
    if a.len() > 0 && b.len() > 0 && c.len() > 0 {
        if a[0] == b[0] && b[0] == c[0] {
            lemma_lex_transitive(a.drop_first(), b.drop_first(), c.drop_first());
        } else if a[0] != c[0] {
            assert((a[0] as u32) <= (b[0] as u32) <= (c[0] as u32));
            if (a[0] as u32) == (c[0] as u32) {
                vstd::utf8::char_u32_cast(a[0], a[0] as u32);
                vstd::utf8::char_u32_cast(c[0], c[0] as u32);
            }
        } else {
            assert((a[0] as u32) <= (b[0] as u32) <= (c[0] as u32));
            vstd::utf8::char_u32_cast(a[0], a[0] as u32);
            vstd::utf8::char_u32_cast(b[0], b[0] as u32);
        }
    }
}

proof fn lemma_lex_total(a: Seq<char>, b: Seq<char>)
    ensures
        lex_le(a, b) || lex_le(b, a),
    decreases a.len(),
{
    if a.len() > 0 && b.len() > 0 {
        if a[0] == b[0] {
            lemma_lex_total(a.drop_first(), b.drop_first());
        } else {
            if (a[0] as u32) == (b[0] as u32) {
                vstd::utf8::char_u32_cast(a[0], a[0] as u32);
                vstd::utf8::char_u32_cast(b[0], b[0] as u32);
            }
        }
    }
}

/// Names are totally ordered.
pub proof fn lemma_name_order_total()
    ensures
        total_ordering(name_order()),
{
    assert forall|a: Seq<char>| #[trigger] name_order()(a, a) by {
        lemma_lex_reflexive(a);
    }
    assert forall|a: Seq<char>, b: Seq<char>|
        #[trigger] name_order()(a, b) && #[trigger] name_order()(b, a) implies a == b by {
        lemma_lex_antisymmetric(a, b);
    }
    assert forall|a: Seq<char>, b: Seq<char>, c: Seq<char>|
        #[trigger] name_order()(a, b) && #[trigger] name_order()(b, c) implies name_order()(
        a,
        c,
    ) by {
        lemma_lex_transitive(a, b, c);
    }
    assert forall|a: Seq<char>, b: Seq<char>|
        #[trigger] name_order()(a, b) || #[trigger] name_order()(b, a) by {
        lemma_lex_total(a, b);
    }
}

/// A name comes before every name that it begins.
pub proof fn lemma_prefix_comes_first(a: Seq<char>, b: Seq<char>)
    requires
        a.is_prefix_of(b),
    ensures
        lex_le(a, b),
    decreases a.len(),
{
    if a.len() > 0 {
        assert(a[0] == b[0]);
        assert(a.drop_first().is_prefix_of(b.drop_first())) by {
            assert forall|i: int| 0 <= i < a.drop_first().len() implies a.drop_first()[i]
                == b.drop_first()[i] by {
                assert(a[i + 1] == b[i + 1]);
            }
        }
        lemma_prefix_comes_first(a.drop_first(), b.drop_first());
    }
}

/// Of two names that agree up to position `k` and differ there, the one with
/// the smaller character at `k` comes first, and not the other.
pub proof fn lemma_first_difference_decides(a: Seq<char>, b: Seq<char>, k: int)
    requires
        0 <= k < a.len(),
        k < b.len(),
        a.take(k) == b.take(k),
        (a[k] as u32) < (b[k] as u32),
    ensures
        lex_le(a, b),
        !lex_le(b, a),
    decreases k,
{
    if k > 0 {
        assert(a[0] == a.take(k)[0] && b[0] == b.take(k)[0]);
        assert(a.drop_first().take(k - 1) =~= a.take(k).drop_first());
        assert(b.drop_first().take(k - 1) =~= b.take(k).drop_first());
        assert(a.drop_first()[k - 1] == a[k] && b.drop_first()[k - 1] == b[k]);
        lemma_first_difference_decides(a.drop_first(), b.drop_first(), k - 1);
    } else {
        assert(a[0] != b[0]);
    }
}

/// Whether `a` comes before or equals `b`.
fn lex_le_exec(a: &[char], b: &[char]) -> (r: bool)
    ensures
        r == lex_le(a@, b@),
{
    let n = a.len();
    let m = b.len();
    let mut i: usize = 0;
    assert(a@.skip(0) =~= a@);
    assert(b@.skip(0) =~= b@);
    while i < n && i < m && a[i] == b[i]
        invariant
            n == a@.len(),
            m == b@.len(),
            i <= n,
            i <= m,
            lex_le(a@, b@) == lex_le(a@.skip(i as int), b@.skip(i as int)),
        decreases n - i,
    {
        assert(a@.skip(i as int).drop_first() =~= a@.skip(i + 1));
        assert(b@.skip(i as int).drop_first() =~= b@.skip(i + 1));
        i = i + 1;
    }
    if i == n {
        true
    } else if i == m {
        false
    } else {
        (a[i] as u32) < (b[i] as u32)
    }
}

// ---------------------------------------------------------------------------
// Matching directories
// ---------------------------------------------------------------------------

/// A name as a directory listing gives it: not empty, no `/`, not `.` or `..`.
pub open spec fn plain_name(n: Seq<char>) -> bool {
    n.len() > 0 && !n.contains('/') && n != seq!['.'] && n != seq!['.', '.']
}

/// The names of a listing that start with `prefix`, in order.
pub open spec fn matching_names(names: Seq<Seq<char>>, prefix: Seq<char>) -> Seq<Seq<char>> {
    names.filter(|n: Seq<char>| prefix.is_prefix_of(n)).sort_by(name_order())
}

/// Insert `x` into the sorted `v`, keeping it sorted; where it went.
fn insert_sorted(v: &mut Vec<Vec<char>>, x: Vec<char>, Ghost(g): Ghost<Seq<Seq<char>>>) -> (p: usize)
    requires
        old(v)@.len() == g.len(),
        forall|k: int| 0 <= k < g.len() ==> #[trigger] old(v)@[k]@ == g[k],
        sorted_by(g, name_order()),
    ensures
        p <= g.len(),
        final(v)@.len() == g.len() + 1,
        forall|k: int|
            0 <= k < g.len() + 1 ==> #[trigger] final(v)@[k]@ == g.insert(p as int, x@)[k],
        sorted_by(g.insert(p as int, x@), name_order()),
{
    proof {
        lemma_name_order_total();
    }
    let n = v.len();
    let mut p: usize = 0;
    while p < n && lex_le_exec(v[p].as_slice(), x.as_slice())
        invariant
            n == v@.len() == g.len(),
            p <= n,
            forall|k: int| 0 <= k < g.len() ==> #[trigger] v@[k]@ == g[k],
            forall|k: int| 0 <= k < p ==> lex_le(#[trigger] g[k], x@),
        decreases n - p,
    {
        p = p + 1;
    }
    let ghost xv = x@;
    v.insert(p, x);
    proof {
        let ng = g.insert(p as int, xv);
        assert forall|k: int| 0 <= k < ng.len() implies #[trigger] v@[k]@ == ng[k] by {
            if k < p {
                assert(v@[k] == old(v)@[k]);
            } else if k > p {
                assert(v@[k] == old(v)@[k - 1]);
            }
        }
        if p < n {
            lemma_lex_total(g[p as int], xv);
        }
        assert forall|i: int, j: int| 0 <= i < j < ng.len() implies #[trigger] name_order()(
            ng[i],
            ng[j],
        ) by {
            if j < p {
                assert(ng[i] == g[i] && ng[j] == g[j]);
            } else if j == p {
                assert(ng[i] == g[i]);
            } else if i == p {
                assert(ng[j] == g[j - 1]);
                if j - 1 > p {
                    assert(name_order()(g[p as int], g[j - 1]));
                    lemma_lex_transitive(xv, g[p as int], g[j - 1]);
                }
            } else if i < p {
                assert(ng[i] == g[i] && ng[j] == g[j - 1]);
                assert(name_order()(g[i], g[j - 1]));
            } else {
                assert(ng[i] == g[i - 1] && ng[j] == g[j - 1]);
                assert(name_order()(g[i - 1], g[j - 1]));
            }
        }
        assert(sorted_by(ng, name_order()));
    }
    p
}

/// The subdirectories of `dir` whose names start with `prefix`, as paths, in
/// the order of their names. `names` are the names of the subdirectories,
/// as a directory listing gives them.
pub fn matching_dirs(dir: &str, names: Vec<String>, prefix: &str) -> (r: Vec<String>)
    requires
        forall|k: int| 0 <= k < names@.len() ==> plain_name(#[trigger] names@[k]@),
    ensures
        r.deep_view() == matching_names(names.deep_view(), prefix@).map_values(
            |n: Seq<char>| path_join(dir@, n),
        ),
{
    let pv = chars_of(prefix);
    let ghost all = names.deep_view();
    let ghost pred = |n: Seq<char>| prefix@.is_prefix_of(n);
    let mut sorted: Vec<Vec<char>> = Vec::new();
    let ghost mut g: Seq<Seq<char>> = Seq::empty();
    let n = names.len();
    let mut i: usize = 0;
    proof {
        lemma_name_order_total();
        assert(all.take(0).filter(pred).to_multiset() =~= g.to_multiset()) by {
            assert(all.take(0) =~= Seq::<Seq<char>>::empty());
            reveal_with_fuel(Seq::<_>::filter, 1);
            broadcast use vstd::seq_lib::group_to_multiset_ensures;
        }
    }
    while i < n
        invariant
            n == names@.len() == all.len(),
            all == names.deep_view(),
            pred == (|n: Seq<char>| prefix@.is_prefix_of(n)),
            pv@ == prefix@,
            i <= n,
            sorted@.len() == g.len(),
            forall|k: int| 0 <= k < g.len() ==> #[trigger] sorted@[k]@ == g[k],
            sorted_by(g, name_order()),
            all.take(i as int).filter(pred).to_multiset() == g.to_multiset(),
        decreases n - i,
    {
        proof {
            reveal_with_fuel(Seq::<_>::filter, 1);
            assert(all.take(i + 1).drop_last() =~= all.take(i as int));
            assert(all.take(i + 1).last() == all[i as int]);
        }
        let name = chars_of(names[i].as_str());
        if starts_with(name.as_slice(), pv.as_slice()) {
            let ghost before = g;
            let p = insert_sorted(&mut sorted, name, Ghost(g));
            proof {
                g = before.insert(p as int, all[i as int]);
                vstd::seq_lib::to_multiset_insert(before, p as int, all[i as int]);
                vstd::seq_lib::to_multiset_build(all.take(i as int).filter(pred), all[i as int]);
                assert(all.take(i + 1).filter(pred) == all.take(i as int).filter(pred).push(
                    all[i as int],
                ));
            }
        }
        i = i + 1;
    }
    proof {
        assert(all.take(n as int) =~= all);
        let kept = all.filter(pred);
        kept.lemma_sort_by_ensures(name_order());
        vstd::seq_lib::lemma_sorted_unique(g, kept.sort_by(name_order()), name_order());
        assert(matching_names(all, prefix@) == kept.sort_by(name_order())) by {
            assert(pred =~= (|n: Seq<char>| prefix@.is_prefix_of(n)));
        }
    }
    let mut r: Vec<String> = Vec::new();
    let m = sorted.len();
    let mut k: usize = 0;
    while k < m
        invariant
            m == sorted@.len() == g.len(),
            forall|j: int| 0 <= j < g.len() ==> #[trigger] sorted@[j]@ == g[j],
            k <= m,
            r@.len() == k,
            forall|j: int| 0 <= j < k ==> #[trigger] r@[j]@ == path_join(dir@, g[j]),
        decreases m - k,
    {
        let s = string_of(sorted[k].as_slice());
        r.push(join_path(dir, s.as_str()));
        k = k + 1;
    }
    assert(r.deep_view() =~= g.map_values(|n: Seq<char>| path_join(dir@, n)));
    r
}

// ---------------------------------------------------------------------------
// The completed text
// ---------------------------------------------------------------------------

/// The number of leading characters `a` and `b` share.
pub open spec fn common_prefix_len(a: Seq<char>, b: Seq<char>) -> nat
    decreases a.len(),
{
    if a.len() == 0 || b.len() == 0 || a[0] != b[0] {
        0
    } else {
        1 + common_prefix_len(a.drop_first(), b.drop_first())
    }
}

/// The length kept of the first match: its length in bytes, lowered to the
/// number of leading characters it shares with each other match.
pub open spec fn common_len(first: Seq<char>, others: Seq<Seq<char>>) -> nat
    decreases others.len(),
{
    if others.len() == 0 {
        byte_len(first)
    } else {
        let c = common_len(first, others.drop_last());
        let d = common_prefix_len(first, others.last());
        if d < c {
            d
        } else {
            c
        }
    }
}

/// The completed text, if it changes: with one match, the match and a `/`;
/// with several, the start of the first that they share, when that is longer
/// than what was typed. The byte count of the typed text is compared with a
/// count of characters, and the first match is cut at that many bytes.
pub open spec fn completed(matches: Seq<Seq<char>>, typed: Seq<char>, home: Option<Seq<char>>) -> Option<
    Seq<char>,
> {
    if matches.len() == 1 {
        Some(collapsed(matches[0].push('/'), home))
    } else if matches.len() > 1 {
        let c = common_len(matches[0], matches.skip(1));
        if c > byte_len(typed) {
            Some(collapsed(byte_prefix(matches[0], c as int), home))
        } else {
            None
        }
    } else {
        None
    }
}

/// Cutting the first match at the shared length would split a character.
pub open spec fn completion_panics(matches: Seq<Seq<char>>, typed: Seq<char>) -> bool {
    matches.len() > 1 && {
        let c = common_len(matches[0], matches.skip(1));
        c > byte_len(typed) && !cuttable(matches[0], c as int)
    }
}

fn common_prefix_len_exec(a: &[char], b: &[char]) -> (r: usize)
    ensures
        r == common_prefix_len(a@, b@),
        r <= a@.len(),
{
    let n = a.len();
    let m = b.len();
    let mut i: usize = 0;
    assert(a@.skip(0) =~= a@);
    assert(b@.skip(0) =~= b@);
    while i < n && i < m && a[i] == b[i]
        invariant
            n == a@.len(),
            m == b@.len(),
            i <= n,
            i <= m,
            common_prefix_len(a@, b@) == i + common_prefix_len(a@.skip(i as int), b@.skip(i as int)),
        decreases n - i,
    {
        assert(a@.skip(i as int).drop_first() =~= a@.skip(i + 1));
        assert(b@.skip(i as int).drop_first() =~= b@.skip(i + 1));
        i = i + 1;
    }
    i
}

/// The shared length of the matches, the first one's bytes lowered by each other match.
fn shared_len(matches: &Vec<String>) -> (r: usize)
    requires
        matches@.len() > 1,
    ensures
        r == common_len(matches@[0]@, matches.deep_view().skip(1)),
{
    let first = chars_of(matches[0].as_str());
    let mut c = bytes_of(matches[0].as_str());
    let ghost all = matches.deep_view();
    let n = matches.len();
    let mut i: usize = 1;
    assert(all.skip(1).take(0) =~= Seq::<Seq<char>>::empty());
    while i < n
        invariant
            n == matches@.len() == all.len(),
            all == matches.deep_view(),
            first@ == matches@[0]@,
            1 <= i <= n,
            c == common_len(first@, all.skip(1).take(i - 1)),
        decreases n - i,
    {
        let other = chars_of(matches[i].as_str());
        let d = common_prefix_len_exec(first.as_slice(), other.as_slice());
        proof {
            assert(all.skip(1).take(i as int).drop_last() =~= all.skip(1).take(i - 1));
            assert(all.skip(1).take(i as int).last() == all[i as int]);
        }
        if d < c {
            c = d;
        }
        i = i + 1;
    }
    assert(all.skip(1).take(n - 1) =~= all.skip(1));
    c
}

impl App {
    /// Whether completing with `matches` would cut the first one inside a character.
    pub fn autocomplete_would_panic(&self, matches: &Vec<String>, typed: &str) -> (r: bool)
        ensures
            r == completion_panics(matches.deep_view(), typed@),
    {
        if matches.len() > 1 {
            let c = shared_len(matches);
            c > bytes_of(typed) && !matches[0].as_str().is_char_boundary(c)
        } else {
            false
        }
    }

    /// Complete the output directory being typed, with `~` read against
    /// `home`. `matches` are the directories that match it, in order, and
    /// `typed` the text typed, with `~` expanded.
    pub fn apply_autocomplete(&mut self, matches: &Vec<String>, typed: &str, home: &Option<String>)
        requires
            !completion_panics(matches.deep_view(), typed@),
        ensures
            match completed(matches.deep_view(), typed@, home.deep_view()) {
                Some(t) => final(self).output_input@ == t && *final(self) == (App {
                    output_input: final(self).output_input,
                    ..*old(self)
                }),
                None => *final(self) == *old(self),
            },
    {
        let n = matches.len();
        if n == 1 {
            let mut s = matches[0].clone();
            push_char(&mut s, '/');
            self.output_input = collapse_tilde_with(s.as_str(), home);
        } else if n > 1 {
            let c = shared_len(matches);
            if c > bytes_of(typed) {
                let (a, _) = matches[0].as_str().split_at(c);
                proof {
                    vstd::utf8::encode_utf8_decode_utf8(a@);
                }
                self.output_input = collapse_tilde_with(a, home);
            }
        }
    }
}

} // verus!
