//! Unix paths as text: components, prefixes, file names, joining.
//!
//! A path is read as `std::path` reads it on Unix: components are separated by `/`; empty ones
//! and `.` count for nothing, except for the root at the start and a `.` at the start. A component is
//! written as text: `/` is the root, `.` and `..` the current and the parent directory, anything
//! else a name.
//!
//! The separator is `/` on every system, and an absolute path starts with it. Where a system has
//! another separator, and drives, `from_system` brings its paths into this form, and `to_system`
//! back into the system's.
use crate::text::{chars_of, first_index, first_index_at, first_index_bounds, last_index, last_index_at};
use vstd::prelude::*;
use vstd::string::StrSliceExecFns;
use vstd::string::StringExecFns;

verus! {

/// Whether the piece between two separators counts for nothing.
pub open spec fn is_blank(piece: Seq<char>) -> bool {
    piece.len() == 0 || piece == seq!['.']
}

/// The end of the piece that starts at `from`: the next separator, or the end of the path.
pub open spec fn piece_end(s: Seq<char>, from: int) -> int {
    from + first_index(s.skip(from), '/')
}

/// Start and end of each component of `s` from `from` on, where `from` is past the first piece.
pub open spec fn spans_from(s: Seq<char>, from: int) -> Seq<(int, int)>
    decreases s.len() + 1 - from,
    when 0 <= from
    via spans_from_decreases
{
    if from >= s.len() {
        Seq::empty()
    } else {
        let end = piece_end(s, from);
        if is_blank(s.subrange(from, end)) {
            spans_from(s, end + 1)
        } else {
            seq![(from, end)] + spans_from(s, end + 1)
        }
    }
}

#[via_fn]
proof fn spans_from_decreases(s: Seq<char>, from: int) {
    if from < s.len() {
        first_index_bounds(s.skip(from), '/');
    }
}

/// Start and end of each component of a path.
pub open spec fn spans(s: Seq<char>) -> Seq<(int, int)> {
    if s.len() > 0 && s[0] == '/' || s.len() > 0 && s.take(piece_end(s, 0)) == seq!['.'] {
        seq![(0int, 1int)] + spans_from(s, 1)
    } else {
        spans_from(s, 0)
    }
}

/// The components of a path, as text.
pub open spec fn components(s: Seq<char>) -> Seq<Seq<char>> {
    spans(s).map_values(|span: (int, int)| s.subrange(span.0, span.1))
}

/// Whether a component is a name: not the root, nor the current or the parent directory.
pub open spec fn is_name(component: Seq<char>) -> bool {
    component != seq!['/'] && component != seq!['.'] && component != seq!['.', '.']
}

/// The text of a path from its component `k` to the end of its last component.
pub open spec fn tail(s: Seq<char>, k: int) -> Seq<char> {
    if k < spans(s).len() {
        s.subrange(spans(s)[k].0, spans(s).last().1)
    } else {
        Seq::empty()
    }
}

/// What is left of a path when the components of `base` are taken off its front; `None` where it
/// does not begin with them.
pub open spec fn stripped(s: Seq<char>, base: Seq<char>) -> Option<Seq<char>> {
    if components(base).is_prefix_of(components(s)) {
        Some(tail(s, components(base).len() as int))
    } else {
        None
    }
}

/// A path relative to `base`, or the path itself where it does not lie under `base`.
pub open spec fn relative(s: Seq<char>, base: Seq<char>) -> Seq<char> {
    match stripped(s, base) {
        Some(t) => t,
        None => s,
    }
}

/// The last component of a path, where that is a name.
pub open spec fn file_name(s: Seq<char>) -> Option<Seq<char>> {
    let c = components(s);
    if c.len() > 0 && is_name(c.last()) {
        Some(c.last())
    } else {
        None
    }
}

/// Whether a path starts at the root.
pub open spec fn is_absolute(s: Seq<char>) -> bool {
    s.len() > 0 && s[0] == '/'
}

/// The path `s` taken from `base`: `s` itself where it is absolute.
pub open spec fn joined(base: Seq<char>, s: Seq<char>) -> Seq<char> {
    if is_absolute(s) {
        s
    } else if base.len() == 0 || base.last() == '/' {
        base + s
    } else {
        base.push('/') + s
    }
}

/// The part of a file name after its last dot; `None` without a dot, or where the only dot is
/// its first character.
pub open spec fn extension(s: Seq<char>) -> Option<Seq<char>> {
    match file_name(s) {
        Some(name) => if last_index(name, '.') > 0 {
            Some(name.skip(last_index(name, '.') + 1))
        } else {
            None
        },
        None => None,
    }
}

/// The exec form of a span list.
spec fn span_views(v: Seq<(usize, usize)>) -> Seq<(int, int)> {
    v.map_values(|p: (usize, usize)| (p.0 as int, p.1 as int))
}

/// Each span lies within the path, and the spans are in order.
pub proof fn spans_from_bounds(s: Seq<char>, from: int)
    requires
        0 <= from,
    ensures
        forall|i: int| 0 <= i < spans_from(s, from).len() ==> from <= (#[trigger] spans_from(s, from)[i]).0 < spans_from(s, from)[i].1 <= s.len(),
        forall|i: int, j: int| 0 <= i < j < spans_from(s, from).len() ==> (#[trigger] spans_from(s, from)[i]).1 < (#[trigger] spans_from(s, from)[j]).0,
    decreases s.len() + 1 - from,
{
    if from < s.len() {
        first_index_bounds(s.skip(from), '/');
        let end = piece_end(s, from);
        let rest = spans_from(s, end + 1);
        spans_from_bounds(s, end + 1);
        if !is_blank(s.subrange(from, end)) {
            let all = spans_from(s, from);
            assert(all =~= seq![(from, end)] + rest);
            assert forall|i: int| 0 <= i < all.len() implies from <= (#[trigger] all[i]).0 < all[i].1 <= s.len() by {
                if i > 0 {
                    assert(all[i] == rest[i - 1]);
                }
            }
            assert forall|i: int, j: int| 0 <= i < j < all.len() implies (#[trigger] all[i]).1 < (#[trigger] all[j]).0 by {
                assert(all[j] == rest[j - 1]);
                if i > 0 {
                    assert(all[i] == rest[i - 1]);
                }
            }
        }
    }
}

/// Each span of a path lies within it, and the spans are in order.
pub proof fn spans_bounds(s: Seq<char>)
    ensures
        forall|i: int| 0 <= i < spans(s).len() ==> 0 <= (#[trigger] spans(s)[i]).0 < spans(s)[i].1 <= s.len(),
        forall|i: int, j: int| 0 <= i <= j < spans(s).len() ==> (#[trigger] spans(s)[i]).0 <= (#[trigger] spans(s)[j]).0 && spans(s)[i].1 <= spans(s)[j].1,
{
    spans_from_bounds(s, 0);
    spans_from_bounds(s, 1);
    if s.len() > 0 {
        first_index_bounds(s.skip(0), '/');
    }
}

fn find_piece_end(cs: &Vec<char>, from: usize) -> (end: usize)
    requires
        from <= cs.len(),
    ensures
        end == piece_end(cs@, from as int),
        from <= end <= cs.len(),
{
    let mut end: usize = from;
    while end < cs.len() && cs[end] != '/'
        invariant
            from <= end <= cs.len(),
            forall|j: int| from <= j < end ==> cs@[j] != '/',
        decreases cs.len() - end,
    {
        end = end + 1;
    }
    proof {
        let t = cs@.skip(from as int);
        assert forall|j: int| 0 <= j < end - from implies t[j] != '/' by {
            assert(t[j] == cs@[j + from]);
        }
        first_index_at(t, '/', end - from);
    }
    end
}

fn piece_is_dot(cs: &Vec<char>, from: usize, end: usize) -> (r: bool)
    requires
        from <= end <= cs.len(),
    ensures
        r == (cs@.subrange(from as int, end as int) == seq!['.']),
{
    let r = end - from == 1 && cs[from] == '.';
    proof {
        let p = cs@.subrange(from as int, end as int);
        if r {
            assert(p =~= seq!['.']);
        } else if p == seq!['.'] {
            assert(p.len() == 1 && p[0] == '.');
        }
    }
    r
}

fn find_spans(cs: &Vec<char>) -> (r: Vec<(usize, usize)>)
    ensures
        span_views(r@) == spans(cs@),
{
    let mut r: Vec<(usize, usize)> = Vec::new();
    let mut from: usize = 0;
    if cs.len() > 0 {
        let end = find_piece_end(cs, 0);
        proof {
            assert(cs@.subrange(0, end as int) =~= cs@.take(end as int));
        }
        if cs[0] == '/' || piece_is_dot(cs, 0, end) {
            r.push((0, 1));
            from = 1;
        }
    }
    assert(span_views(r@) + spans_from(cs@, from as int) =~= spans(cs@));
    while from < cs.len()
        invariant
            span_views(r@) + spans_from(cs@, from as int) == spans(cs@),
        decreases cs.len() - from,
    {
        let end = find_piece_end(cs, from);
        let ghost before = r@;
        if end > from && !piece_is_dot(cs, from, end) {
            r.push((from, end));
            assert(span_views(r@) =~= span_views(before).push((from as int, end as int)));
            assert(span_views(before) + (seq![(from as int, end as int)] + spans_from(cs@, end + 1)) =~= span_views(r@)
                + spans_from(cs@, end + 1));
        }
        if end >= cs.len() {
            assert(spans_from(cs@, end + 1) =~= Seq::empty());
            assert(span_views(r@) =~= spans(cs@));
            return r;
        }
        from = end + 1;
    }
    assert(span_views(r@) =~= spans(cs@));
    r
}

fn same_piece(a: &Vec<char>, p: (usize, usize), b: &Vec<char>, q: (usize, usize)) -> (r: bool)
    requires
        p.0 <= p.1 <= a.len(),
        q.0 <= q.1 <= b.len(),
    ensures
        r == (a@.subrange(p.0 as int, p.1 as int) == b@.subrange(q.0 as int, q.1 as int)),
{
    let ghost x = a@.subrange(p.0 as int, p.1 as int);
    let ghost y = b@.subrange(q.0 as int, q.1 as int);
    if p.1 - p.0 != q.1 - q.0 {
        assert(x.len() != y.len());
        return false;
    }
    let mut i: usize = 0;
    while i < p.1 - p.0
        invariant
            p.0 <= p.1 <= a.len(),
            q.0 <= q.1 <= b.len(),
            p.1 - p.0 == q.1 - q.0,
            x == a@.subrange(p.0 as int, p.1 as int),
            y == b@.subrange(q.0 as int, q.1 as int),
            i <= p.1 - p.0,
            forall|j: int| 0 <= j < i ==> x[j] == y[j],
        decreases p.1 - p.0 - i,
    {
        if a[p.0 + i] != b[q.0 + i] {
            assert(x[i as int] != y[i as int]);
            return false;
        }
        i = i + 1;
    }
    assert(x =~= y);
    true
}

/// What is left of `path` when the components of `base` are taken off its front.
pub fn strip_prefix(path: &str, base: &str) -> (r: Option<String>)
    ensures
        match stripped(path@, base@) {
            Some(t) => r is Some && r->0@ == t,
            None => r is None,
        },
{
    let cs = chars_of(path);
    let bs = chars_of(base);
    let ps = find_spans(&cs);
    let qs = find_spans(&bs);
    proof {
        spans_bounds(cs@);
        spans_bounds(bs@);
        assert(spans(cs@).len() == ps@.len());
        assert(spans(bs@).len() == qs@.len());
        assert forall|i: int| 0 <= i < ps@.len() implies (#[trigger] spans(cs@)[i]) == (ps@[i].0 as int, ps@[i].1 as int) by {
            assert(span_views(ps@)[i] == spans(cs@)[i]);
        }
        assert forall|i: int| 0 <= i < qs@.len() implies (#[trigger] spans(bs@)[i]) == (qs@[i].0 as int, qs@[i].1 as int) by {
            assert(span_views(qs@)[i] == spans(bs@)[i]);
        }
    }
    let ghost cp = components(cs@);
    let ghost cb = components(bs@);
    if qs.len() > ps.len() {
        return None;
    }
    let mut i: usize = 0;
    while i < qs.len()
        invariant
            cs@ == path@,
            bs@ == base@,
            qs.len() <= ps.len(),
            i <= qs.len(),
            cp == components(cs@),
            cb == components(bs@),
            spans(cs@).len() == ps@.len(),
            spans(bs@).len() == qs@.len(),
            forall|k: int| 0 <= k < ps@.len() ==> (#[trigger] spans(cs@)[k]) == (ps@[k].0 as int, ps@[k].1 as int),
            forall|k: int| 0 <= k < qs@.len() ==> (#[trigger] spans(bs@)[k]) == (qs@[k].0 as int, qs@[k].1 as int),
            forall|k: int| 0 <= k < spans(cs@).len() ==> 0 <= (#[trigger] spans(cs@)[k]).0 < spans(cs@)[k].1 <= cs@.len(),
            forall|k: int| 0 <= k < spans(bs@).len() ==> 0 <= (#[trigger] spans(bs@)[k]).0 < spans(bs@)[k].1 <= bs@.len(),
            forall|j: int| 0 <= j < i ==> cp[j] == cb[j],
        decreases qs.len() - i,
    {
        assert(spans(cs@)[i as int] == (ps@[i as int].0 as int, ps@[i as int].1 as int));
        assert(spans(bs@)[i as int] == (qs@[i as int].0 as int, qs@[i as int].1 as int));
        if !same_piece(&cs, ps[i], &bs, qs[i]) {
            assert(cp[i as int] != cb[i as int]);
            return None;
        }
        assert(cp[i as int] == cb[i as int]);
        i = i + 1;
    }
    assert(cb.is_prefix_of(cp)) by {
        assert(cp.subrange(0, cb.len() as int) =~= cb);
    }
    if qs.len() < ps.len() {
        assert(spans(cs@)[qs@.len() as int] == (ps@[qs@.len() as int].0 as int, ps@[qs@.len() as int].1 as int));
        assert(spans(cs@)[ps@.len() - 1] == (ps@[ps@.len() - 1].0 as int, ps@[ps@.len() - 1].1 as int));
        Some(path.substring_char(ps[qs.len()].0, ps[ps.len() - 1].1).to_string())
    } else {
        Some(String::new())
    }
}

/// `path` relative to `base`, or `path` itself where it does not lie under `base`.
pub fn relative_to(path: &str, base: &str) -> (r: String)
    ensures
        r@ == relative(path@, base@),
{
    match strip_prefix(path, base) {
        Some(t) => t,
        None => path.to_string(),
    }
}

/// The first component of a path, as text.
pub fn first_component(path: &str) -> (r: Option<String>)
    ensures
        match r {
            Some(c) => components(path@).len() > 0 && c@ == components(path@)[0],
            None => components(path@).len() == 0,
        },
{
    let cs = chars_of(path);
    let ps = find_spans(&cs);
    assert(spans(cs@).len() == ps@.len());
    if ps.len() == 0 {
        None
    } else {
        proof {
            spans_bounds(cs@);
            assert(span_views(ps@)[0] == spans(cs@)[0]);
        }
        Some(path.substring_char(ps[0].0, ps[0].1).to_string())
    }
}

/// The file name of a path: its last component, where that is a name.
pub fn path_file_name(path: &str) -> (r: Option<String>)
    ensures
        match file_name(path@) {
            Some(name) => r is Some && r->0@ == name,
            None => r is None,
        },
{
    let cs = chars_of(path);
    let ps = find_spans(&cs);
    assert(spans(cs@).len() == ps@.len());
    if ps.len() == 0 {
        return None;
    }
    let (start, end) = ps[ps.len() - 1];
    proof {
        spans_bounds(cs@);
        assert(span_views(ps@)[ps@.len() - 1] == spans(cs@)[ps@.len() - 1]);
    }
    let ghost last = components(path@).last();
    assert(last == cs@.subrange(start as int, end as int));
    if end - start == 1 && (cs[start] == '/' || cs[start] == '.') {
        proof {
            if cs@[start as int] == '/' {
                assert(last =~= seq!['/']);
            } else {
                assert(last =~= seq!['.']);
            }
        }
        return None;
    }
    if end - start == 2 && cs[start] == '.' && cs[start + 1] == '.' {
        assert(last =~= seq!['.', '.']);
        return None;
    }
    proof {
        assert(last[0] == cs@[start as int]);
        if last == seq!['/'] {
            assert(last[0] == '/' && last.len() == 1);
        }
        if last == seq!['.'] {
            assert(last[0] == '.' && last.len() == 1);
        }
        if last == seq!['.', '.'] {
            assert(last[0] == '.' && last[1] == '.' && last.len() == 2);
        }
    }
    Some(path.substring_char(start, end).to_string())
}

/// The path `path` taken from `base`.
pub fn join_paths(base: &str, path: &str) -> (r: String)
    ensures
        r@ == joined(base@, path@),
{
    let bs = chars_of(base);
    let cs = chars_of(path);
    if cs.len() > 0 && cs[0] == '/' {
        return path.to_string();
    }
    let mut r = base.to_string();
    if bs.len() > 0 && bs[bs.len() - 1] != '/' {
        r.append("/");
        proof {
            reveal_strlit("/");
            assert(r@ =~= base@.push('/'));
        }
    }
    r.append(path);
    r
}

/// The extension of a path's file name.
pub fn path_extension(path: &str) -> (r: Option<String>)
    ensures
        match extension(path@) {
            Some(ext) => r is Some && r->0@ == ext,
            None => r is None,
        },
{
    let name = match path_file_name(path) {
        Some(name) => name,
        None => {
            return None;
        },
    };
    let cs = chars_of(name.as_str());
    let mut i: usize = cs.len();
    while i > 0 && cs[i - 1] != '.'
        invariant
            i <= cs.len(),
            forall|j: int| i <= j < cs.len() ==> cs@[j] != '.',
        decreases i,
    {
        i = i - 1;
    }
    proof {
        last_index_at(cs@, '.', i - 1);
    }
    if i > 1 {
        assert(cs@.skip(i as int) =~= cs@.subrange(i as int, cs@.len() as int));
        Some(name.as_str().substring_char(i, cs.len()).to_string())
    } else {
        None
    }
}

/// A text with `to` for each `from`.
pub open spec fn replaced(s: Seq<char>, from: char, to: char) -> Seq<char> {
    s.map_values(
        |c: char|
            if c == from {
                to
            } else {
                c
            },
    )
}

/// Whether a path starts with a drive: a letter and a colon.
pub open spec fn has_drive(s: Seq<char>) -> bool {
    s.len() >= 2 && ('a' <= s[0] <= 'z' || 'A' <= s[0] <= 'Z') && s[1] == ':'
}

/// A path of a system with the given separator, as it is read here: with `/` for the separator,
/// and for an absolute path where it starts with a drive. Where the separator is `/` there are no
/// drives, and a path is read as it stands.
pub open spec fn read_here(s: Seq<char>, separator: char) -> Seq<char> {
    let t = replaced(s, separator, '/');
    if separator != '/' && has_drive(t) {
        seq!['/'] + t
    } else {
        t
    }
}

/// A path as a system with the given separator writes it.
pub open spec fn written_there(s: Seq<char>, separator: char) -> Seq<char> {
    if separator != '/' && s.len() > 0 && s[0] == '/' && has_drive(s.skip(1)) {
        replaced(s.skip(1), '/', separator)
    } else {
        replaced(s, '/', separator)
    }
}

fn replace_char(s: &str, from: char, to: &str) -> (r: String)
    requires
        to@.len() == 1,
    ensures
        r@ == replaced(s@, from, to@[0]),
{
    let chars = chars_of(s);
    let mut r = String::new();
    let mut i: usize = 0;
    while i < chars.len()
        invariant
            i <= chars.len(),
            chars@ == s@,
            to@.len() == 1,
            r@ == replaced(s@.take(i as int), from, to@[0]),
        decreases chars.len() - i,
    {
        let ghost old_r = r@;
        if chars[i] == from {
            r.append(to);
        } else {
            r.append(s.substring_char(i, i + 1));
        }
        assert(r@ =~= old_r.push(replaced(s@, from, to@[0])[i as int]));
        assert(replaced(s@.take(i + 1), from, to@[0]) =~= replaced(s@.take(i as int), from, to@[0]).push(
            replaced(s@, from, to@[0])[i as int],
        ));
        i = i + 1;
    }
    assert(s@.take(i as int) =~= s@);
    r
}

fn starts_with_drive(chars: &Vec<char>, at: usize) -> (r: bool)
    requires
        at <= chars@.len(),
    ensures
        r == has_drive(chars@.skip(at as int)),
{
    if chars.len() - at < 2 {
        return false;
    }
    let letter = chars[at];
    ('a' <= letter && letter <= 'z' || 'A' <= letter && letter <= 'Z') && chars[at + 1] == ':'
}

/// A path of a system with the given separator, as it is read here.
pub fn from_system(path: &str, separator: char) -> (r: String)
    ensures
        r@ == read_here(path@, separator),
{
    proof {
        reveal_strlit("/");
    }
    let t = replace_char(path, separator, "/");
    let chars = chars_of(t.as_str());
    assert(chars@.skip(0) =~= chars@);
    if separator != '/' && starts_with_drive(&chars, 0) {
        let r = "/".to_string().concat(t.as_str());
        assert(r@ =~= seq!['/'] + t@);
        r
    } else {
        t
    }
}

/// A path as a system with the given separator, a text of one character, writes it.
pub fn to_system(path: &str, separator: &str) -> (r: String)
    requires
        separator@.len() == 1,
    ensures
        r@ == written_there(path@, separator@[0]),
{
    let chars = chars_of(path);
    let sep = chars_of(separator)[0];
    if sep != '/' && chars.len() > 0 && chars[0] == '/' && starts_with_drive(&chars, 1) {
        let rest = path.substring_char(1, chars.len());
        assert(rest@ =~= path@.skip(1));
        replace_char(rest, '/', separator)
    } else {
        replace_char(path, '/', separator)
    }
}

} // verus!
