//! Laws of paths: joining appends components, and stripping undoes joining.
use crate::path::{
    components, extension, file_name, has_drive, is_absolute, is_blank, is_name, joined, piece_end, read_here, relative, replaced, spans,
    spans_bounds, spans_from, spans_from_bounds, stripped, tail, written_there,
};
use crate::text::{first_index_at, first_index_bounds, last_index_at};
use vstd::prelude::*;

verus! {

/// Spans moved by `by`.
pub open spec fn shifted(v: Seq<(int, int)>, by: int) -> Seq<(int, int)> {
    v.map_values(|p: (int, int)| (p.0 + by, p.1 + by))
}

/// A relative path that does not begin with the component `.`.
pub open spec fn is_plain(s: Seq<char>) -> bool {
    !is_absolute(s) && (s.len() == 0 || s.take(piece_end(s, 0)) != seq!['.'])
}

/// Where a piece ends: the first separator at or after its start, or the end of the path.
proof fn piece_end_at(s: Seq<char>, from: int, end: int)
    requires
        0 <= from <= end <= s.len(),
        forall|j: int| from <= j < end ==> s[j] != '/',
        end < s.len() ==> s[end] == '/',
    ensures
        piece_end(s, from) == end,
{
    let t = s.skip(from);
    assert forall|j: int| 0 <= j < end - from implies t[j] != '/' by {
        assert(t[j] == s[from + j]);
    }
    if end < s.len() {
        assert(t[end - from] == s[end]);
    }
    first_index_at(t, '/', end - from);
}

proof fn piece_end_bounds(s: Seq<char>, from: int)
    requires
        0 <= from <= s.len(),
    ensures
        from <= piece_end(s, from) <= s.len(),
        forall|j: int| from <= j < piece_end(s, from) ==> s[j] != '/',
        piece_end(s, from) < s.len() ==> s[piece_end(s, from)] == '/',
{
    let t = s.skip(from);
    first_index_bounds(t, '/');
    assert forall|j: int| from <= j < piece_end(s, from) implies s[j] != '/' by {
        assert(s[j] == t[j - from]);
    }
    if piece_end(s, from) < s.len() {
        assert(t[piece_end(s, from) - from] == s[piece_end(s, from)]);
    }
}

/// The components of the end of a path are those of the path from there on.
proof fn spans_of_suffix(t: Seq<char>, cut: int, from: int)
    requires
        0 <= cut <= t.len(),
        0 <= from,
    ensures
        spans_from(t, cut + from) == shifted(spans_from(t.skip(cut), from), cut),
    decreases t.len() - cut + 1 - from,
{
    let r = t.skip(cut);
    if from < r.len() {
        piece_end_bounds(r, from);
        let end = piece_end(r, from);
        assert forall|j: int| cut + from <= j < cut + end implies t[j] != '/' by {
            assert(t[j] == r[j - cut]);
        }
        if end < r.len() {
            assert(t[cut + end] == r[end]);
        }
        piece_end_at(t, cut + from, cut + end);
        assert(t.subrange(cut + from, cut + end) =~= r.subrange(from, end));
        spans_of_suffix(t, cut, end + 1);
        let rest = spans_from(r, end + 1);
        assert(shifted(seq![(from, end)] + rest, cut) =~= seq![(cut + from, cut + end)] + shifted(rest, cut));
    }
    assert(spans_from(t, cut + from) =~= shifted(spans_from(r, from), cut));
}

/// What follows the last separator does not change the components before it.
proof fn spans_of_concat(b: Seq<char>, r: Seq<char>, from: int)
    requires
        b.len() > 0,
        b.last() == '/',
        0 <= from <= b.len(),
    ensures
        spans_from(b + r, from) == spans_from(b, from) + shifted(spans_from(r, 0), b.len() as int),
    decreases b.len() + 1 - from,
{
    let t = b + r;
    if from == b.len() {
        spans_of_suffix(t, b.len() as int, 0);
        assert(t.skip(b.len() as int) =~= r);
        assert(spans_from(b, from) =~= Seq::empty());
    } else {
        piece_end_bounds(b, from);
        let end = piece_end(b, from);
        assert(end < b.len());
        assert forall|j: int| from <= j < end implies t[j] != '/' by {
            assert(t[j] == b[j]);
        }
        piece_end_at(t, from, end);
        assert(t.subrange(from, end) =~= b.subrange(from, end));
        spans_of_concat(b, r, end + 1);
    }
    assert(spans_from(t, from) =~= spans_from(b, from) + shifted(spans_from(r, 0), b.len() as int));
}

/// A separator at the end of a path adds no component.
proof fn spans_of_push(b: Seq<char>, from: int)
    requires
        0 <= from,
    ensures
        spans_from(b.push('/'), from) == spans_from(b, from),
    decreases b.len() + 1 - from,
{
    let t = b.push('/');
    if from < b.len() {
        piece_end_bounds(b, from);
        let end = piece_end(b, from);
        assert forall|j: int| from <= j < end implies t[j] != '/' by {
            assert(t[j] == b[j]);
        }
        piece_end_at(t, from, end);
        assert(t.subrange(from, end) =~= b.subrange(from, end));
        spans_of_push(b, end + 1);
    } else if from == b.len() {
        piece_end_at(t, from, from);
        assert(t.subrange(from, from).len() == 0);
        assert(spans_from(t, from + 1) =~= Seq::empty());
    }
    assert(spans_from(t, from) =~= spans_from(b, from));
}

/// The spans of a path whose base ends in a separator.
proof fn spans_of_joined(b: Seq<char>, r: Seq<char>)
    requires
        b.len() > 0,
        b.last() == '/',
    ensures
        spans(b + r) == spans(b) + shifted(spans_from(r, 0), b.len() as int),
{
    let t = b + r;
    piece_end_bounds(b, 0);
    let end = piece_end(b, 0);
    assert(end < b.len());
    assert forall|j: int| 0 <= j < end implies t[j] != '/' by {
        assert(t[j] == b[j]);
    }
    piece_end_at(t, 0, end);
    assert(t.take(end) =~= b.take(end));
    assert(t[0] == b[0]);
    spans_of_concat(b, r, 0);
    spans_of_concat(b, r, 1);
    assert(spans(t) =~= spans(b) + shifted(spans_from(r, 0), b.len() as int));
}

/// A separator at the end of a path that is not empty adds no component.
proof fn spans_of_push_all(b: Seq<char>)
    requires
        b.len() > 0,
    ensures
        spans(b.push('/')) == spans(b),
{
    let t = b.push('/');
    piece_end_bounds(b, 0);
    let end = piece_end(b, 0);
    assert forall|j: int| 0 <= j < end implies t[j] != '/' by {
        assert(t[j] == b[j]);
    }
    piece_end_at(t, 0, end);
    assert(t.take(end) =~= b.take(end));
    assert(t[0] == b[0]);
    spans_of_push(b, 0);
    spans_of_push(b, 1);
}

/// The spans of a joined path: those of the base, then those of the path, moved.
proof fn joined_spans(b: Seq<char>, r: Seq<char>) -> (cut: int)
    requires
        is_plain(r),
    ensures
        0 <= cut,
        joined(b, r).len() == cut + r.len(),
        joined(b, r).skip(cut) == r,
        b.len() <= cut,
        joined(b, r).take(b.len() as int) == b,
        spans(joined(b, r)) == spans(b) + shifted(spans(r), cut),
{
    assert(spans(r) == spans_from(r, 0));
    if b.len() == 0 {
        assert(joined(b, r) =~= r);
        assert(joined(b, r).skip(0) =~= r);
        assert(joined(b, r).take(0) =~= b);
        assert(spans(b) =~= Seq::empty());
        assert(shifted(spans(r), 0) =~= spans(r));
        assert(spans(b) + shifted(spans(r), 0) =~= spans(r));
        0
    } else if b.last() == '/' {
        spans_of_joined(b, r);
        assert(joined(b, r).skip(b.len() as int) =~= r);
        assert(joined(b, r).take(b.len() as int) =~= b);
        b.len() as int
    } else {
        let c = b.push('/');
        spans_of_push_all(b);
        spans_of_joined(c, r);
        assert(joined(b, r).skip(c.len() as int) =~= r);
        assert(joined(b, r).take(b.len() as int) =~= b);
        c.len() as int
    }
}

/// Joining appends: the components of the joined path are those of the base, then those of the
/// path.
pub proof fn join_appends_components(base: Seq<char>, path: Seq<char>)
    requires
        is_plain(path),
    ensures
        components(joined(base, path)) == components(base) + components(path),
{
    let t = joined(base, path);
    let cut = joined_spans(base, path);
    spans_bounds(base);
    spans_bounds(path);
    assert forall|i: int| 0 <= i < components(t).len() implies (#[trigger] components(t)[i]) == (components(base) + components(path))[i] by {
        let n = spans(base).len() as int;
        if i < n {
            let p = spans(base)[i];
            assert(spans(t)[i] == p);
            assert(t.subrange(p.0, p.1) =~= t.take(base.len() as int).subrange(p.0, p.1));
        } else {
            let p = spans(path)[i - n];
            assert(spans(t)[i] == shifted(spans(path), cut)[i - n]);
            assert(t.subrange(p.0 + cut, p.1 + cut) =~= t.skip(cut).subrange(p.0, p.1));
        }
    }
    assert(components(t) =~= components(base) + components(path));
}

/// Stripping undoes joining: what is left is the path, without separators and `.` at its end.
pub proof fn strip_undoes_join(base: Seq<char>, path: Seq<char>)
    requires
        is_plain(path),
    ensures
        stripped(joined(base, path), base) == Some(tail(path, 0)),
{
    let t = joined(base, path);
    let cut = joined_spans(base, path);
    join_appends_components(base, path);
    assert(components(base).is_prefix_of(components(t))) by {
        assert(components(t).subrange(0, components(base).len() as int) =~= components(base));
    }
    spans_bounds(path);
    let n = spans(base).len() as int;
    let m = spans(path).len() as int;
    if m > 0 {
        let first = spans(path)[0];
        let last = spans(path).last();
        assert(spans(t)[n] == shifted(spans(path), cut)[0]);
        assert(spans(t).last() == shifted(spans(path), cut)[m - 1]);
        assert(t.subrange(first.0 + cut, last.1 + cut) =~= t.skip(cut).subrange(first.0, last.1));
    }
}

/// From the start of one of its components on, a path has that component and the later ones.
proof fn spans_from_span(s: Seq<char>, from: int, k: int)
    requires
        0 <= from,
        0 <= k < spans_from(s, from).len(),
    ensures
        spans_from(s, spans_from(s, from)[k].0) == spans_from(s, from).skip(k),
        !is_blank(s.subrange(spans_from(s, from)[k].0, piece_end(s, spans_from(s, from)[k].0))),
    decreases s.len() + 1 - from,
{
    piece_end_bounds(s, from);
    let end = piece_end(s, from);
    let rest = spans_from(s, end + 1);
    if is_blank(s.subrange(from, end)) {
        spans_from_span(s, end + 1, k);
    } else if k > 0 {
        spans_from_span(s, end + 1, k - 1);
        assert(spans_from(s, from)[k] == rest[k - 1]);
        assert(spans_from(s, from).skip(k) =~= rest.skip(k - 1));
    } else {
        assert(spans_from(s, from).skip(0) =~= spans_from(s, from));
    }
}

/// What stands after its last component adds nothing to a path.
proof fn spans_of_take(s: Seq<char>, from: int)
    requires
        0 <= from,
        spans_from(s, from).len() > 0,
    ensures
        spans_from(s.take(spans_from(s, from).last().1), from) == spans_from(s, from),
    decreases s.len() + 1 - from,
{
    spans_from_bounds(s, from);
    piece_end_bounds(s, from);
    let z = spans_from(s, from).last().1;
    let u = s.take(z);
    let end = piece_end(s, from);
    let rest = spans_from(s, end + 1);
    spans_from_bounds(s, end + 1);
    if rest.len() > 0 {
        assert(spans_from(s, from).last() == rest.last());
        assert(rest.last().0 < rest.last().1);
        assert(end < z);
        spans_of_take(s, end + 1);
    } else {
        assert(end == z);
        assert(spans_from(u, end + 1) =~= Seq::empty());
        assert(rest =~= Seq::empty());
    }
    assert forall|j: int| from <= j < end implies u[j] != '/' by {
        assert(u[j] == s[j]);
    }
    piece_end_at(u, from, end);
    assert(u.subrange(from, end) =~= s.subrange(from, end));
    assert(spans_from(u, from) =~= spans_from(s, from));
}

/// The spans of what is left after stripping, and that it begins with a piece that counts.
proof fn tail_spans(s: Seq<char>, k: int)
    requires
        0 < k < spans(s).len(),
    ensures
        is_plain(tail(s, k)),
        shifted(spans(tail(s, k)), spans(s)[k].0) == spans(s).skip(k),
{
    let r = tail(s, k);
    let rooted = s.len() > 0 && s[0] == '/' || s.len() > 0 && s.take(piece_end(s, 0)) == seq!['.'];
    let from: int = if rooted { 1 } else { 0 };
    let all = spans_from(s, from);
    let a = spans(s)[k].0;
    let z = spans(s).last().1;
    assert(spans(s)[k] == all[k - from]);
    assert(spans(s).last() == all.last());
    spans_from_bounds(s, from);
    spans_from_span(s, from, k - from);
    let left = spans_from(s, a);
    assert(left =~= spans(s).skip(k));
    assert(left.last() == all.last());
    assert(left[0] == spans(s)[k]);
    spans_of_take(s, a);
    let u = s.take(z);
    assert(u.skip(a) =~= r);
    spans_of_suffix(u, a, 0);
    assert(shifted(spans_from(r, 0), a) == left);
    piece_end_bounds(s, a);
    let end = piece_end(s, a);
    assert(left[0] == (a, end));
    spans_bounds(s);
    assert(end <= z);
    tail_is_plain(s, a, z);
}

/// A stretch of a path that begins with a piece that counts is plain.
proof fn tail_is_plain(s: Seq<char>, a: int, z: int)
    requires
        0 <= a < s.len(),
        piece_end(s, a) <= z <= s.len(),
        !is_blank(s.subrange(a, piece_end(s, a))),
    ensures
        is_plain(s.subrange(a, z)),
{
    let r = s.subrange(a, z);
    piece_end_bounds(s, a);
    let end = piece_end(s, a);
    assert(s.subrange(a, end).len() == end - a);
    assert forall|j: int| 0 <= j < end - a implies r[j] != '/' by {
        assert(r[j] == s[a + j]);
    }
    if end < z {
        assert(r[end - a] == s[end]);
    }
    piece_end_at(r, 0, end - a);
    assert(r.take(end - a) =~= s.subrange(a, end));
    assert(r[0] == s[a]);
}

/// The components left after stripping are the later components of the path, and what is left
/// is a plain path that ends with its last component.
pub proof fn tail_keeps_components(s: Seq<char>, k: int)
    requires
        0 < k <= spans(s).len(),
    ensures
        components(tail(s, k)) == components(s).skip(k),
        is_plain(tail(s, k)),
        tail(tail(s, k), 0) == tail(s, k),
{
    let r = tail(s, k);
    if k == spans(s).len() {
        assert(r =~= Seq::empty());
        assert(components(r) =~= components(s).skip(k));
    } else {
        tail_spans(s, k);
        spans_bounds(s);
        spans_bounds(r);
        let a = spans(s)[k].0;
        let left = spans(s).skip(k);
        assert(shifted(spans(r), a).len() == spans(r).len());
        assert forall|i: int| 0 <= i < components(r).len() implies (#[trigger] components(r)[i]) == components(s).skip(k)[i] by {
            let p = spans(r)[i];
            assert(shifted(spans(r), a)[i] == left[i]);
            assert(left[i] == spans(s)[k + i]);
            assert(r.subrange(p.0, p.1) =~= s.subrange(p.0 + a, p.1 + a));
        }
        assert(components(r) =~= components(s).skip(k));
        assert(shifted(spans(r), a).last() == left.last());
        assert(shifted(spans(r), a)[0] == left[0]);
        assert(tail(r, 0) =~= r);
    }
}

/// A file under one directory, moved to the same place under another and back, returns to where
/// it was: what a push puts under `there`, a pull finds there and puts back under `here`.
pub proof fn moved_there_and_back(file: Seq<char>, here: Seq<char>, there: Seq<char>)
    requires
        here.len() > 0,
        stripped(file, here) is Some,
    ensures
        ({
            let pushed = joined(there, relative(file, here));
            let pulled = relative(pushed, there);
            &&& pulled == relative(file, here)
            &&& components(joined(here, pulled)) == components(file)
        }),
{
    let k = components(here).len() as int;
    here_has_component(here);
    tail_keeps_components(file, k);
    let r = tail(file, k);
    strip_undoes_join(there, r);
    join_appends_components(here, r);
    assert(components(here) + components(file).skip(k) =~= components(file));
}

/// A path that is not empty has a component.
pub proof fn here_has_component(s: Seq<char>)
    requires
        s.len() > 0,
    ensures
        components(s).len() > 0,
{
    piece_end_bounds(s, 0);
    if s[0] != '/' && s.take(piece_end(s, 0)) != seq!['.'] {
        assert(s.subrange(0, piece_end(s, 0)) =~= s.take(piece_end(s, 0)));
        assert(piece_end(s, 0) > 0);
        assert(spans_from(s, 0).len() > 0);
    }
}

/// A file name, taken as a path, is its own one component.
pub proof fn file_name_is_one_component(path: Seq<char>, name: Seq<char>)
    requires
        file_name(path) == Some(name),
    ensures
        components(name) == seq![name],
        is_name(name),
{
    let rooted = path.len() > 0 && path[0] == '/' || path.len() > 0 && path.take(piece_end(path, 0)) == seq!['.'];
    let from: int = if rooted { 1 } else { 0 };
    let all = spans_from(path, from);
    let p = spans(path).last();
    assert(components(path).last() == path.subrange(p.0, p.1));
    spans_bounds(path);
    if all.len() == 0 {
        assert(p == (0int, 1int));
        piece_end_bounds(path, 0);
        if path[0] == '/' {
            assert(name =~= seq!['/']);
        } else {
            assert(path.take(piece_end(path, 0))[0] == '.');
            assert(name =~= seq!['.']);
        }
    } else {
        assert(p == all.last());
        spans_from_bounds(path, from);
        spans_from_span(path, from, all.len() - 1);
        assert(spans_from(path, p.0)[0] == all.skip(all.len() - 1)[0]);
        piece_end_bounds(path, p.0);
        assert(p.1 == piece_end(path, p.0));
        assert forall|j: int| 0 <= j < name.len() implies name[j] != '/' by {
            assert(name[j] == path[p.0 + j]);
        }
        piece_end_at(name, 0, name.len() as int);
        assert(name.subrange(0, name.len() as int) =~= name);
        assert(name.take(name.len() as int) =~= name);
        assert(spans_from(name, (name.len() + 1) as int) =~= Seq::empty());
        assert(spans(name) =~= seq![(0int, name.len() as int)]);
        assert(components(name) =~= seq![name]);
    }
}

/// A file name joined to a directory is the file name of the joined path.
pub proof fn joined_file_name(dir: Seq<char>, name: Seq<char>)
    requires
        components(name) == seq![name],
        is_name(name),
    ensures
        is_plain(name),
        components(joined(dir, name)) == components(dir).push(name),
        file_name(joined(dir, name)) == Some(name),
{
    spans_bounds(name);
    assert(components(name).len() == 1);
    assert(spans(name).len() == 1);
    let p = spans(name)[0];
    assert(components(name)[0] == name.subrange(p.0, p.1));
    assert(p.0 == 0 && p.1 == name.len());
    piece_end_bounds(name, 0);
    if name[0] == '/' {
        assert(spans(name)[0] == (0int, 1int));
        assert(name =~= seq!['/']);
    }
    if name.take(piece_end(name, 0)) == seq!['.'] {
        assert(spans(name)[0] == (0int, 1int));
        assert(name =~= seq!['.']) by {
            assert(name.take(piece_end(name, 0))[0] == '.');
        }
    }
    join_appends_components(dir, name);
    assert(components(dir) + seq![name] =~= components(dir).push(name));
}

/// The path of a name in a directory that is itself a name has these two components and nothing
/// else.
pub proof fn name_in_named_directory(dir: Seq<char>, name: Seq<char>)
    requires
        components(dir) == seq![dir],
        is_name(dir),
        components(name) == seq![name],
        is_name(name),
    ensures
        is_plain(joined(dir, name)),
        components(joined(dir, name)) == seq![dir, name],
        tail(joined(dir, name), 0) == joined(dir, name),
{
    let t = joined(dir, name);
    joined_file_name(Seq::empty(), dir);
    joined_file_name(dir, name);
    let cut = joined_spans(dir, name);
    assert(components(t) =~= seq![dir, name]);
    spans_bounds(dir);
    spans_bounds(name);
    assert(components(dir).len() == 1 && components(name).len() == 1);
    assert(spans(dir).len() == 1 && spans(name).len() == 1);
    let d = spans(dir)[0];
    let n = spans(name)[0];
    assert(components(dir)[0] == dir.subrange(d.0, d.1));
    assert(components(name)[0] == name.subrange(n.0, n.1));
    assert(spans(t)[0] == d);
    assert(spans(t).last() == shifted(spans(name), cut)[0]);
    assert(tail(t, 0) =~= t);
    assert(dir.len() > 0);
    assert(t.take(dir.len() as int)[0] == t[0]);
    if t.take(piece_end(t, 0)) == seq!['.'] {
        assert(spans(t)[0] == (0int, 1int));
        assert(components(t)[0] == t.subrange(0, 1));
        piece_end_bounds(t, 0);
        assert(t.take(piece_end(t, 0))[0] == '.');
        assert(dir =~= seq!['.']);
    }
}

/// A path of a system comes back as it was: one in which the system's separator alone separates,
/// and in which no drive follows a separator at the start.
pub proof fn system_path_comes_back(path: Seq<char>, separator: char)
    requires
        separator == '/' || !path.contains('/'),
        separator == '/' || !(path.len() > 0 && path[0] == separator && has_drive(path.skip(1))),
        separator != ':' && !('a' <= separator <= 'z') && !('A' <= separator <= 'Z'),
    ensures
        written_there(read_here(path, separator), separator) == path,
{
    let t = replaced(path, separator, '/');
    let r = read_here(path, separator);
    if separator != '/' && has_drive(t) {
        assert(r.skip(1) =~= t);
    } else if separator != '/' && r.len() > 0 && r[0] == '/' && has_drive(r.skip(1)) {
        assert(path.contains(path[0]));
        assert(path[0] == separator);
        assert(path.skip(1).len() >= 2 && path.skip(1)[0] == path[1] && path.skip(1)[1] == path[2]);
        assert(r.skip(1)[0] == t[1] && r.skip(1)[1] == t[2]);
        assert(has_drive(path.skip(1)));
    }
    assert forall|i: int| 0 <= i < path.len() implies replaced(t, '/', separator)[i] == path[i] by {
        assert(path.contains(path[i]));
    }
    assert(replaced(t, '/', separator) =~= path);
}

/// A path with a drive is absolute: joined to any base it stays as it is.
pub proof fn drive_path_replaces(base: Seq<char>, path: Seq<char>, separator: char)
    requires
        separator != '/',
        has_drive(replaced(path, separator, '/')),
    ensures
        joined(base, read_here(path, separator)) == read_here(path, separator),
{
}

/// Whether a text is a piece of a path: it is not empty and has no separator.
pub open spec fn is_piece(s: Seq<char>) -> bool {
    s.len() > 0 && forall|j: int| 0 <= j < s.len() ==> s[j] != '/'
}

/// A piece, by itself, is a path of this one component; the separator by itself is the root; and
/// the empty path has no component.
pub proof fn components_of_one_piece(piece: Seq<char>)
    requires
        is_piece(piece),
    ensures
        components(piece) == seq![piece],
        components(seq!['/']) == seq![seq!['/']],
        components(Seq::<char>::empty()) == Seq::<Seq<char>>::empty(),
{
    let n = piece.len() as int;
    piece_end_at(piece, 0, n);
    assert(piece.take(n) =~= piece);
    assert(piece.subrange(0, n) =~= piece);
    if piece == seq!['.'] {
        assert(spans_from(piece, 1) =~= Seq::empty());
        assert(components(piece) =~= seq![piece]);
    } else {
        assert(spans_from(piece, n + 1) =~= Seq::empty());
        assert(spans_from(piece, 0) =~= seq![(0int, n)]);
        assert(components(piece) =~= seq![piece]);
    }
    let root = seq!['/'];
    assert(spans_from(root, 1) =~= Seq::empty());
    assert(root.subrange(0, 1) =~= root);
    assert(components(root) =~= seq![root]);
    assert(components(Seq::<char>::empty()) =~= Seq::<Seq<char>>::empty());
}

/// After a separator a piece adds itself as a component, unless it is `.`, which adds none; a
/// further separator adds none either.
pub proof fn components_of_one_more_piece(path: Seq<char>, piece: Seq<char>)
    requires
        path.len() > 0,
        path.last() == '/',
        is_piece(piece),
    ensures
        piece != seq!['.'] ==> components(path + piece) == components(path).push(piece),
        piece == seq!['.'] ==> components(path + piece) == components(path),
{
    let t = path + piece;
    let cut = path.len() as int;
    let n = piece.len() as int;
    spans_of_joined(path, piece);
    piece_end_at(piece, 0, n);
    assert(piece.subrange(0, n) =~= piece);
    assert(spans_from(piece, n + 1) =~= Seq::empty());
    spans_bounds(path);
    if piece == seq!['.'] {
        assert(spans_from(piece, 0) =~= Seq::empty());
        assert(shifted(spans_from(piece, 0), cut) =~= Seq::empty());
        assert(spans(t) =~= spans(path));
    } else {
        assert(spans_from(piece, 0) =~= seq![(0int, n)]);
        assert(shifted(spans_from(piece, 0), cut) =~= seq![(cut, cut + n)]);
        assert(t.subrange(cut, cut + n) =~= piece);
    }
    assert forall|i: int| 0 <= i < components(path).len() implies (#[trigger] components(path)[i]) == components(t)[i] by {
        let p = spans(path)[i];
        assert(spans(t)[i] == p);
        assert(t.subrange(p.0, p.1) =~= path.subrange(p.0, p.1));
    }
    if piece == seq!['.'] {
        assert(components(t) =~= components(path));
    } else {
        assert(components(t) =~= components(path).push(piece));
    }
}

/// A separator at the end of a path that is not empty adds no component.
pub proof fn separator_adds_no_component(path: Seq<char>)
    requires
        path.len() > 0,
    ensures
        components(path.push('/')) == components(path),
{
    let t = path.push('/');
    spans_of_push_all(path);
    spans_bounds(path);
    assert forall|i: int| 0 <= i < components(path).len() implies (#[trigger] components(path)[i]) == components(t)[i] by {
        let p = spans(path)[i];
        assert(t.subrange(p.0, p.1) =~= path.subrange(p.0, p.1));
    }
    assert(components(t) =~= components(path));
}

/// No separator stands in a component from `from` on.
proof fn spans_from_are_pieces(s: Seq<char>, from: int, k: int)
    requires
        0 <= from,
        0 <= k < spans_from(s, from).len(),
    ensures
        forall|j: int| spans_from(s, from)[k].0 <= j < spans_from(s, from)[k].1 ==> s[j] != '/',
    decreases s.len() + 1 - from,
{
    piece_end_bounds(s, from);
    let end = piece_end(s, from);
    if is_blank(s.subrange(from, end)) {
        spans_from_are_pieces(s, end + 1, k);
    } else if k > 0 {
        spans_from_are_pieces(s, end + 1, k - 1);
        assert(spans_from(s, from)[k] == spans_from(s, end + 1)[k - 1]);
    }
}

/// Stripping works exactly where the path begins with the components of the base. What is left
/// has the other components; it is a stretch of the path as it stands there, without a separator
/// at its ends.
pub proof fn strip_takes_off_the_front(path: Seq<char>, base: Seq<char>)
    requires
        base.len() > 0,
    ensures
        stripped(path, base) is Some <==> components(base).len() <= components(path).len() && components(path).take(
            components(base).len() as int,
        ) == components(base),
        stripped(path, base) matches Some(t) ==> {
            &&& components(path) == components(base) + components(t)
            &&& exists|a: int, z: int| 0 <= a <= z <= path.len() && t == #[trigger] path.subrange(a, z)
            &&& t.len() > 0 ==> t[0] != '/' && t.last() != '/'
            &&& relative(path, base) == t
        },
        stripped(path, base) is None ==> relative(path, base) == path,
{
    let n = components(base).len() as int;
    here_has_component(base);
    if n <= components(path).len() {
        assert(components(path).take(n) =~= components(path).subrange(0, n));
    }
    if let Some(t) = stripped(path, base) {
        tail_keeps_components(path, n);
        assert(components(path) =~= components(path).take(n) + components(path).skip(n));
        spans_bounds(path);
        if n < spans(path).len() {
            let a = spans(path)[n].0;
            let z = spans(path).last().1;
            assert(t == path.subrange(a, z));
            let rooted = path.len() > 0 && path[0] == '/' || path.len() > 0 && path.take(piece_end(path, 0)) == seq!['.'];
            let from: int = if rooted { 1 } else { 0 };
            let all = spans_from(path, from);
            assert(spans(path).last() == all.last());
            spans_from_bounds(path, from);
            spans_from_are_pieces(path, from, all.len() - 1);
            assert(t.last() == path[z - 1]);
        } else {
            assert(t =~= path.subrange(0, 0));
        }
    }
}

/// A path joined to a base: an absolute path stays as it is; any other follows the base after one
/// separator, which the base may bring itself.
pub proof fn joined_text(base: Seq<char>, path: Seq<char>)
    ensures
        path.len() > 0 && path[0] == '/' ==> joined(base, path) == path,
        !(path.len() > 0 && path[0] == '/') ==> {
            let t = joined(base, path);
            &&& t.take(base.len() as int) == base
            &&& t.skip(t.len() - path.len()) == path
            &&& t.len() == base.len() + path.len() + if base.len() == 0 || base.last() == '/' { 0int } else { 1int }
            &&& base.len() > 0 ==> t[t.len() - path.len() - 1] == '/'
        },
{
    if !(path.len() > 0 && path[0] == '/') {
        let t = joined(base, path);
        assert(t.take(base.len() as int) =~= base);
        assert(t.skip(t.len() - path.len()) =~= path);
    }
}

/// The file name of a path is its last component, unless that is the root, `.` or `..`.
pub proof fn file_name_is_the_last_component(path: Seq<char>)
    ensures
        ({
            let c = components(path);
            let named = c.len() > 0 && c.last() != seq!['/'] && c.last() != seq!['.'] && c.last() != seq!['.', '.'];
            file_name(path) == if named { Some(c.last()) } else { None }
        }),
{
}

/// The extension of a path follows the last dot of its file name, if that is not its first
/// character.
pub proof fn extension_follows_the_last_dot(path: Seq<char>, stem: Seq<char>, rest: Seq<char>)
    requires
        forall|j: int| 0 <= j < rest.len() ==> rest[j] != '.',
    ensures
        file_name(path) == Some(stem.push('.') + rest) && stem.len() > 0 ==> extension(path) == Some(rest),
        file_name(path) == Some(rest) ==> extension(path) is None,
        file_name(path) == Some(seq!['.'] + rest) ==> extension(path) is None,
        file_name(path) is None ==> extension(path) is None,
{
    let n = stem.len() as int;
    let dotted = stem.push('.') + rest;
    assert forall|j: int| n < j < dotted.len() implies dotted[j] != '.' by {
        assert(dotted[j] == rest[j - n - 1]);
    }
    last_index_at(dotted, '.', n);
    assert(dotted.skip(n + 1) =~= rest);
    last_index_at(rest, '.', -1);
    let hidden = seq!['.'] + rest;
    assert forall|j: int| 0 < j < hidden.len() implies hidden[j] != '.' by {
        assert(hidden[j] == rest[j - 1]);
    }
    last_index_at(hidden, '.', 0);
}

/// A path of a system is read with `/` for its separator, and behind a `/` where it starts with a
/// letter and a colon and the separator is another one.
pub proof fn system_path_is_read(path: Seq<char>, separator: char, i: int)
    requires
        0 <= i < path.len(),
    ensures
        ({
            let r = read_here(path, separator);
            let first = path[0];
            let drive = separator != '/' && path.len() >= 2 && ('a' <= first <= 'z' || 'A' <= first <= 'Z') && first != separator
                && path[1] == ':' && separator != ':';
            let k = if drive { 1int } else { 0int };
            &&& r.len() == path.len() + k
            &&& drive ==> r[0] == '/'
            &&& r[i + k] == if path[i] == separator { '/' } else { path[i] }
        }),
{
}

/// A path is written with the system's separator for `/`, and without the `/` before a drive where
/// the separator is another one.
pub proof fn system_path_is_written(path: Seq<char>, separator: char, i: int)
    requires
        0 <= i < path.len(),
    ensures
        ({
            let w = written_there(path, separator);
            let drive = separator != '/' && path[0] == '/' && path.len() >= 3 && ('a' <= path[1] <= 'z' || 'A' <= path[1] <= 'Z')
                && path[2] == ':';
            let k = if drive { 1int } else { 0int };
            &&& w.len() == path.len() - k
            &&& i >= k ==> w[i - k] == if path[i] == '/' { separator } else { path[i] }
        }),
{
}

} // verus!
