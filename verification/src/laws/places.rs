//! Promises about paths: a file that is put into a directory lies there under its name.
use crate::host::Host;
use crate::paths;
use crate::paths::Step;
use crate::text;
use vstd::prelude::*;

verus! {

/// A name that any directory can hold.
pub open spec fn is_plain_name(host: Host, name: Seq<char>) -> bool {
    &&& name.len() > 0
    &&& name != "."@
    &&& name != ".."@
    &&& forall|i: int|
        0 <= i < name.len() ==> #[trigger] name[i] != '/' && (host == Host::Windows ==> name[i]
            != '\\' && name[i] != ':')
}

/// A directory of Unix, or one on a drive of Windows, that is written without a separator at
/// its end.
pub open spec fn is_plain_dir(host: Host, dir: Seq<char>) -> bool {
    &&& dir.len() > 0
    &&& dir.last() != '/'
    &&& host == Host::Windows ==> dir.last() != '\\' && dir.len() > 2 && text::is_letter(dir[0])
        && dir[1] == ':'
}

/// The character that stands between a directory and what it holds.
pub open spec fn between(host: Host) -> char {
    if host == Host::Windows {
        '\\'
    } else {
        '/'
    }
}

/// A name is put behind its directory, with the host's separator between them.
pub proof fn a_name_is_put_behind_its_directory(host: Host, dir: Seq<char>, name: Seq<char>)
    requires
        is_plain_dir(host, dir),
        is_plain_name(host, name),
    ensures
        paths::joined(host, dir, name) == dir.push(between(host)) + name,
        is_plain_dir(host, paths::joined(host, dir, name)),
{
    reveal_strlit("\\");
    reveal_strlit("/");
    assert(name[0] != '/');
    assert(name[name.len() - 1] != '/');
    if name.len() > 1 {
        assert(name[1] != '/');
    }
    assert(dir + paths::sep_of(host) + name =~= dir.push(between(host)) + name);
}

proof fn lemma_same_end(host: Host, dir: Seq<char>, name: Seq<char>, from: int)
    requires
        is_plain_dir(host, dir),
        is_plain_name(host, name),
        0 <= from <= dir.len(),
    ensures
        ({
            let all = dir.push(between(host)) + name;
            paths::next_sep(host, false, all, from) == paths::next_sep(host, false, dir, from)
        }),
    decreases dir.len() - from,
{
    let all = dir.push(between(host)) + name;
    if from < dir.len() {
        assert(all[from] == dir[from]);
        lemma_same_end(host, dir, name, from + 1);
    } else {
        assert(all[from] == between(host));
    }
}

proof fn lemma_no_end(host: Host, dir: Seq<char>, name: Seq<char>, from: int)
    requires
        is_plain_name(host, name),
        dir.len() < from <= dir.len() + 1 + name.len(),
    ensures
        ({
            let all = dir.push(between(host)) + name;
            paths::next_sep(host, false, all, from) == all.len()
        }),
    decreases dir.len() + 1 + name.len() - from,
{
    let all = dir.push(between(host)) + name;
    if from < all.len() {
        assert(all[from] == name[from - dir.len() - 1]);
        lemma_no_end(host, dir, name, from + 1);
    }
}

/// A name more is a step more.
proof fn lemma_one_step_more(host: Host, dir: Seq<char>, name: Seq<char>, from: int)
    requires
        is_plain_dir(host, dir),
        is_plain_name(host, name),
        0 <= from <= dir.len(),
    ensures
        ({
            let all = dir.push(between(host)) + name;
            paths::steps_from(host, all, from) == paths::steps_from(host, dir, from).push(
                Step { mark: paths::NAME@ + name, end: all.len() as int },
            )
        }),
    decreases dir.len() - from,
{
    let all = dir.push(between(host)) + name;
    let n = dir.len() as int;
    assert(paths::prefix_of(host, all) == paths::prefix_of(host, dir)) by {
        assert(all[0] == dir[0]);
        if host == Host::Windows {
            assert(all[1] == dir[1]);
        }
    }
    assert(!paths::prefix_of(host, dir).verbatim());
    lemma_same_end(host, dir, name, from);
    paths::lemma_next_sep(host, false, dir, from);
    let end = paths::next_sep(host, false, dir, from);
    assert(all.subrange(from, end) =~= dir.subrange(from, end));
    let last = Step { mark: paths::NAME@ + name, end: all.len() as int };
    if end >= n {
        lemma_no_end(host, dir, name, n + 1);
        assert(all.subrange(n + 1, all.len() as int) =~= name);
        assert(paths::steps_from(host, all, n + 1) =~= seq![last]);
        assert(paths::steps_from(host, all, from) =~= paths::steps_from(host, dir, from).push(last));
    } else {
        lemma_one_step_more(host, dir, name, end + 1);
        assert(paths::steps_from(host, all, from) =~= paths::steps_from(host, dir, from).push(last));
    }
}

/// The steps of a path in a directory are the directory's and one more.
proof fn lemma_steps_of_joined(host: Host, dir: Seq<char>, name: Seq<char>)
    requires
        is_plain_dir(host, dir),
        is_plain_name(host, name),
    ensures
        ({
            let all = dir.push(between(host)) + name;
            &&& paths::steps_of(host, all) == paths::steps_of(host, dir).push(
                Step { mark: paths::NAME@ + name, end: all.len() as int },
            )
            &&& paths::root_len(host, all) == paths::root_len(host, dir)
            &&& paths::prefix_of(host, all) == paths::prefix_of(host, dir)
            &&& paths::has_root_mark(host, all) == paths::has_root_mark(host, dir)
            &&& paths::prefix_marks(host, all) == paths::prefix_marks(host, dir)
        }),
{
    let all = dir.push(between(host)) + name;
    assert(all[0] == dir[0]);
    if host == Host::Windows {
        assert(all[1] == dir[1]);
        assert(all[2] == dir[2]);
        assert(!paths::is_sep(host, dir[0]));
        assert(all.subrange(0, 1) =~= dir.subrange(0, 1));
    }
    lemma_one_step_more(host, dir, name, paths::root_len(host, dir));
}

/// A file that is put into a directory has its name there.
pub proof fn a_file_has_its_name(host: Host, dir: Seq<char>, name: Seq<char>)
    requires
        is_plain_dir(host, dir),
        is_plain_name(host, name),
    ensures
        paths::file_name_of(host, paths::joined(host, dir, name)) == Some(name),
{
    a_name_is_put_behind_its_directory(host, dir, name);
    lemma_steps_of_joined(host, dir, name);
    reveal_strlit("c");
    reveal_strlit("d");
    reveal_strlit("e");
    let mark = paths::NAME@ + name;
    assert(mark[0] == 'e');
    assert(mark.skip(1) =~= name);
    assert(paths::UP@[0] == 'd' && paths::HERE@[0] == 'c');
}

/// A file lies in the directory that it was put into.
pub proof fn a_file_lies_in_its_directory(
    host: Host,
    dir: Seq<char>,
    inner: Seq<char>,
    name: Seq<char>,
)
    requires
        is_plain_dir(host, dir),
        is_plain_name(host, inner),
        is_plain_name(host, name),
    ensures
        ({
            let place = paths::joined(host, dir, inner);
            paths::parent_of(host, paths::joined(host, place, name)) == Some(place)
        }),
{
    let place = paths::joined(host, dir, inner);
    a_name_is_put_behind_its_directory(host, dir, inner);
    a_name_is_put_behind_its_directory(host, place, name);
    lemma_steps_of_joined(host, dir, inner);
    lemma_steps_of_joined(host, place, name);
    let all = place.push(between(host)) + name;
    let steps = paths::steps_of(host, all);
    assert(steps[steps.len() - 2].end == place.len());
    assert(all.take(place.len() as int) =~= place);
}

/// Two names in one directory lead to the same file exactly when they are one name.
pub proof fn files_are_told_apart_by_name(
    host: Host,
    dir: Seq<char>,
    a: Seq<char>,
    b: Seq<char>,
)
    requires
        is_plain_dir(host, dir),
        is_plain_name(host, a),
        is_plain_name(host, b),
    ensures
        paths::same_path(host, paths::joined(host, dir, a), paths::joined(host, dir, b)) <==> a
            == b,
{
    a_name_is_put_behind_its_directory(host, dir, a);
    a_name_is_put_behind_its_directory(host, dir, b);
    lemma_steps_of_joined(host, dir, a);
    lemma_steps_of_joined(host, dir, b);
    reveal_strlit("e");
    let pa = dir.push(between(host)) + a;
    let pb = dir.push(between(host)) + b;
    let ca = paths::components_of(host, pa);
    let cb = paths::components_of(host, pb);
    assert(ca.len() == cb.len());
    assert(ca.last() == paths::NAME@ + a);
    assert(cb.last() == paths::NAME@ + b);
    assert((paths::NAME@ + a).skip(1) =~= a);
    assert((paths::NAME@ + b).skip(1) =~= b);
}

/// A file is of a kind exactly when its name ends with a dot and that kind, and has
/// something before it.
pub proof fn kinds_are_read_off_the_name(
    host: Host,
    dir: Seq<char>,
    name: Seq<char>,
    ext: Seq<char>,
)
    requires
        is_plain_dir(host, dir),
        is_plain_name(host, name),
    ensures
        paths::extension_is(host, paths::joined(host, dir, name), ext) <==> name.len() > ext.len()
            + 1 && text::ends_with(name, "."@ + ext),
{
    a_file_has_its_name(host, dir, name);
}

/// Absolute is what begins at the root of Unix, and on Windows what names a drive or a share
/// and begins at its root.
pub proof fn absolute_paths_begin_at_a_root(host: Host, path: Seq<char>)
    ensures
        host != Host::Windows ==> (paths::is_absolute_of(host, path) <==> path.len() > 0 && path[0]
            == '/'),
        host == Host::Windows && path.len() >= 3 && text::is_letter(path[0]) && path[1] == ':' && (
        path[2] == '\\' || path[2] == '/') ==> paths::is_absolute_of(host, path),
        host == Host::Windows && path.len() >= 1 && path[0] != '\\' && path[0] != '/' && (
        path.len() < 2 || path[1] != ':') ==> !paths::is_absolute_of(host, path),
{
}

/// The ancestors of a path begin with itself and go on with those of its parent.
pub proof fn ancestors_go_up(host: Host, path: Seq<char>)
    ensures
        paths::ancestors_of(host, path).len() > 0,
        paths::ancestors_of(host, path)[0] == path,
        paths::parent_of(host, path) matches Some(p) ==> (p.len() < path.len()
            ==> paths::ancestors_of(host, path) == seq![path] + paths::ancestors_of(host, p)),
        paths::parent_of(host, path) is None ==> paths::ancestors_of(host, path) == seq![path],
{
}

/// Paths are ordered by the first component in which they differ, and a directory comes
/// before what it holds.
pub proof fn paths_are_ordered_by_component(
    head: Seq<Seq<char>>,
    x: Seq<char>,
    a: Seq<Seq<char>>,
    y: Seq<char>,
    b: Seq<Seq<char>>,
)
    requires
        x != y,
    ensures
        paths::components_precede(head.push(x) + a, head.push(y) + b) <==> text::precedes(x, y),
        paths::components_precede(head, head.push(x) + a),
        !paths::components_precede(head.push(x) + a, head),
    decreases head.len(),
{
    let s = head.push(x) + a;
    let t = head.push(y) + b;
    if head.len() > 0 {
        let rest = head.drop_first();
        paths_are_ordered_by_component(rest, x, a, y, b);
        assert(s.drop_first() =~= rest.push(x) + a);
        assert(t.drop_first() =~= rest.push(y) + b);
        assert(s[0] == head[0] && t[0] == head[0]);
    } else {
        assert(s[0] == x && t[0] == y);
    }
}

} // verus!
