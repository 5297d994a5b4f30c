//! Path rules as plain text, for either family of host: `/` on Unix; drives,
//! shares, devices, verbatim paths and both separators on Windows.
use crate::host::Host;
use crate::text;
use vstd::prelude::*;

verus! {

pub open spec fn is_sep(host: Host, c: char) -> bool {
    c == '/' || (host == Host::Windows && c == '\\')
}

fn sep(host: Host, c: char) -> (r: bool)
    ensures
        r == is_sep(host, c),
{
    c == '/' || (host.is_windows() && c == '\\')
}

/// The separator that joining puts between two parts.
pub open spec fn sep_of(host: Host) -> Seq<char> {
    if host == Host::Windows {
        "\\"@
    } else {
        "/"@
    }
}

fn sep_text(host: Host) -> (r: &'static str)
    ensures
        r@ == sep_of(host),
{
    if host.is_windows() {
        "\\"
    } else {
        "/"
    }
}

// ---------------------------------------------------------------------------
// Where a path begins
// ---------------------------------------------------------------------------

/// What a path begins with before its root and its names.
#[derive(Debug, Clone, Copy, PartialEq, Eq, Structural)]
pub enum Prefix {
    /// Nothing.
    Bare,
    /// `C:`
    Drive,
    /// `\\server\share`
    Share,
    /// `\\.\device`
    Device,
    /// `\\?\C:`
    VerbatimDrive,
    /// `\\?\UNC\server\share`
    VerbatimShare,
    /// `\\?\name`
    Verbatim,
}

impl Prefix {
    pub open spec fn verbatim(self) -> bool {
        match self {
            Prefix::VerbatimDrive | Prefix::VerbatimShare | Prefix::Verbatim => true,
            _ => false,
        }
    }

    fn is_verbatim(self) -> (r: bool)
        ensures
            r == self.verbatim(),
    {
        match self {
            Prefix::VerbatimDrive => true,
            Prefix::VerbatimShare => true,
            Prefix::Verbatim => true,
            _ => false,
        }
    }
}

/// Whether `c` parts two names. On a verbatim path only the backslash does.
pub open spec fn parts_names(host: Host, verbatim: bool, c: char) -> bool {
    if verbatim {
        c == '\\'
    } else {
        is_sep(host, c)
    }
}

/// The first separator of `s` at or after `from`, or the end of `s`.
pub open spec fn next_sep(host: Host, verbatim: bool, s: Seq<char>, from: int) -> int
    decreases s.len() - from,
{
    if from < 0 || from >= s.len() {
        s.len() as int
    } else if parts_names(host, verbatim, s[from]) {
        from
    } else {
        next_sep(host, verbatim, s, from + 1)
    }
}

/// The next separator is not before where the search began.
pub proof fn lemma_next_sep(host: Host, verbatim: bool, s: Seq<char>, from: int)
    requires
        0 <= from <= s.len(),
    ensures
        from <= next_sep(host, verbatim, s, from) <= s.len(),
    decreases s.len() - from,
{
    if from < s.len() {
        lemma_next_sep(host, verbatim, s, from + 1);
    }
}

fn find_sep(host: Host, verbatim: bool, v: &Vec<char>, from: usize) -> (r: usize)
    requires
        from <= v@.len(),
    ensures
        r == next_sep(host, verbatim, v@, from as int),
        from <= r <= v@.len(),
{
    let mut i: usize = from;
    while i < v.len()
        invariant
            from <= i <= v@.len(),
            next_sep(host, verbatim, v@, from as int) == next_sep(host, verbatim, v@, i as int),
        decreases v@.len() - i,
    {
        let found: bool = if verbatim {
            v[i] == '\\'
        } else {
            sep(host, v[i])
        };
        if found {
            return i;
        }
        i = i + 1;
    }
    i
}

/// What `s` begins with. A share needs both its names; `\\?\` is verbatim only
/// when written with backslashes.
pub open spec fn prefix_of(host: Host, s: Seq<char>) -> Prefix {
    if host != Host::Windows {
        Prefix::Bare
    } else if s.len() >= 2 && is_sep(host, s[0]) && is_sep(host, s[1]) {
        if s.len() >= 4 && s[0] == '\\' && s[1] == '\\' && s[2] == '?' && s[3] == '\\' {
            if s.len() >= 8 && s[4] == 'U' && s[5] == 'N' && s[6] == 'C' && is_sep(host, s[7]) {
                Prefix::VerbatimShare
            } else if s.len() >= 6 && text::is_letter(s[4]) && s[5] == ':' && (s.len() == 6
                || is_sep(host, s[6])) {
                Prefix::VerbatimDrive
            } else {
                Prefix::Verbatim
            }
        } else if s.len() >= 4 && s[2] == '.' && is_sep(host, s[3]) {
            Prefix::Device
        } else {
            let server = next_sep(host, false, s, 2);
            let share = next_sep(host, false, s, server + 1);
            if server > 2 && share > server + 1 {
                Prefix::Share
            } else {
                Prefix::Bare
            }
        }
    } else if s.len() >= 2 && text::is_letter(s[0]) && s[1] == ':' {
        Prefix::Drive
    } else {
        Prefix::Bare
    }
}

/// Where the server name of a share ends.
pub open spec fn server_end(host: Host, s: Seq<char>) -> int {
    if prefix_of(host, s) == Prefix::VerbatimShare {
        next_sep(host, true, s, 8)
    } else {
        next_sep(host, false, s, 2)
    }
}

/// How many characters of `s` its prefix takes.
pub open spec fn prefix_len(host: Host, s: Seq<char>) -> int {
    match prefix_of(host, s) {
        Prefix::Bare => 0,
        Prefix::Drive => 2,
        Prefix::Share => next_sep(host, false, s, server_end(host, s) + 1),
        Prefix::Device => next_sep(host, false, s, 4),
        Prefix::VerbatimDrive => 6,
        Prefix::VerbatimShare => {
            let server = server_end(host, s);
            let share = next_sep(host, true, s, server + 1);
            if share > server + 1 {
                share
            } else {
                server
            }
        },
        Prefix::Verbatim => next_sep(host, true, s, 4),
    }
}

/// A separator stands behind the prefix.
pub open spec fn is_rooted(host: Host, s: Seq<char>) -> bool {
    prefix_len(host, s) < s.len() && is_sep(host, s[prefix_len(host, s)])
}

/// How many characters of `s` anchor it: its prefix and the separator behind it.
pub open spec fn root_len(host: Host, s: Seq<char>) -> int {
    if is_rooted(host, s) {
        prefix_len(host, s) + 1
    } else {
        prefix_len(host, s)
    }
}

/// Where a path begins, found in its text.
struct Start {
    prefix: Prefix,
    /// Where the server name of a share ends.
    server: usize,
    /// Where the prefix ends.
    len: usize,
    rooted: bool,
    /// Where the names begin.
    body: usize,
}

impl Start {
    spec fn fits(self, host: Host, s: Seq<char>) -> bool {
        &&& self.prefix == prefix_of(host, s)
        &&& self.len == prefix_len(host, s)
        &&& self.rooted == is_rooted(host, s)
        &&& self.body == root_len(host, s)
        &&& self.len <= self.body <= s.len()
        &&& match self.prefix {
            Prefix::Bare => self.len == 0,
            Prefix::Drive => self.len == 2,
            Prefix::Share => self.server == server_end(host, s) && 2 <= self.server < self.len,
            Prefix::Device | Prefix::Verbatim => 4 <= self.len,
            Prefix::VerbatimDrive => self.len == 6,
            Prefix::VerbatimShare => self.server == server_end(host, s) && 8 <= self.server
                <= self.len,
        }
    }
}

/// The prefix that two separators begin, where its server name ends, and where
/// it ends itself.
fn double_start(host: Host, v: &Vec<char>) -> (r: (Prefix, usize, usize))
    requires
        host == Host::Windows,
        v@.len() >= 2,
        is_sep(host, v@[0]),
        is_sep(host, v@[1]),
    ensures
        r.0 == prefix_of(host, v@),
        r.0 != Prefix::Drive,
        r.2 == prefix_len(host, v@),
        r.2 <= v@.len(),
        match r.0 {
            Prefix::Share => r.1 == server_end(host, v@) && 2 <= r.1 < r.2,
            Prefix::VerbatimShare => r.1 == server_end(host, v@) && 8 <= r.1 <= r.2,
            Prefix::Device | Prefix::Verbatim => 4 <= r.2,
            _ => true,
        },
{
    if v.len() >= 4 && v[0] == '\\' && v[1] == '\\' && v[2] == '?' && v[3] == '\\' {
        if v.len() >= 8 && v[4] == 'U' && v[5] == 'N' && v[6] == 'C' && sep(host, v[7]) {
            let server = find_sep(host, true, v, 8);
            if server < v.len() {
                let share = find_sep(host, true, v, server + 1);
                if share > server + 1 {
                    return (Prefix::VerbatimShare, server, share);
                }
            }
            return (Prefix::VerbatimShare, server, server);
        }
        if v.len() >= 6 && text::letter(v[4]) && v[5] == ':' && (v.len() == 6 || sep(host, v[6])) {
            return (Prefix::VerbatimDrive, 0, 6);
        }
        return (Prefix::Verbatim, 0, find_sep(host, true, v, 4));
    }
    if v.len() >= 4 && v[2] == '.' && sep(host, v[3]) {
        return (Prefix::Device, 0, find_sep(host, false, v, 4));
    }
    let server = find_sep(host, false, v, 2);
    if server > 2 && server < v.len() {
        let share = find_sep(host, false, v, server + 1);
        if share > server + 1 {
            return (Prefix::Share, server, share);
        }
    }
    (Prefix::Bare, 0, 0)
}

fn start_of(host: Host, v: &Vec<char>) -> (r: Start)
    ensures
        r.fits(host, v@),
{
    let (prefix, server, len): (Prefix, usize, usize) = if !host.is_windows() || v.len() < 2 {
        (Prefix::Bare, 0, 0)
    } else if sep(host, v[0]) && sep(host, v[1]) {
        double_start(host, v)
    } else if text::letter(v[0]) && v[1] == ':' {
        (Prefix::Drive, 0, 2)
    } else {
        (Prefix::Bare, 0, 0)
    };
    let rooted: bool = len < v.len() && sep(host, v[len]);
    let body: usize = if rooted {
        len + 1
    } else {
        len
    };
    Start { prefix, server, len, rooted, body }
}

pub open spec fn is_absolute_of(host: Host, s: Seq<char>) -> bool {
    if host == Host::Windows {
        match prefix_of(host, s) {
            Prefix::Bare => false,
            Prefix::Drive => is_rooted(host, s),
            _ => true,
        }
    } else {
        s.len() > 0 && s[0] == '/'
    }
}

/// Whether `path` names a place on its own, whatever the current directory is.
pub fn is_absolute(host: Host, path: &str) -> (r: bool)
    ensures
        r == is_absolute_of(host, path@),
{
    let v = text::chars_of(path);
    let start = start_of(host, &v);
    if host.is_windows() {
        match start.prefix {
            Prefix::Bare => false,
            Prefix::Drive => start.rooted,
            _ => true,
        }
    } else {
        start.rooted
    }
}

// ---------------------------------------------------------------------------
// Components
// ---------------------------------------------------------------------------

// A component is a text with a mark in front. The marks are in the order in which
// components sort: prefixes, the root, a dot, two dots, names.

/// The root directory.
pub const ROOT: &'static str = "b";

/// A dot, which only a path that starts with one has, or a verbatim one.
pub const HERE: &'static str = "c";

/// Two dots.
pub const UP: &'static str = "d";

/// What stands before a name.
pub const NAME: &'static str = "e";

/// The prefix of `s` as components. Drive letters compare without case; the kinds
/// of prefix sort apart.
pub open spec fn prefix_marks(host: Host, s: Seq<char>) -> Seq<Seq<char>> {
    let n = prefix_len(host, s);
    let server = server_end(host, s);
    match prefix_of(host, s) {
        Prefix::Bare => Seq::empty(),
        Prefix::Verbatim => seq!["a0"@ + s.subrange(4, n)],
        Prefix::VerbatimShare => seq![
            "a1"@ + s.subrange(8, server),
            if n > server {
                s.subrange(server + 1, n)
            } else {
                Seq::empty()
            },
        ],
        Prefix::VerbatimDrive => seq!["a2"@ + text::lower_of(s.subrange(4, 5))],
        Prefix::Device => seq!["a3"@ + s.subrange(4, n)],
        Prefix::Share => seq!["a4"@ + s.subrange(2, server), s.subrange(server + 1, n)],
        Prefix::Drive => seq!["a5"@ + text::lower_of(s.subrange(0, 1))],
    }
}

/// What a piece between two separators stands for, if for anything. Whether a dot
/// does is `dot`.
pub open spec fn mark_of(piece: Seq<char>, dot: bool) -> Option<Seq<char>> {
    if piece.len() == 0 {
        None
    } else if piece == "."@ {
        if dot {
            Some(HERE@)
        } else {
            None
        }
    } else if piece == ".."@ {
        Some(UP@)
    } else {
        Some(NAME@ + piece)
    }
}

fn mark(piece: &str, dot: bool) -> (r: Option<String>)
    ensures
        text::opt_text(r) == mark_of(piece@, dot),
{
    if piece.is_empty() {
        None
    } else if text::same(piece, ".") {
        if dot {
            Some(HERE.to_owned())
        } else {
            None
        }
    } else if text::same(piece, "..") {
        Some(UP.to_owned())
    } else {
        Some(text::cat(NAME, piece))
    }
}

/// A component below the root, and where it ends in the text.
pub ghost struct Step {
    pub mark: Seq<char>,
    pub end: int,
}

/// The components of `s` from position `from` on, where a piece begins. A dot
/// counts at the start of a path without a root, and on verbatim paths.
pub open spec fn steps_from(host: Host, s: Seq<char>, from: int) -> Seq<Step>
    decreases s.len() - from,
{
    if from < 0 || from > s.len() {
        Seq::empty()
    } else {
        proof {
            lemma_next_sep(host, prefix_of(host, s).verbatim(), s, from);
        }
        let verbatim = prefix_of(host, s).verbatim();
        let end = next_sep(host, verbatim, s, from);
        let rest = if end >= s.len() {
            Seq::empty()
        } else {
            steps_from(host, s, end + 1)
        };
        match mark_of(s.subrange(from, end), verbatim || from == 0) {
            Some(mark) => seq![Step { mark, end }] + rest,
            None => rest,
        }
    }
}

/// The components of `s` below its root.
pub open spec fn steps_of(host: Host, s: Seq<char>) -> Seq<Step> {
    steps_from(host, s, root_len(host, s))
}

pub open spec fn marks_of(steps: Seq<Step>) -> Seq<Seq<char>> {
    steps.map_values(|step: Step| step.mark)
}

/// A share and a device have a root even where no separator follows them.
pub open spec fn has_root_mark(host: Host, s: Seq<char>) -> bool {
    is_rooted(host, s) || prefix_of(host, s) == Prefix::Share || prefix_of(host, s)
        == Prefix::Device
}

/// The components of `s` without its prefix.
pub open spec fn tail_of(host: Host, s: Seq<char>) -> Seq<Seq<char>> {
    (if has_root_mark(host, s) {
        seq![ROOT@]
    } else {
        Seq::<Seq<char>>::empty()
    }) + marks_of(steps_of(host, s))
}

/// A path component by component.
pub open spec fn components_of(host: Host, s: Seq<char>) -> Seq<Seq<char>> {
    prefix_marks(host, s) + tail_of(host, s)
}

/// The components end behind one another, within the text.
proof fn lemma_steps(host: Host, s: Seq<char>, from: int)
    requires
        0 <= from <= s.len(),
    ensures
        forall|i: int|
            0 <= i < steps_from(host, s, from).len() ==> from < (#[trigger] steps_from(
                host,
                s,
                from,
            )[i]).end <= s.len(),
        forall|i: int, j: int|
            0 <= i < j < steps_from(host, s, from).len() ==> (#[trigger] steps_from(
                host,
                s,
                from,
            )[i]).end < (#[trigger] steps_from(host, s, from)[j]).end,
    decreases s.len() - from,
{
    let verbatim = prefix_of(host, s).verbatim();
    let end = next_sep(host, verbatim, s, from);
    lemma_next_sep(host, verbatim, s, from);
    let all = steps_from(host, s, from);
    let rest = if end >= s.len() {
        Seq::empty()
    } else {
        steps_from(host, s, end + 1)
    };
    if end < s.len() {
        lemma_steps(host, s, end + 1);
    }
    match mark_of(s.subrange(from, end), verbatim || from == 0) {
        Some(mark) => {
            assert(all == seq![Step { mark, end }] + rest);
            assert(end > from);
            assert forall|i: int| 0 <= i < all.len() implies from < (#[trigger] all[i]).end
                <= s.len() by {
                if i > 0 {
                    assert(all[i] == rest[i - 1]);
                }
            }
            assert forall|i: int, j: int| 0 <= i < j < all.len() implies (#[trigger] all[i]).end < (
            #[trigger] all[j]).end by {
                assert(all[j] == rest[j - 1]);
                if i > 0 {
                    assert(all[i] == rest[i - 1]);
                }
            }
        },
        None => {
            assert(all == rest);
        },
    }
}

/// The components of a path below its root, and where each ends.
struct Steps {
    marks: Vec<String>,
    ends: Vec<usize>,
}

impl Steps {
    spec fn steps(self) -> Seq<Step> {
        Seq::new(
            self.marks@.len(),
            |i: int| Step { mark: self.marks@[i]@, end: self.ends@[i] as int },
        )
    }
}

fn steps(host: Host, v: &Vec<char>, start: &Start) -> (r: Steps)
    requires
        start.fits(host, v@),
    ensures
        r.marks@.len() == r.ends@.len(),
        r.steps() == steps_of(host, v@),
        text::texts(r.marks@) == marks_of(steps_of(host, v@)),
{
    let verbatim = start.prefix.is_verbatim();
    let mut r = Steps { marks: Vec::new(), ends: Vec::new() };
    let ghost whole = steps_of(host, v@);
    let mut from: usize = start.body;
    let mut more: bool = true;
    assert(r.steps() + whole =~= whole);
    while more
        invariant
            verbatim == prefix_of(host, v@).verbatim(),
            r.marks@.len() == r.ends@.len(),
            from <= v@.len(),
            more ==> r.steps() + steps_from(host, v@, from as int) == whole,
            !more ==> r.steps() == whole,
        decreases v@.len() - from + (if more {
            1int
        } else {
            0int
        }),
    {
        let end = find_sep(host, verbatim, v, from);
        let ghost before = r.steps();
        let ghost rest = if end >= v@.len() {
            Seq::empty()
        } else {
            steps_from(host, v@, end + 1)
        };
        let piece = text::string_of(v, from, end);
        if let Some(mark) = mark(&piece, verbatim || from == 0) {
            let ghost m = mark@;
            r.marks.push(mark);
            r.ends.push(end);
            proof {
                let one = Step { mark: m, end: end as int };
                assert(r.steps() =~= before.push(one));
                assert(before + (seq![one] + rest) =~= before.push(one) + rest);
            }
        }
        assert(r.steps() + rest == whole);
        if end < v.len() {
            from = end + 1;
        } else {
            from = end;
            more = false;
            assert(r.steps() + rest =~= r.steps());
        }
    }
    assert(text::texts(r.marks@) =~= marks_of(r.steps()));
    r
}

fn tail(host: Host, v: &Vec<char>, start: &Start) -> (r: Vec<String>)
    requires
        start.fits(host, v@),
    ensures
        text::texts(r@) == tail_of(host, v@),
{
    let below = steps(host, v, start);
    let mut r = below.marks;
    let ghost marks = text::texts(r@);
    let implied = match start.prefix {
        Prefix::Share => true,
        Prefix::Device => true,
        _ => false,
    };
    if start.rooted || implied {
        r.insert(0, ROOT.to_owned());
        assert(text::texts(r@) =~= seq![ROOT@] + marks);
    } else {
        assert(text::texts(r@) =~= Seq::<Seq<char>>::empty() + marks);
    }
    r
}

fn prefix_texts(host: Host, v: &Vec<char>, start: &Start) -> (r: Vec<String>)
    requires
        start.fits(host, v@),
    ensures
        text::texts(r@) == prefix_marks(host, v@),
{
    let n: usize = start.len;
    let server: usize = start.server;
    let r = match start.prefix {
        Prefix::Bare => Vec::new(),
        Prefix::Verbatim => vec![text::cat("a0", &text::string_of(v, 4, n))],
        Prefix::VerbatimShare => {
            let share = if n > server {
                text::string_of(v, server + 1, n)
            } else {
                String::new()
            };
            vec![text::cat("a1", &text::string_of(v, 8, server)), share]
        },
        Prefix::VerbatimDrive => {
            vec![text::cat("a2", &text::lower(&text::string_of(v, 4, 5)))]
        },
        Prefix::Device => vec![text::cat("a3", &text::string_of(v, 4, n))],
        Prefix::Share => vec![
            text::cat("a4", &text::string_of(v, 2, server)),
            text::string_of(v, server + 1, n),
        ],
        Prefix::Drive => vec![text::cat("a5", &text::lower(&text::string_of(v, 0, 1)))],
    };
    assert(text::texts(r@) =~= prefix_marks(host, v@));
    r
}

/// A path component by component.
pub fn components(host: Host, path: &str) -> (r: Vec<String>)
    ensures
        text::texts(r@) == components_of(host, path@),
{
    let v = text::chars_of(path);
    let start = start_of(host, &v);
    let mut r = prefix_texts(host, &v, &start);
    let mut below = tail(host, &v, &start);
    let ghost a = r@;
    let ghost b = below@;
    r.append(&mut below);
    assert(text::texts(r@) =~= text::texts(a) + text::texts(b));
    r
}

// ---------------------------------------------------------------------------
// Joining
// ---------------------------------------------------------------------------

/// The component is a name.
pub open spec fn is_name(mark: Seq<char>) -> bool {
    mark.len() > 0 && mark[0] == 'e'
}

/// A verbatim path below its prefix, one component further: no dots are added.
pub open spec fn stepped(tail: Seq<Seq<char>>, mark: Seq<char>) -> Seq<Seq<char>> {
    if mark == ROOT@ {
        seq![ROOT@]
    } else if mark == HERE@ {
        tail
    } else if mark == UP@ {
        if tail.len() > 0 && is_name(tail.last()) {
            tail.drop_last()
        } else {
            tail
        }
    } else {
        tail.push(mark)
    }
}

pub open spec fn walked(tail: Seq<Seq<char>>, marks: Seq<Seq<char>>) -> Seq<Seq<char>>
    decreases marks.len(),
{
    if marks.len() == 0 {
        tail
    } else {
        stepped(walked(tail, marks.drop_last()), marks.last())
    }
}

/// A component as it is written.
pub open spec fn spelled(mark: Seq<char>) -> Seq<char> {
    if mark == ROOT@ {
        "\\"@
    } else if mark == HERE@ {
        "."@
    } else if mark == UP@ {
        ".."@
    } else if mark.len() > 0 {
        mark.skip(1)
    } else {
        mark
    }
}

/// The components of a verbatim path below its prefix, written out.
pub open spec fn spelled_out(tail: Seq<Seq<char>>) -> Seq<char>
    decreases tail.len(),
{
    if tail.len() == 0 {
        Seq::empty()
    } else {
        let init = spelled_out(tail.drop_last());
        if tail.last() == ROOT@ || (tail.len() > 1 && tail[tail.len() - 2] == ROOT@) {
            init + spelled(tail.last())
        } else {
            init + "\\"@ + spelled(tail.last())
        }
    }
}

/// `rel` as seen from `base`.
pub open spec fn joined(host: Host, base: Seq<char>, rel: Seq<char>) -> Seq<char> {
    if is_absolute_of(host, rel) || prefix_of(host, rel) != Prefix::Bare {
        rel
    } else if prefix_of(host, base).verbatim() && rel.len() > 0 {
        base.take(prefix_len(host, base)) + spelled_out(
            walked(tail_of(host, base), tail_of(host, rel)),
        )
    } else if is_rooted(host, rel) {
        base.take(prefix_len(host, base)) + rel
    } else if base.len() == 0 || is_sep(host, base.last()) || (prefix_of(host, base)
        == Prefix::Drive && base.len() == 2) {
        base + rel
    } else {
        base + sep_of(host) + rel
    }
}

fn walk(tail: Vec<String>, marks: &Vec<String>) -> (r: Vec<String>)
    ensures
        text::texts(r@) == walked(text::texts(tail@), text::texts(marks@)),
{
    let ghost first = text::texts(tail@);
    let ghost all = text::texts(marks@);
    let mut r = tail;
    let mut i: usize = 0;
    proof {
        reveal_strlit("e");
    }
    while i < marks.len()
        invariant
            i <= marks@.len(),
            all == text::texts(marks@),
            text::texts(r@) == walked(first, all.take(i as int)),
            NAME@.len() == 1,
            NAME@[0] == 'e',
        decreases marks@.len() - i,
    {
        let ghost before = text::texts(r@);
        proof {
            assert(all.take(i + 1).drop_last() =~= all.take(i as int));
            assert(all.take(i + 1).last() == marks@[i as int]@);
        }
        if text::same(&marks[i], ROOT) {
            r = vec![ROOT.to_owned()];
            assert(text::texts(r@) =~= seq![ROOT@]);
        } else if text::same(&marks[i], HERE) {
        } else if text::same(&marks[i], UP) {
            if r.len() > 0 && text::begins(&r[r.len() - 1], NAME) {
                proof {
                    assert(before.last() == r@.last()@);
                    assert(before.last().take(1)[0] == before.last()[0]);
                }
                let _ = r.pop();
                assert(text::texts(r@) =~= before.drop_last());
            } else {
                proof {
                    if before.len() > 0 && is_name(before.last()) {
                        assert(before.last() == r@.last()@);
                        assert(before.last().subrange(0, 1) =~= NAME@);
                    }
                }
            }
        } else {
            r.push(marks[i].clone());
            assert(text::texts(r@) =~= before.push(marks@[i as int]@));
        }
        i = i + 1;
    }
    assert(all.take(i as int) =~= all);
    r
}

fn spell(mark: &str) -> (r: String)
    ensures
        r@ == spelled(mark@),
{
    if text::same(mark, ROOT) {
        "\\".to_owned()
    } else if text::same(mark, HERE) {
        ".".to_owned()
    } else if text::same(mark, UP) {
        "..".to_owned()
    } else {
        let v = text::chars_of(mark);
        let from: usize = if v.len() == 0 {
            0
        } else {
            1
        };
        let r = text::string_of(&v, from, v.len());
        assert(mark@.len() > 0 ==> r@ =~= mark@.skip(1));
        assert(mark@.len() == 0 ==> r@ =~= mark@);
        r
    }
}

fn spell_out(tail: &Vec<String>) -> (r: String)
    ensures
        r@ == spelled_out(text::texts(tail@)),
{
    let ghost all = text::texts(tail@);
    let mut r = String::new();
    let mut i: usize = 0;
    while i < tail.len()
        invariant
            i <= tail@.len(),
            all == text::texts(tail@),
            r@ == spelled_out(all.take(i as int)),
        decreases tail@.len() - i,
    {
        proof {
            assert(all.take(i + 1).drop_last() =~= all.take(i as int));
            assert(all.take(i + 1).last() == tail@[i as int]@);
            if i > 0 {
                assert(all.take(i + 1)[i - 1] == tail@[i - 1]@);
            }
        }
        if !(text::same(&tail[i], ROOT) || (i > 0 && text::same(&tail[i - 1], ROOT))) {
            r.append("\\");
        }
        r.append(&spell(&tail[i]));
        i = i + 1;
    }
    assert(all.take(i as int) =~= all);
    r
}

/// `rel` as seen from `base`: an absolute `rel` stands for itself.
pub fn join(host: Host, base: &str, rel: &str) -> (r: String)
    ensures
        r@ == joined(host, base@, rel@),
{
    let b = text::chars_of(base);
    let v = text::chars_of(rel);
    let from = start_of(host, &b);
    let to = start_of(host, &v);
    let bare = match to.prefix {
        Prefix::Bare => true,
        _ => false,
    };
    if is_absolute(host, rel) || !bare {
        return rel.to_owned();
    }
    let anchor = text::string_of(&b, 0, from.len);
    assert(anchor@ =~= base@.take(from.len as int));
    if from.prefix.is_verbatim() && v.len() > 0 {
        let below = walk(tail(host, &b, &from), &tail(host, &v, &to));
        return text::cat(&anchor, &spell_out(&below));
    }
    if to.rooted {
        return text::cat(&anchor, rel);
    }
    let drive = match from.prefix {
        Prefix::Drive => true,
        _ => false,
    };
    if b.len() == 0 || sep(host, b[b.len() - 1]) || (drive && b.len() == 2) {
        return text::cat(base, rel);
    }
    text::cat3(base, sep_text(host), rel)
}

/// Joining an absolute path onto anything gives that path.
pub proof fn absolute_paths_stand_for_themselves(host: Host, base: Seq<char>, rel: Seq<char>)
    requires
        is_absolute_of(host, rel),
    ensures
        joined(host, base, rel) == rel,
{
}

/// A rooted path without a prefix keeps the drive or the share it is joined to.
pub proof fn rooted_paths_keep_the_prefix(host: Host, base: Seq<char>, rel: Seq<char>)
    requires
        prefix_of(host, rel) == Prefix::Bare,
        is_rooted(host, rel),
        !prefix_of(host, base).verbatim(),
        host == Host::Windows,
    ensures
        joined(host, base, rel) == base.take(prefix_len(host, base)) + rel,
{
}

// ---------------------------------------------------------------------------
// Comparing
// ---------------------------------------------------------------------------

/// Two texts name the same path.
pub open spec fn same_path(host: Host, a: Seq<char>, b: Seq<char>) -> bool {
    components_of(host, a) == components_of(host, b)
}

/// `path` is `dir` or lies somewhere below it.
pub open spec fn lies_under(host: Host, path: Seq<char>, dir: Seq<char>) -> bool {
    components_of(host, dir).is_prefix_of(components_of(host, path))
}

fn starts_with(list: &Vec<String>, start: &Vec<String>) -> (r: bool)
    ensures
        r == text::texts(start@).is_prefix_of(text::texts(list@)),
{
    if start.len() > list.len() {
        return false;
    }
    let ghost a = text::texts(start@);
    let ghost b = text::texts(list@);
    let mut i: usize = 0;
    while i < start.len()
        invariant
            a == text::texts(start@),
            b == text::texts(list@),
            start@.len() <= list@.len(),
            i <= start@.len(),
            forall|j: int| 0 <= j < i ==> a[j] == b[j],
        decreases start@.len() - i,
    {
        if !text::same(&start[i], &list[i]) {
            proof {
                assert(a[i as int] == start@[i as int]@);
                assert(b.take(a.len() as int)[i as int] == list@[i as int]@);
            }
            return false;
        }
        i = i + 1;
    }
    assert(a == b.take(a.len() as int));
    true
}

/// Whether two texts name the same path.
pub fn same(host: Host, a: &str, b: &str) -> (r: bool)
    ensures
        r == same_path(host, a@, b@),
{
    let x = components(host, a);
    let y = components(host, b);
    proof {
        let xs = text::texts(x@);
        let ys = text::texts(y@);
        if xs.len() == ys.len() {
            assert(xs.take(ys.len() as int) =~= xs);
        }
    }
    x.len() == y.len() && starts_with(&x, &y)
}

/// Whether `path` is `dir` or lies somewhere below it.
pub fn under(host: Host, path: &str, dir: &str) -> (r: bool)
    ensures
        r == lies_under(host, path@, dir@),
{
    starts_with(&components(host, path), &components(host, dir))
}

/// Of two lists of components the first sorts before the second.
pub open spec fn components_precede(a: Seq<Seq<char>>, b: Seq<Seq<char>>) -> bool
    decreases a.len(),
{
    if b.len() == 0 {
        false
    } else if a.len() == 0 {
        true
    } else if a[0] != b[0] {
        text::precedes(a[0], b[0])
    } else {
        components_precede(a.drop_first(), b.drop_first())
    }
}

/// Of two paths the first sorts before the second: component by component.
pub open spec fn path_precedes(host: Host, a: Seq<char>, b: Seq<char>) -> bool {
    components_precede(components_of(host, a), components_of(host, b))
}

/// Whether the path `a` sorts before the path `b`.
pub fn before(host: Host, a: &str, b: &str) -> (r: bool)
    ensures
        r == path_precedes(host, a@, b@),
{
    let x = components(host, a);
    let y = components(host, b);
    let ghost xs = text::texts(x@);
    let ghost ys = text::texts(y@);
    let mut i: usize = 0;
    proof {
        assert(xs.skip(0) =~= xs);
        assert(ys.skip(0) =~= ys);
    }
    while i < x.len() && i < y.len()
        invariant
            xs == text::texts(x@),
            ys == text::texts(y@),
            xs == components_of(host, a@),
            ys == components_of(host, b@),
            i <= x@.len(),
            i <= y@.len(),
            components_precede(xs, ys) == components_precede(xs.skip(i as int), ys.skip(i as int)),
        decreases x@.len() - i,
    {
        proof {
            assert(xs.skip(i as int).drop_first() =~= xs.skip(i + 1));
            assert(ys.skip(i as int).drop_first() =~= ys.skip(i + 1));
            assert(xs.skip(i as int)[0] == x@[i as int]@);
            assert(ys.skip(i as int)[0] == y@[i as int]@);
        }
        if !text::same(&x[i], &y[i]) {
            assert(components_precede(xs.skip(i as int), ys.skip(i as int)) == text::precedes(
                x@[i as int]@,
                y@[i as int]@,
            ));
            return text::before(&x[i], &y[i]);
        }
        i = i + 1;
    }
    i < y.len()
}

proof fn lemma_components_rank(a: Seq<Seq<char>>, b: Seq<Seq<char>>, c: Seq<Seq<char>>)
    ensures
        !(components_precede(a, b) && components_precede(b, a)),
        components_precede(a, c) ==> components_precede(a, b) || components_precede(b, c),
        components_precede(a, b) || components_precede(b, a) || a == b,
    decreases a.len() + b.len() + c.len(),
{
    if a.len() > 0 && b.len() > 0 {
        text::order_is_total(a[0], b[0]);
        lemma_components_rank(a.drop_first(), b.drop_first(), Seq::empty());
        if a[0] == b[0] && a.drop_first() == b.drop_first() {
            assert(a =~= seq![a[0]] + a.drop_first());
            assert(b =~= seq![b[0]] + b.drop_first());
        }
        if c.len() > 0 {
            text::order_is_total(b[0], c[0]);
            text::order_is_total(a[0], c[0]);
            lemma_components_rank(a.drop_first(), b.drop_first(), c.drop_first());
            if text::precedes(a[0], c[0]) && text::precedes(b[0], a[0]) {
                text::order_is_transitive(b[0], a[0], c[0]);
            }
        }
    } else if a.len() == 0 && b.len() == 0 {
        assert(a =~= b);
    }
}

/// Paths have one order: no two sort before each other, what stands between two
/// sorts after the first or before the second, and only texts that name the same
/// path rank alike.
pub proof fn paths_rank(host: Host, a: Seq<char>, b: Seq<char>, c: Seq<char>)
    ensures
        !(path_precedes(host, a, b) && path_precedes(host, b, a)),
        path_precedes(host, a, c) ==> path_precedes(host, a, b) || path_precedes(host, b, c),
        path_precedes(host, a, b) || path_precedes(host, b, a) || same_path(host, a, b),
{
    lemma_components_rank(components_of(host, a), components_of(host, b), components_of(host, c));
}

// ---------------------------------------------------------------------------
// Names and directories
// ---------------------------------------------------------------------------

pub open spec fn file_name_of(host: Host, path: Seq<char>) -> Option<Seq<char>> {
    let steps = steps_of(host, path);
    if steps.len() == 0 || steps.last().mark == UP@ || steps.last().mark == HERE@ {
        None
    } else {
        Some(steps.last().mark.skip(1))
    }
}

/// Every component below the root is a dot, two dots or a name.
proof fn lemma_marked(host: Host, s: Seq<char>, from: int)
    ensures
        forall|i: int|
            0 <= i < steps_from(host, s, from).len() ==> (#[trigger] steps_from(
                host,
                s,
                from,
            )[i]).mark.len() > 0,
    decreases s.len() - from,
{
    if 0 <= from <= s.len() {
        let verbatim = prefix_of(host, s).verbatim();
        let end = next_sep(host, verbatim, s, from);
        lemma_next_sep(host, verbatim, s, from);
        reveal_strlit("c");
        reveal_strlit("d");
        let all = steps_from(host, s, from);
        let rest = if end >= s.len() {
            Seq::empty()
        } else {
            steps_from(host, s, end + 1)
        };
        if end < s.len() {
            lemma_marked(host, s, end + 1);
        }
        assert forall|i: int| 0 <= i < all.len() implies (#[trigger] all[i]).mark.len() > 0 by {
            match mark_of(s.subrange(from, end), verbatim || from == 0) {
                Some(mark) => {
                    if i > 0 {
                        assert(all[i] == rest[i - 1]);
                    }
                },
                None => {
                    assert(all[i] == rest[i]);
                },
            }
        }
    }
}

/// The last name of a path, if it ends in one.
pub fn file_name(host: Host, path: &str) -> (r: Option<String>)
    ensures
        text::opt_text(r) == file_name_of(host, path@),
{
    let v = text::chars_of(path);
    let start = start_of(host, &v);
    let found = steps(host, &v, &start);
    let n: usize = found.marks.len();
    assert(found.steps().len() == n);
    if n == 0 {
        return None;
    }
    proof {
        assert(found.steps().last().mark == found.marks@[n - 1]@);
        lemma_marked(host, path@, root_len(host, path@));
    }
    if text::same(&found.marks[n - 1], UP) || text::same(&found.marks[n - 1], HERE) {
        return None;
    }
    let chars = text::chars_of(&found.marks[n - 1]);
    let name = text::string_of(&chars, 1, chars.len());
    assert(name@ =~= chars@.skip(1));
    Some(name)
}

pub open spec fn parent_of(host: Host, path: Seq<char>) -> Option<Seq<char>> {
    let steps = steps_of(host, path);
    if steps.len() == 0 {
        None
    } else if steps.len() == 1 {
        Some(path.take(root_len(host, path)))
    } else {
        Some(path.take(steps[steps.len() - 2].end))
    }
}

proof fn lemma_parent(host: Host, path: Seq<char>)
    requires
        0 <= root_len(host, path) <= path.len(),
    ensures
        parent_of(host, path) matches Some(p) ==> p.len() < path.len(),
{
    let n = root_len(host, path);
    let steps = steps_of(host, path);
    lemma_steps(host, path, n);
    if steps.len() == 1 {
        assert(n < steps[0].end);
    } else if steps.len() > 1 {
        assert(steps[steps.len() - 2].end < steps[steps.len() - 1].end);
    }
}

/// The directory that holds `path`, if it has one: `path` up to there.
pub fn parent(host: Host, path: &str) -> (r: Option<String>)
    ensures
        text::opt_text(r) == parent_of(host, path@),
        r matches Some(p) ==> p@.len() < path@.len(),
{
    let v = text::chars_of(path);
    let start = start_of(host, &v);
    let found = steps(host, &v, &start);
    let n: usize = found.marks.len();
    proof {
        lemma_steps(host, path@, root_len(host, path@));
        lemma_parent(host, path@);
        assert(found.steps().len() == n);
    }
    if n == 0 {
        return None;
    }
    let end: usize = if n == 1 {
        start.body
    } else {
        assert(found.steps()[n - 2].end == found.ends@[n - 2]);
        found.ends[n - 2]
    };
    let r = text::string_of(&v, 0, end);
    assert(r@ =~= path@.take(end as int));
    Some(r)
}

/// The last name of `path` ends in a dot and `ext`, with something before it.
pub open spec fn extension_is(host: Host, path: Seq<char>, ext: Seq<char>) -> bool {
    file_name_of(host, path) matches Some(name) && name.len() > ext.len() + 1 && text::ends_with(
        name,
        "."@ + ext,
    )
}

/// Whether the file name's extension is `ext`, which holds no dot itself.
pub fn has_extension(host: Host, path: &str, ext: &str) -> (r: bool)
    ensures
        r == extension_is(host, path@, ext@),
{
    match file_name(host, path) {
        None => false,
        Some(name) => {
            let dotted = text::cat(".", ext);
            proof {
                reveal_strlit(".");
            }
            text::ends(&name, &dotted) && name.as_str().unicode_len() > dotted.as_str().unicode_len()
        },
    }
}

/// The path itself and every directory above it, nearest first.
pub open spec fn ancestors_of(host: Host, path: Seq<char>) -> Seq<Seq<char>>
    decreases path.len(),
{
    match parent_of(host, path) {
        Some(p) => if p.len() < path.len() {
            seq![path] + ancestors_of(host, p)
        } else {
            seq![path]
        },
        None => seq![path],
    }
}

/// The path itself and every directory above it, nearest first.
pub fn ancestors(host: Host, path: &str) -> (r: Vec<String>)
    ensures
        text::texts(r@) == ancestors_of(host, path@),
    decreases path@.len(),
{
    let mut out: Vec<String> = vec![path.to_owned()];
    assert(text::texts(out@) =~= seq![path@]);
    if let Some(dir) = parent(host, path) {
        let mut above = ancestors(host, &dir);
        let ghost tail = above@;
        out.append(&mut above);
        assert(text::texts(out@) =~= seq![path@] + text::texts(tail));
    }
    out
}

} // verus!
