//! Text rules shared by the rest of the library: trimming, searching,
//! splitting, joining and decimal numbers, all stated over sequences of
//! characters.
use vstd::prelude::*;

verus! {

/// `String::push` appends the given character to the end of the string.
pub assume_specification[ String::push ](s: &mut String, c: char)
    ensures
        final(s)@ == old(s)@.push(c),
;

/// The views of a list of strings.
pub open spec fn texts(list: Seq<String>) -> Seq<Seq<char>> {
    list.map_values(|s: String| s@)
}

/// The view of an optional string.
pub open spec fn opt_text(value: Option<String>) -> Option<Seq<char>> {
    match value {
        Some(s) => Some(s@),
        None => None,
    }
}

/// A copy of an optional string.
pub fn clone_opt(value: &Option<String>) -> (r: Option<String>)
    ensures
        r == *value,
{
    match value {
        Some(s) => Some(s.clone()),
        None => None,
    }
}

/// A copy of a list of strings.
pub fn clone_list(list: &Vec<String>) -> (r: Vec<String>)
    ensures
        r@ == list@,
{
    let mut r: Vec<String> = Vec::new();
    let mut i: usize = 0;
    while i < list.len()
        invariant
            i <= list@.len(),
            r@ == list@.take(i as int),
        decreases list@.len() - i,
    {
        r.push(list[i].clone());
        i = i + 1;
    }
    assert(list@.take(i as int) == list@);
    r
}

/// The characters of `s`, in order.
pub fn chars_of(s: &str) -> (v: Vec<char>)
    ensures
        v@ == s@,
{
    let mut v: Vec<char> = Vec::new();
    for c in it: s.chars()
        invariant
            it.seq() == s@,
            v@ == s@.take(it.index() as int),
    {
        v.push(c);
    }
    assert(v@ == s@);
    v
}

/// The text made of `v[from..to]`.
pub fn string_of(v: &Vec<char>, from: usize, to: usize) -> (s: String)
    requires
        from <= to <= v@.len(),
    ensures
        s@ == v@.subrange(from as int, to as int),
{
    let mut s = String::new();
    let mut i: usize = from;
    while i < to
        invariant
            from <= i <= to <= v@.len(),
            s@ == v@.subrange(from as int, i as int),
        decreases to - i,
    {
        s.push(v[i]);
        i = i + 1;
    }
    s
}

/// Whether two texts hold the same characters.
pub fn same(a: &str, b: &str) -> (r: bool)
    ensures
        r == (a@ == b@),
{
    a.to_owned() == b.to_owned()
}

/// `a` followed by `b`.
pub fn cat(a: &str, b: &str) -> (r: String)
    ensures
        r@ == a@ + b@,
{
    let mut r = a.to_owned();
    r.append(b);
    r
}

/// `a`, `b` and `c`, one after the other.
pub fn cat3(a: &str, b: &str, c: &str) -> (r: String)
    ensures
        r@ == a@ + b@ + c@,
{
    let mut r = a.to_owned();
    r.append(b);
    r.append(c);
    r
}

/// `a`, `b`, `c` and `d`, one after the other.
pub fn cat4(a: &str, b: &str, c: &str, d: &str) -> (r: String)
    ensures
        r@ == a@ + b@ + c@ + d@,
{
    let mut r = a.to_owned();
    r.append(b);
    r.append(c);
    r.append(d);
    r
}

/// `a`, `b`, `c`, `d` and `e`, one after the other.
pub fn cat5(a: &str, b: &str, c: &str, d: &str, e: &str) -> (r: String)
    ensures
        r@ == a@ + b@ + c@ + d@ + e@,
{
    let mut r = a.to_owned();
    r.append(b);
    r.append(c);
    r.append(d);
    r.append(e);
    r
}

// ---------------------------------------------------------------------------
// Characters
// ---------------------------------------------------------------------------

/// Unicode's `White_Space` property.
pub open spec fn is_white(c: char) -> bool {
    let n = c as u32;
    ||| 9 <= n <= 13
    ||| n == 0x20
    ||| n == 0x85
    ||| n == 0xa0
    ||| n == 0x1680
    ||| 0x2000 <= n <= 0x200a
    ||| n == 0x2028
    ||| n == 0x2029
    ||| n == 0x202f
    ||| n == 0x205f
    ||| n == 0x3000
}

/// Whether `c` is white space.
pub fn white(c: char) -> (r: bool)
    ensures
        r == is_white(c),
{
    let n: u32 = c as u32;
    (9 <= n && n <= 13) || n == 0x20 || n == 0x85 || n == 0xa0 || n == 0x1680 || (0x2000 <= n && n
        <= 0x200a) || n == 0x2028 || n == 0x2029 || n == 0x202f || n == 0x205f || n == 0x3000
}

pub open spec fn is_digit(c: char) -> bool {
    '0' <= c <= '9'
}

pub open spec fn is_letter(c: char) -> bool {
    ('a' <= c <= 'z') || ('A' <= c <= 'Z')
}

/// Whether `c` is an ASCII digit.
pub fn digit(c: char) -> (r: bool)
    ensures
        r == is_digit(c),
{
    '0' <= c && c <= '9'
}

/// Whether `c` is an ASCII letter.
pub fn letter(c: char) -> (r: bool)
    ensures
        r == is_letter(c),
{
    ('a' <= c && c <= 'z') || ('A' <= c && c <= 'Z')
}

/// The ASCII lower case of one character; any other character is itself.
pub open spec fn lower_char(c: char) -> char {
    if 'A' <= c <= 'Z' {
        ((c as u8) + 32) as char
    } else {
        c
    }
}

/// The ASCII lower case of a text.
pub open spec fn lower_of(s: Seq<char>) -> Seq<char> {
    s.map_values(|c: char| lower_char(c))
}

/// `s` with every ASCII capital turned into its small letter.
pub fn lower(s: &str) -> (r: String)
    ensures
        r@ == lower_of(s@),
{
    let v = chars_of(s);
    let mut r = String::new();
    let mut i: usize = 0;
    while i < v.len()
        invariant
            v@ == s@,
            i <= v@.len(),
            r@ == lower_of(s@.take(i as int)),
        decreases v@.len() - i,
    {
        let c = v[i];
        if 'A' <= c && c <= 'Z' {
            r.push((c as u8 + 32) as char);
        } else {
            r.push(c);
        }
        i = i + 1;
    }
    assert(s@.take(i as int) == s@);
    r
}

// ---------------------------------------------------------------------------
// Trimming
// ---------------------------------------------------------------------------

/// `s` without its leading white space.
pub open spec fn trim_start_of(s: Seq<char>) -> Seq<char>
    decreases s.len(),
{
    if s.len() > 0 && is_white(s[0]) {
        trim_start_of(s.drop_first())
    } else {
        s
    }
}

/// `s` without its trailing white space.
pub open spec fn trim_end_of(s: Seq<char>) -> Seq<char>
    decreases s.len(),
{
    if s.len() > 0 && is_white(s.last()) {
        trim_end_of(s.drop_last())
    } else {
        s
    }
}

/// `s` without the white space around it.
pub open spec fn trim_of(s: Seq<char>) -> Seq<char> {
    trim_end_of(trim_start_of(s))
}

/// `s` neither starts nor ends with white space.
pub open spec fn is_trimmed(s: Seq<char>) -> bool {
    s.len() > 0 ==> !is_white(s[0]) && !is_white(s.last())
}

/// Leading white space is cut off at its end.
proof fn lemma_trim_start_at(s: Seq<char>, k: int)
    requires
        0 <= k <= s.len(),
        forall|j: int| 0 <= j < k ==> is_white(#[trigger] s[j]),
        k < s.len() ==> !is_white(s[k]),
    ensures
        trim_start_of(s) == s.skip(k),
    decreases k,
{
    if k == 0 {
        assert(s.skip(0) == s);
    } else {
        lemma_trim_start_at(s.drop_first(), k - 1);
        assert(s.drop_first().skip(k - 1) == s.skip(k));
    }
}

/// Trailing white space is cut off at its start.
proof fn lemma_trim_end_at(s: Seq<char>, k: int)
    requires
        0 <= k <= s.len(),
        forall|j: int| k <= j < s.len() ==> is_white(#[trigger] s[j]),
        k > 0 ==> !is_white(s[k - 1]),
    ensures
        trim_end_of(s) == s.take(k),
    decreases s.len() - k,
{
    if k == s.len() {
        assert(s.take(k) == s);
    } else {
        lemma_trim_end_at(s.drop_last(), k);
        assert(s.drop_last().take(k) == s.take(k));
    }
}

/// `s` without the white space around it.
pub fn trim(s: &str) -> (r: String)
    ensures
        r@ == trim_of(s@),
{
    let v = chars_of(s);
    let mut from: usize = 0;
    while from < v.len() && white(v[from])
        invariant
            v@ == s@,
            from <= v@.len(),
            forall|j: int| 0 <= j < from ==> is_white(#[trigger] s@[j]),
        decreases v@.len() - from,
    {
        from = from + 1;
    }
    let mut to: usize = v.len();
    while to > from && white(v[to - 1])
        invariant
            v@ == s@,
            from <= to <= v@.len(),
            forall|j: int| to <= j < s@.len() ==> is_white(#[trigger] s@[j]),
        decreases to,
    {
        to = to - 1;
    }
    proof {
        lemma_trim_start_at(s@, from as int);
        let t = s@.skip(from as int);
        assert forall|j: int| to - from <= j < t.len() implies is_white(#[trigger] t[j]) by {
            assert(t[j] == s@[j + from]);
        }
        lemma_trim_end_at(t, to - from);
        assert(t.take(to - from) == s@.subrange(from as int, to as int));
    }
    string_of(&v, from, to)
}

/// `s` without its trailing white space.
pub fn trim_end(s: &str) -> (r: String)
    ensures
        r@ == trim_end_of(s@),
{
    let v = chars_of(s);
    let mut to: usize = v.len();
    while to > 0 && white(v[to - 1])
        invariant
            v@ == s@,
            to <= v@.len(),
            forall|j: int| to <= j < s@.len() ==> is_white(#[trigger] s@[j]),
        decreases to,
    {
        to = to - 1;
    }
    proof {
        lemma_trim_end_at(s@, to as int);
        assert(s@.take(to as int) == s@.subrange(0, to as int));
    }
    string_of(&v, 0, to)
}

/// Trimming leaves nothing to trim, and trims nothing that is trimmed.
pub proof fn trim_is_idempotent(s: Seq<char>)
    ensures
        is_trimmed(trim_of(s)),
        trim_of(trim_of(s)) == trim_of(s),
        is_trimmed(s) ==> trim_of(s) == s,
{
    lemma_trim_start_front(s);
    lemma_trim_end_back(trim_start_of(s));
}

proof fn lemma_trim_start_front(s: Seq<char>)
    ensures
        trim_start_of(s).len() > 0 ==> !is_white(trim_start_of(s)[0]),
    decreases s.len(),
{
    if s.len() > 0 && is_white(s[0]) {
        lemma_trim_start_front(s.drop_first());
    }
}

proof fn lemma_trim_end_back(s: Seq<char>)
    ensures
        trim_end_of(s).len() > 0 ==> !is_white(trim_end_of(s).last()) && trim_end_of(s)[0] == s[0],
        trim_end_of(s).len() <= s.len(),
    decreases s.len(),
{
    if s.len() > 0 && is_white(s.last()) {
        lemma_trim_end_back(s.drop_last());
    }
}

// ---------------------------------------------------------------------------
// Searching
// ---------------------------------------------------------------------------

/// `needle` stands in `hay` from position `at` on.
pub open spec fn stands_at(hay: Seq<char>, needle: Seq<char>, at: int) -> bool {
    &&& 0 <= at
    &&& at + needle.len() <= hay.len()
    &&& hay.subrange(at, at + needle.len()) == needle
}

/// `needle` occurs in `hay`.
pub open spec fn holds(hay: Seq<char>, needle: Seq<char>) -> bool {
    exists|at: int| #[trigger] stands_at(hay, needle, at)
}

pub open spec fn begins_with(hay: Seq<char>, needle: Seq<char>) -> bool {
    stands_at(hay, needle, 0)
}

pub open spec fn ends_with(hay: Seq<char>, needle: Seq<char>) -> bool {
    stands_at(hay, needle, hay.len() - needle.len())
}

/// What stands between two texts is held by the three together.
pub proof fn lemma_held(head: Seq<char>, part: Seq<char>, tail: Seq<char>)
    ensures
        holds(head + part + tail, part),
{
    let all = head + part + tail;
    assert(all.subrange(head.len() as int, head.len() as int + part.len()) =~= part);
    assert(stands_at(all, part, head.len() as int));
}

/// Whether `needle` stands in `hay` from position `at` on.
pub fn found_at(hay: &Vec<char>, needle: &Vec<char>, at: usize) -> (r: bool)
    ensures
        r == stands_at(hay@, needle@, at as int),
{
    if needle.len() > hay.len() || at > hay.len() - needle.len() {
        return false;
    }
    let mut i: usize = 0;
    while i < needle.len()
        invariant
            at + needle.len() <= hay.len(),
            i <= needle@.len(),
            forall|j: int| 0 <= j < i ==> hay@[at + j] == needle@[j],
        decreases needle@.len() - i,
    {
        if hay[at + i] != needle[i] {
            proof {
                assert(hay@.subrange(at as int, at + needle@.len())[i as int] == hay@[at + i]);
            }
            return false;
        }
        i = i + 1;
    }
    assert(hay@.subrange(at as int, at + needle@.len()) == needle@);
    true
}

/// Whether `needle` occurs in `hay`.
pub fn has(hay: &str, needle: &str) -> (r: bool)
    ensures
        r == holds(hay@, needle@),
{
    let h = chars_of(hay);
    let n = chars_of(needle);
    if n.len() > h.len() {
        return false;
    }
    let last: usize = h.len() - n.len();
    let mut at: usize = 0;
    while at <= last
        invariant
            h@ == hay@,
            n@ == needle@,
            last + n@.len() == h@.len(),
            at <= last + 1,
            forall|j: int| 0 <= j < at ==> !stands_at(h@, n@, j),
        decreases last + 1 - at,
    {
        if found_at(&h, &n, at) {
            return true;
        }
        if at == last {
            proof {
                assert forall|j: int| !stands_at(h@, n@, j) by {}
            }
            return false;
        }
        at = at + 1;
    }
    false
}

/// Whether `hay` starts with `needle`.
pub fn begins(hay: &str, needle: &str) -> (r: bool)
    ensures
        r == begins_with(hay@, needle@),
{
    found_at(&chars_of(hay), &chars_of(needle), 0)
}

/// Whether `hay` ends with `needle`.
pub fn ends(hay: &str, needle: &str) -> (r: bool)
    ensures
        r == ends_with(hay@, needle@),
{
    let h = chars_of(hay);
    let n = chars_of(needle);
    if n.len() > h.len() {
        return false;
    }
    found_at(&h, &n, h.len() - n.len())
}

/// `c` occurs in `s`.
pub open spec fn holds_char(s: Seq<char>, c: char) -> bool {
    exists|i: int| 0 <= i < s.len() && s[i] == c
}

/// Whether `c` occurs in `s`.
pub fn has_char(s: &str, c: char) -> (r: bool)
    ensures
        r == holds_char(s@, c),
{
    let v = chars_of(s);
    let mut i: usize = 0;
    while i < v.len()
        invariant
            v@ == s@,
            i <= v@.len(),
            forall|j: int| 0 <= j < i ==> v@[j] != c,
        decreases v@.len() - i,
    {
        if v[i] == c {
            return true;
        }
        i = i + 1;
    }
    false
}

// ---------------------------------------------------------------------------
// Splitting and joining
// ---------------------------------------------------------------------------

/// The pieces of `s` between the separators `c`; one more than there are
/// separators.
pub open spec fn split_of(s: Seq<char>, c: char) -> Seq<Seq<char>>
    decreases s.len(),
{
    if s.len() == 0 {
        seq![Seq::<char>::empty()]
    } else {
        let init = split_of(s.drop_last(), c);
        if s.last() == c {
            init.push(Seq::empty())
        } else {
            init.drop_last().push(init.last().push(s.last()))
        }
    }
}

pub proof fn lemma_split_some(s: Seq<char>, c: char)
    ensures
        split_of(s, c).len() > 0,
    decreases s.len(),
{
    if s.len() > 0 {
        lemma_split_some(s.drop_last(), c);
    }
}

/// A text without separators is one piece.
pub proof fn lemma_unsplit(s: Seq<char>, c: char)
    requires
        !holds_char(s, c),
    ensures
        split_of(s, c) == seq![s],
    decreases s.len(),
{
    if s.len() > 0 {
        let init = s.drop_last();
        assert(!holds_char(init, c)) by {
            if holds_char(init, c) {
                let k = choose|k: int| 0 <= k < init.len() && init[k] == c;
                assert(s[k] == c);
            }
        }
        lemma_unsplit(init, c);
        assert(s.last() != c) by {
            assert(s[s.len() - 1] == s.last());
        }
        assert(seq![init].drop_last() =~= Seq::<Seq<char>>::empty());
        assert(init.push(s.last()) =~= s);
        assert(Seq::<Seq<char>>::empty().push(s) =~= seq![s]);
    } else {
        assert(s =~= Seq::<char>::empty());
    }
}

/// The last piece of a split holds no separator.
pub proof fn lemma_last_piece_plain(x: Seq<char>, c: char)
    ensures
        split_of(x, c).len() > 0,
        !holds_char(split_of(x, c).last(), c),
    decreases x.len(),
{
    lemma_split_some(x, c);
    if x.len() > 0 {
        lemma_last_piece_plain(x.drop_last(), c);
        let init = split_of(x.drop_last(), c);
        let last = split_of(x, c).last();
        if holds_char(last, c) {
            let k = choose|k: int| 0 <= k < last.len() && last[k] == c;
            if x.last() != c {
                assert(init.last()[k] == c);
            }
        }
    }
}

/// What follows a text is split on from its last piece.
pub proof fn lemma_split_append(x: Seq<char>, y: Seq<char>, c: char)
    ensures
        split_of(x, c).len() > 0,
        split_of(x + y, c) == split_of(x, c).drop_last() + split_of(
            split_of(x, c).last() + y,
            c,
        ),
    decreases y.len(),
{
    lemma_split_some(x, c);
    let px = split_of(x, c);
    if y.len() == 0 {
        assert(x + y =~= x);
        assert(px.last() + y =~= px.last());
        lemma_last_piece_plain(x, c);
        lemma_unsplit(px.last(), c);
        assert(px =~= px.drop_last() + seq![px.last()]);
    } else {
        let y0 = y.drop_last();
        lemma_split_append(x, y0, c);
        let q = px.last() + y0;
        let pq = split_of(q, c);
        lemma_split_some(q, c);
        assert((x + y).drop_last() =~= x + y0);
        assert((px.last() + y).drop_last() =~= q);
        if y.last() == c {
            assert((px.drop_last() + pq).push(Seq::empty()) =~= px.drop_last() + pq.push(
                Seq::empty(),
            ));
        } else {
            let whole = px.drop_last() + pq;
            assert(whole.last() == pq.last());
            assert(whole.drop_last().push(whole.last().push(y.last())) =~= px.drop_last()
                + pq.drop_last().push(pq.last().push(y.last())));
        }
    }
}

/// The pieces of `s` between the separators `c`.
pub fn split(s: &str, c: char) -> (r: Vec<String>)
    ensures
        texts(r@) == split_of(s@, c),
{
    let v = chars_of(s);
    let mut done: Vec<String> = Vec::new();
    let mut piece = String::new();
    let mut i: usize = 0;
    proof {
        assert(texts(done@).push(piece@) =~= split_of(s@.take(0), c));
    }
    while i < v.len()
        invariant
            v@ == s@,
            i <= v@.len(),
            texts(done@).push(piece@) == split_of(s@.take(i as int), c),
        decreases v@.len() - i,
    {
        let ghost before = texts(done@).push(piece@);
        proof {
            assert(s@.take(i + 1).drop_last() == s@.take(i as int));
            assert(before.drop_last() == texts(done@));
        }
        if v[i] == c {
            let ghost old_done = done@;
            done.push(piece);
            piece = String::new();
            proof {
                assert(texts(done@) =~= before);
            }
        } else {
            piece.push(v[i]);
        }
        i = i + 1;
    }
    proof {
        assert(s@.take(i as int) == s@);
    }
    let ghost before = done@;
    let ghost last = piece@;
    done.push(piece);
    assert(texts(done@) =~= texts(before).push(last));
    done
}

/// The pieces of `s` that hold no white space and are bounded by it.
pub open spec fn words_of(s: Seq<char>) -> Seq<Seq<char>>
    decreases s.len(),
{
    if s.len() == 0 {
        Seq::empty()
    } else {
        let init = words_of(s.drop_last());
        if is_white(s.last()) {
            init
        } else if s.len() >= 2 && !is_white(s[s.len() - 2]) {
            init.drop_last().push(init.last().push(s.last()))
        } else {
            init.push(seq![s.last()])
        }
    }
}

/// The words of `s`, bounded by white space.
pub fn words(s: &str) -> (r: Vec<String>)
    ensures
        texts(r@) == words_of(s@),
{
    let v = chars_of(s);
    let mut done: Vec<String> = Vec::new();
    let mut word = String::new();
    let mut open: bool = false;
    let mut i: usize = 0;
    proof {
        assert(texts(done@) =~= words_of(s@.take(0)));
    }
    while i < v.len()
        invariant
            v@ == s@,
            i <= v@.len(),
            open == (i > 0 && !is_white(s@[i - 1])),
            open ==> texts(done@).push(word@) == words_of(s@.take(i as int)),
            !open ==> texts(done@) == words_of(s@.take(i as int)) && word@.len() == 0,
        decreases v@.len() - i,
    {
        proof {
            assert(s@.take(i + 1).drop_last() == s@.take(i as int));
            if i > 0 {
                assert(s@.take(i + 1)[i - 1] == s@[i - 1]);
            }
            if open {
                assert(texts(done@).push(word@).drop_last() == texts(done@));
            }
        }
        if white(v[i]) {
            if open {
                let ghost old_done = done@;
                let ghost old_word = word@;
                done.push(word);
                word = String::new();
                proof {
                    assert(texts(done@) =~= texts(old_done).push(old_word));
                }
            }
            open = false;
        } else {
            let ghost old_word = word@;
            word.push(v[i]);
            proof {
                if !open {
                    assert(word@ =~= seq![s@[i as int]]);
                }
            }
            open = true;
        }
        i = i + 1;
    }
    proof {
        assert(s@.take(i as int) == s@);
    }
    if open {
        let ghost old_done = done@;
        let ghost old_word = word@;
        done.push(word);
        proof {
            assert(texts(done@) =~= texts(old_done).push(old_word));
        }
    }
    done
}

/// A line without the carriage return that stands before its line feed.
pub open spec fn without_return(line: Seq<char>) -> Seq<char> {
    if line.len() > 0 && line.last() == '\r' {
        line.drop_last()
    } else {
        line
    }
}

/// The lines of `s`. A line ends in a line feed, or a carriage return and a
/// line feed; the text after the last line feed is a line unless it is empty.
pub open spec fn lines_of(s: Seq<char>) -> Seq<Seq<char>> {
    let pieces = split_of(s, '\n');
    let ended = pieces.drop_last().map_values(|l: Seq<char>| without_return(l));
    if pieces.last().len() == 0 {
        ended
    } else {
        ended.push(pieces.last())
    }
}

/// `line` without the carriage return at its end, if it has one.
pub fn strip_return(line: &str) -> (r: String)
    ensures
        r@ == without_return(line@),
{
    let v = chars_of(line);
    if v.len() > 0 && v[v.len() - 1] == '\r' {
        let r = string_of(&v, 0, v.len() - 1);
        assert(r@ == line@.drop_last());
        r
    } else {
        line.to_owned()
    }
}

/// The lines of `s`.
pub fn lines(s: &str) -> (r: Vec<String>)
    ensures
        texts(r@) == lines_of(s@),
{
    let pieces = split(s, '\n');
    proof {
        lemma_split_some(s@, '\n');
        assert(pieces@.len() == split_of(s@, '\n').len());
    }
    let ghost all = split_of(s@, '\n');
    let ghost ended = all.drop_last().map_values(|l: Seq<char>| without_return(l));
    let last: usize = pieces.len() - 1;
    let mut out: Vec<String> = Vec::new();
    let mut i: usize = 0;
    while i < last
        invariant
            texts(pieces@) == all,
            last + 1 == pieces@.len(),
            ended == all.drop_last().map_values(|l: Seq<char>| without_return(l)),
            i <= last,
            texts(out@) == ended.take(i as int),
        decreases last - i,
    {
        let ghost before = texts(out@);
        let line = strip_return(&pieces[i]);
        proof {
            assert(all[i as int] == pieces@[i as int]@);
        }
        out.push(line);
        proof {
            assert(texts(out@) =~= before.push(without_return(all[i as int])));
            assert(ended.take(i + 1) =~= ended.take(i as int).push(ended[i as int]));
        }
        i = i + 1;
    }
    proof {
        assert(ended.take(i as int) == ended);
        assert(all.last() == pieces@[last as int]@);
    }
    if !pieces[last].as_str().is_empty() {
        let ghost before = texts(out@);
        out.push(pieces[last].clone());
        assert(texts(out@) =~= before.push(all.last()));
    }
    out
}

/// The parts in order, with `sep` between each two.
pub open spec fn join_of(parts: Seq<Seq<char>>, sep: Seq<char>) -> Seq<char>
    decreases parts.len(),
{
    if parts.len() == 0 {
        Seq::empty()
    } else if parts.len() == 1 {
        parts[0]
    } else {
        join_of(parts.drop_last(), sep) + sep + parts.last()
    }
}

/// The parts in order, with `sep` between each two.
pub fn join(parts: &Vec<String>, sep: &str) -> (r: String)
    ensures
        r@ == join_of(texts(parts@), sep@),
{
    let mut r = String::new();
    let mut i: usize = 0;
    let ghost all = texts(parts@);
    while i < parts.len()
        invariant
            all == texts(parts@),
            i <= parts@.len(),
            r@ == join_of(all.take(i as int), sep@),
        decreases parts@.len() - i,
    {
        if i > 0 {
            r.append(sep);
        }
        r.append(&parts[i]);
        proof {
            assert(all.take(i + 1).drop_last() == all.take(i as int));
            assert(all.take(i + 1).last() == parts@[i as int]@);
        }
        i = i + 1;
    }
    assert(all.take(i as int) == all);
    r
}

// ---------------------------------------------------------------------------
// Decimal numbers
// ---------------------------------------------------------------------------

/// The digit for `n`, which is below ten.
pub open spec fn digit_of(n: nat) -> char {
    (48 + n) as char
}

/// `n` in decimal, without leading zeros.
pub open spec fn decimal_of(n: nat) -> Seq<char>
    decreases n,
{
    if n < 10 {
        seq![digit_of(n)]
    } else {
        decimal_of(n / 10).push(digit_of(n % 10))
    }
}

/// `n` in decimal, without leading zeros.
pub fn decimal(n: u64) -> (r: String)
    ensures
        r@ == decimal_of(n as nat),
    decreases n,
{
    let d: u8 = (n % 10) as u8;
    let c: char = (48 + d) as char;
    if n < 10 {
        let mut r = String::new();
        r.push(c);
        assert(r@ =~= seq![c]);
        r
    } else {
        let mut r = decimal(n / 10);
        r.push(c);
        r
    }
}

/// `n` in decimal with at least two digits.
pub open spec fn two_digits_of(n: nat) -> Seq<char> {
    if n < 10 {
        "0"@ + decimal_of(n)
    } else {
        decimal_of(n)
    }
}

/// `n` in decimal with at least two digits.
pub fn two_digits(n: u64) -> (r: String)
    ensures
        r@ == two_digits_of(n as nat),
{
    if n < 10 {
        cat("0", &decimal(n))
    } else {
        decimal(n)
    }
}

pub open spec fn digit_value(c: char) -> nat {
    (c as u32 - 48) as nat
}

/// Every character is a digit.
pub open spec fn all_digits(s: Seq<char>) -> bool {
    forall|i: int| 0 <= i < s.len() ==> is_digit(#[trigger] s[i])
}

/// The number that digits denote.
pub open spec fn number_of(s: Seq<char>) -> nat
    decreases s.len(),
{
    if s.len() == 0 {
        0
    } else {
        10 * number_of(s.drop_last()) + digit_value(s.last())
    }
}

/// The number that a text denotes: digits, after an optional plus sign, no
/// larger than `max`.
pub open spec fn parsed_number(s: Seq<char>, max: nat) -> Option<nat> {
    let body = if s.len() > 0 && s[0] == '+' {
        s.drop_first()
    } else {
        s
    };
    if body.len() > 0 && all_digits(body) && number_of(body) <= max {
        Some(number_of(body))
    } else {
        None
    }
}

proof fn lemma_number_grows(s: Seq<char>, k: int)
    requires
        0 <= k <= s.len(),
        all_digits(s),
    ensures
        number_of(s.take(k)) <= number_of(s),
    decreases s.len() - k,
{
    if k < s.len() {
        lemma_number_grows(s, k + 1);
        assert(s.take(k + 1).drop_last() == s.take(k));
    } else {
        assert(s.take(k) == s);
    }
}

/// The number that `s` denotes, if it denotes one no larger than `max`.
pub fn parse_number(s: &str, max: u64) -> (r: Option<u64>)
    ensures
        match r {
            Some(n) => parsed_number(s@, max as nat) == Some(n as nat),
            None => parsed_number(s@, max as nat) is None,
        },
{
    let v = chars_of(s);
    let from: usize = if v.len() > 0 && v[0] == '+' {
        1
    } else {
        0
    };
    let ghost body = s@.skip(from as int);
    proof {
        if from == 0 {
            assert(body == s@);
        } else {
            assert(body == s@.drop_first());
        }
    }
    if from == v.len() {
        return None;
    }
    let mut k: usize = from;
    while k < v.len()
        invariant
            v@ == s@,
            body == s@.skip(from as int),
            from <= k <= v@.len(),
            parsed_number(s@, max as nat) is Some ==> all_digits(body),
            forall|j: int| 0 <= j < k - from ==> is_digit(#[trigger] body[j]),
        decreases v@.len() - k,
    {
        if !digit(v[k]) {
            proof {
                assert(body[k - from] == v@[k as int]);
            }
            return None;
        }
        k = k + 1;
    }
    let mut n: u64 = 0;
    let mut i: usize = from;
    while i < v.len()
        invariant
            v@ == s@,
            body == s@.skip(from as int),
            from <= i <= v@.len(),
            all_digits(body),
            n == number_of(body.take(i - from)),
            n <= max,
            body.len() > 0,
            parsed_number(s@, max as nat) == (if number_of(body) <= max {
                Some(number_of(body))
            } else {
                None
            }),
        decreases v@.len() - i,
    {
        proof {
            assert(body[i - from] == v@[i as int]);
            assert(is_digit(body[i - from]));
            assert(body.take(i + 1 - from).drop_last() == body.take(i - from));
            assert(body.take(i + 1 - from).last() == v@[i as int]);
            lemma_number_grows(body, i + 1 - from);
        }
        let d: u64 = (v[i] as u32 - 48) as u64;
        if d > max || n > (max - d) / 10 {
            return None;
        }
        n = n * 10 + d;
        i = i + 1;
    }
    assert(body.take(v@.len() - from) == body);
    Some(n)
}

proof fn lemma_decimal_digits(n: nat)
    ensures
        all_digits(decimal_of(n)),
        decimal_of(n).len() > 0,
        number_of(decimal_of(n)) == n,
    decreases n,
{
    if n < 10 {
        let s = decimal_of(n);
        assert(s.drop_last() =~= Seq::<char>::empty());
        assert(number_of(s.drop_last()) == 0);
    } else {
        lemma_decimal_digits(n / 10);
        assert(decimal_of(n).drop_last() == decimal_of(n / 10));
    }
}

/// A number written in decimal denotes itself.
pub proof fn decimal_reads_back(n: nat, max: nat)
    requires
        n <= max,
    ensures
        parsed_number(decimal_of(n), max) == Some(n),
        all_digits(decimal_of(n)),
        decimal_of(n).len() > 0,
{
    lemma_decimal_digits(n);
    assert(is_digit(decimal_of(n)[0]));
}

// ---------------------------------------------------------------------------
// Order
// ---------------------------------------------------------------------------

/// `a` comes before `b`: character by character, the shorter one first.
pub open spec fn precedes(a: Seq<char>, b: Seq<char>) -> bool
    decreases a.len(),
{
    if b.len() == 0 {
        false
    } else if a.len() == 0 {
        true
    } else if a[0] != b[0] {
        a[0] < b[0]
    } else {
        precedes(a.drop_first(), b.drop_first())
    }
}

/// Whether `a` comes before `b`.
pub fn before(a: &str, b: &str) -> (r: bool)
    ensures
        r == precedes(a@, b@),
{
    let x = chars_of(a);
    let y = chars_of(b);
    let mut i: usize = 0;
    proof {
        assert(a@.skip(0) == a@);
        assert(b@.skip(0) == b@);
    }
    while i < x.len() && i < y.len()
        invariant
            x@ == a@,
            y@ == b@,
            i <= x@.len(),
            i <= y@.len(),
            precedes(a@, b@) == precedes(a@.skip(i as int), b@.skip(i as int)),
        decreases x@.len() - i,
    {
        proof {
            assert(a@.skip(i as int).drop_first() == a@.skip(i + 1));
            assert(b@.skip(i as int).drop_first() == b@.skip(i + 1));
        }
        if x[i] != y[i] {
            return x[i] < y[i];
        }
        i = i + 1;
    }
    i < y.len()
}

/// The order is total: of two different texts one comes first, and never both.
pub proof fn order_is_total(a: Seq<char>, b: Seq<char>)
    ensures
        !(precedes(a, b) && precedes(b, a)),
        precedes(a, b) || precedes(b, a) || a == b,
        !precedes(a, a),
    decreases a.len(),
{
    if a.len() > 0 && b.len() > 0 {
        order_is_total(a.drop_first(), b.drop_first());
        if a.drop_first() == b.drop_first() && a[0] == b[0] {
            assert(a =~= seq![a[0]] + a.drop_first());
            assert(b =~= seq![b[0]] + b.drop_first());
        }
    }
    if a.len() > 0 {
        order_is_total(a.drop_first(), a.drop_first());
    }
    if a.len() == 0 && b.len() == 0 {
        assert(a =~= b);
    }
}

/// The order is transitive.
pub proof fn order_is_transitive(a: Seq<char>, b: Seq<char>, c: Seq<char>)
    requires
        precedes(a, b),
        precedes(b, c),
    ensures
        precedes(a, c),
    decreases a.len(),
{
    if a.len() > 0 && a[0] == b[0] && b[0] == c[0] {
        order_is_transitive(a.drop_first(), b.drop_first(), c.drop_first());
    }
}

} // verus!
