//! Promises about texts: taking one apart loses nothing, and what is put together can be
//! taken apart again.
use crate::text;
use vstd::prelude::*;

verus! {

/// The pieces of a text, put together with the separator between them, are the text.
pub proof fn pieces_make_the_text(s: Seq<char>, c: char)
    ensures
        text::split_of(s, c).len() > 0,
        text::join_of(text::split_of(s, c), seq![c]) == s,
    decreases s.len(),
{
    text::lemma_split_some(s, c);
    if s.len() > 0 {
        let init = s.drop_last();
        pieces_make_the_text(init, c);
        let before = text::split_of(init, c);
        let pieces = text::split_of(s, c);
        assert(init.push(s.last()) =~= s);
        if s.last() == c {
            assert(pieces.drop_last() =~= before);
            assert(text::join_of(pieces, seq![c]) =~= init + seq![c] + Seq::<char>::empty());
        } else {
            assert(pieces.drop_last() =~= before.drop_last());
            if before.len() == 1 {
                assert(text::join_of(pieces, seq![c]) =~= before[0].push(s.last()));
            } else {
                let front = text::join_of(before.drop_last(), seq![c]) + seq![c];
                assert(text::join_of(pieces, seq![c]) =~= front + before.last().push(s.last()));
                assert(front + before.last().push(s.last()) =~= (front + before.last()).push(
                    s.last(),
                ));
            }
        }
    }
}

/// No piece holds the separator.
pub proof fn pieces_hold_no_separator(s: Seq<char>, c: char, i: int)
    requires
        0 <= i < text::split_of(s, c).len(),
    ensures
        !text::holds_char(text::split_of(s, c)[i], c),
    decreases s.len(),
{
    if s.len() > 0 {
        let init = s.drop_last();
        text::lemma_split_some(init, c);
        let before = text::split_of(init, c);
        let pieces = text::split_of(s, c);
        if s.last() == c {
            if i < before.len() {
                pieces_hold_no_separator(init, c, i);
            }
        } else if i < before.len() - 1 {
            pieces_hold_no_separator(init, c, i);
            assert(pieces[i] == before[i]);
        } else {
            pieces_hold_no_separator(init, c, before.len() - 1);
            if text::holds_char(pieces[i], c) {
                let k = choose|k: int| 0 <= k < pieces[i].len() && pieces[i][k] == c;
                if k < before.last().len() {
                    assert(before.last()[k] == c);
                }
            }
        }
    } else {
        assert(text::split_of(s, c)[i] =~= Seq::<char>::empty());
    }
}

/// A line that ends is a line of its own, without its ending, and what follows does not
/// change it.
pub proof fn lines_end_where_they_say(line: Seq<char>, rest: Seq<char>)
    requires
        !text::holds_char(line, '\n'),
    ensures
        text::lines_of(line.push('\n') + rest) == seq![
            if line.len() > 0 && line.last() == '\r' {
                line.drop_last()
            } else {
                line
            },
        ] + text::lines_of(rest),
        line.len() > 0 ==> text::lines_of(line) == seq![line],
        text::lines_of(Seq::empty()).len() == 0,
{
    let head = line.push('\n');
    text::lemma_unsplit(line, '\n');
    assert(head.drop_last() =~= line);
    let ph = text::split_of(head, '\n');
    assert(ph =~= seq![line, Seq::<char>::empty()]);
    text::lemma_split_append(head, rest, '\n');
    assert(ph.last() + rest =~= rest);
    assert(ph.drop_last() =~= seq![line]);
    text::lemma_split_some(rest, '\n');
    let pr = text::split_of(rest, '\n');
    let all = text::split_of(head + rest, '\n');
    assert(all == seq![line] + pr);
    assert(all.drop_last() =~= seq![line] + pr.drop_last());
    assert(all.last() == pr.last());
    assert(all.drop_last().map_values(|l: Seq<char>| text::without_return(l)) =~= seq![
        text::without_return(line),
    ] + pr.drop_last().map_values(|l: Seq<char>| text::without_return(l)));
    let kept = if line.len() > 0 && line.last() == '\r' {
        line.drop_last()
    } else {
        line
    };
    assert(text::lines_of(head + rest) =~= seq![kept] + text::lines_of(rest));
    if line.len() > 0 {
        assert(seq![line].drop_last() =~= Seq::<Seq<char>>::empty());
        assert(text::lines_of(line) =~= seq![line]);
    }
    text::lemma_unsplit(Seq::<char>::empty(), '\n');
    assert(seq![Seq::<char>::empty()].drop_last() =~= Seq::<Seq<char>>::empty());
}

/// A word behind white space is one word more; white space behind a text adds none.
pub proof fn words_stand_apart(s: Seq<char>, gap: char, word: Seq<char>)
    requires
        text::is_white(gap),
        word.len() > 0,
        forall|i: int| 0 <= i < word.len() ==> !text::is_white(#[trigger] word[i]),
    ensures
        text::words_of(s.push(gap) + word) == text::words_of(s).push(word),
        text::words_of(s.push(gap)) == text::words_of(s),
        text::words_of(word) == seq![word],
        text::words_of(Seq::empty()).len() == 0,
    decreases word.len(),
{
    assert(s.push(gap).drop_last() =~= s);
    let all = s.push(gap) + word;
    let last = word.last();
    let init = word.drop_last();
    assert(last == word[word.len() - 1]);
    assert(all.drop_last() =~= s.push(gap) + init);
    assert(all.last() == last);
    if init.len() == 0 {
        assert(s.push(gap) + init =~= s.push(gap));
        assert(all[all.len() - 2] == gap);
        assert(text::is_white(s.push(gap).last()));
        assert(text::words_of(s.push(gap)) == text::words_of(s));
        assert(text::words_of(all) == text::words_of(s.push(gap)).push(seq![last]));
        assert(word =~= seq![last]);
        assert(text::words_of(init) =~= Seq::<Seq<char>>::empty());
        assert(text::words_of(word) =~= seq![word]);
    } else {
        assert forall|i: int| 0 <= i < init.len() implies !text::is_white(#[trigger] init[i]) by {
            assert(init[i] == word[i]);
        }
        words_stand_apart(s, gap, init);
        assert(all[all.len() - 2] == word[word.len() - 2]);
        assert(init.push(last) =~= word);
        let before = text::words_of(s).push(init);
        assert(before.drop_last() =~= text::words_of(s));
        assert(text::words_of(all) =~= text::words_of(s).push(word));
        assert(seq![init].drop_last().push(init.push(last)) =~= seq![word]);
    }
}

/// Trimming takes white space off the ends, and nothing else.
pub proof fn trimming_takes_only_white_space(s: Seq<char>, i: int)
    ensures
        text::trim_end_of(s).len() <= s.len(),
        text::trim_end_of(s) == s.take(text::trim_end_of(s).len() as int),
        text::trim_end_of(s).len() <= i < s.len() ==> text::is_white(s[i]),
        text::trim_end_of(s).len() > 0 ==> !text::is_white(text::trim_end_of(s).last()),
        text::trim_start_of(s).len() <= s.len(),
        text::trim_start_of(s) == s.skip(s.len() - text::trim_start_of(s).len()),
        0 <= i < s.len() - text::trim_start_of(s).len() ==> text::is_white(s[i]),
        text::trim_start_of(s).len() > 0 ==> !text::is_white(text::trim_start_of(s)[0]),
        text::trim_of(s) == text::trim_end_of(text::trim_start_of(s)),
    decreases s.len(),
{
    if s.len() > 0 {
        trimming_takes_only_white_space(s.drop_last(), i);
        trimming_takes_only_white_space(s.drop_first(), i - 1);
        if text::is_white(s.last()) {
            assert(text::trim_end_of(s) =~= s.take(text::trim_end_of(s).len() as int));
        } else {
            assert(s.take(s.len() as int) =~= s);
        }
        if text::is_white(s[0]) {
            let t = text::trim_start_of(s);
            assert(t =~= s.skip(s.len() - t.len()));
            if 0 < i < s.len() {
                assert(s.drop_first()[i - 1] == s[i]);
            }
        } else {
            assert(s.skip(0) =~= s);
        }
    }
}

/// White space is what it is elsewhere: the blank and the controls from tab to return among
/// the characters of ASCII.
pub proof fn blanks_are_white(c: char)
    requires
        (c as u32) < 128,
    ensures
        text::is_white(c) <==> c == ' ' || c == '\t' || c == '\n' || c == '\r' || c as u32 == 11
            || c as u32 == 12,
{
}

/// Lower case changes the capital letters of ASCII, each to its own, and nothing else.
pub proof fn capitals_become_small(s: Seq<char>, i: int)
    requires
        0 <= i < s.len(),
    ensures
        text::lower_of(s).len() == s.len(),
        'A' <= s[i] <= 'Z' ==> text::lower_of(s)[i] as u32 == s[i] as u32 + 32,
        !('A' <= s[i] <= 'Z') ==> text::lower_of(s)[i] == s[i],
{
    if 'A' <= s[i] <= 'Z' {
        let c = s[i];
        assert((c as u8) as u32 == c as u32);
    }
}

/// A number below a hundred takes two digits, and they are its own.
pub proof fn two_digits_are_two(n: nat)
    requires
        n < 100,
    ensures
        text::two_digits_of(n).len() == 2,
        text::two_digits_of(n)[0] as u32 == 48 + n / 10,
        text::two_digits_of(n)[1] as u32 == 48 + n % 10,
{
    reveal_strlit("0");
    reveal_with_fuel(text::decimal_of, 3);
}

/// Digits are the ten digits, letters the letters of ASCII.
pub proof fn digits_and_letters(c: char)
    ensures
        text::is_digit(c) <==> 48 <= c as u32 <= 57,
        text::is_letter(c) <==> 65 <= c as u32 <= 90 || 97 <= c as u32 <= 122,
{
}

/// A digit more makes a number ten times what it was, and the digit.
pub proof fn digits_count_by_ten(s: Seq<char>, d: char)
    requires
        '0' <= d <= '9',
    ensures
        text::number_of(s.push(d)) == 10 * text::number_of(s) + (d as u32 - 48),
        text::number_of(Seq::empty()) == 0,
{
    assert(s.push(d).drop_last() =~= s);
}

/// A text holds a part where the part can be read in it.
pub proof fn parts_are_read_in_place(hay: Seq<char>, part: Seq<char>, at: int)
    requires
        0 <= at,
        at + part.len() <= hay.len(),
        forall|i: int| 0 <= i < part.len() ==> #[trigger] part[i] == hay[at + i],
    ensures
        text::holds(hay, part),
{
    assert(hay.subrange(at, at + part.len()) =~= part);
    assert(text::stands_at(hay, part, at));
}

/// Texts are ordered by the first character in which they differ, and a text comes before
/// any that goes on from it.
pub proof fn texts_are_ordered_by_the_first_difference(
    head: Seq<char>,
    x: char,
    a: Seq<char>,
    y: char,
    b: Seq<char>,
)
    requires
        x != y,
    ensures
        text::precedes(head.push(x) + a, head.push(y) + b) <==> x < y,
        text::precedes(head, head.push(x) + a),
        !text::precedes(head.push(x) + a, head),
        !text::precedes(head, head),
    decreases head.len(),
{
    let s = head.push(x) + a;
    let t = head.push(y) + b;
    if head.len() > 0 {
        let rest = head.drop_first();
        texts_are_ordered_by_the_first_difference(rest, x, a, y, b);
        assert(s.drop_first() =~= rest.push(x) + a);
        assert(t.drop_first() =~= rest.push(y) + b);
        assert(s[0] == head[0] && t[0] == head[0]);
    } else {
        assert(s[0] == x && t[0] == y);
    }
}

/// A number is read exactly where there are only digits, some, behind at most one plus sign,
/// and what they count is not too large.
pub proof fn only_digits_are_a_number(s: Seq<char>, max: nat)
    ensures
        s.len() > 0 && s[0] != '+' && text::all_digits(s) ==> (text::parsed_number(s, max) == (
        if text::number_of(s) <= max {
            Some(text::number_of(s))
        } else {
            None
        })),
        s.len() == 0 ==> text::parsed_number(s, max) is None,
        s.len() > 0 && s[0] != '+' && !text::all_digits(s) ==> text::parsed_number(s, max) is None,
        text::parsed_number(s, max) matches Some(n) ==> n <= max,
{
}

} // verus!
