//! Lines and words of a session in text form.
use vstd::prelude::*;
use crate::text::{char_lists, chars_of, is_white, parts, slice_chars, split_chars, white};

verus! {

/// A line without the carriage return before its end.
pub open spec fn without_return(line: Seq<char>) -> Seq<char> {
    if line.len() > 0 && line.last() == '\r' {
        line.drop_last()
    } else {
        line
    }
}

/// The first `n` pieces as lines that ended.
pub open spec fn ended_lines(pieces: Seq<Seq<char>>, n: int) -> Seq<Seq<char>>
    decreases n,
{
    if n <= 0 {
        Seq::empty()
    } else {
        ended_lines(pieces, n - 1).push(without_return(pieces[n - 1]))
    }
}

/// The lines of a text: each ends with a line feed, with or without a carriage
/// return before it, and the last may go without.
pub open spec fn lines(text: Seq<char>) -> Seq<Seq<char>> {
    let pieces = parts(text, '\n');
    let ended = ended_lines(pieces, pieces.len() - 1);
    if pieces.last().len() == 0 {
        ended
    } else {
        ended.push(pieces.last())
    }
}

/// The lines of a text.
pub fn split_lines(text: &str) -> (r: Vec<Vec<char>>)
    ensures
        char_lists(r@) == lines(text@),
{
    let pieces = split_chars(&chars_of(text), '\n');
    let ghost views = char_lists(pieces@);
    let mut out: Vec<Vec<char>> = Vec::new();
    assert(char_lists(out@) =~= Seq::empty());
    let mut i: usize = 0;
    while i + 1 < pieces.len()
        invariant
            i < pieces.len(),
            views == char_lists(pieces@),
            char_lists(out@) == ended_lines(views, i as int),
        decreases pieces.len() - i,
    {
        let piece = &pieces[i];
        assert(views[i as int] == piece@);
        let ghost before = out@;
        let end: usize = if piece.len() > 0 && piece[piece.len() - 1] == '\r' {
            piece.len() - 1
        } else {
            piece.len()
        };
        let line = slice_chars(piece, 0, end);
        assert(line@ =~= without_return(piece@));
        out.push(line);
        assert(char_lists(out@) =~= char_lists(before).push(line@));
        i = i + 1;
    }
    let last = &pieces[i];
    assert(views[i as int] == last@);
    if last.len() > 0 {
        let ghost before = out@;
        let line = slice_chars(last, 0, last.len());
        assert(line@ =~= last@);
        out.push(line);
        assert(char_lists(out@) =~= char_lists(before).push(line@));
    }
    out
}

/// A text without the white space before it.
pub open spec fn start_trimmed(s: Seq<char>) -> Seq<char>
    decreases s.len(),
{
    if s.len() > 0 && is_white(s[0]) {
        start_trimmed(s.drop_first())
    } else {
        s
    }
}

/// A text without the white space before it.
pub fn trim_start(s: &Vec<char>) -> (r: Vec<char>)
    ensures
        r@ == start_trimmed(s@),
{
    let mut start: usize = 0;
    assert(s@.subrange(0, s@.len() as int) =~= s@);
    while start < s.len() && white(s[start])
        invariant
            start <= s.len(),
            start_trimmed(s@) == start_trimmed(s@.subrange(start as int, s@.len() as int)),
        decreases s.len() - start,
    {
        assert(s@.subrange(start as int, s@.len() as int).drop_first() =~= s@.subrange(
            start as int + 1,
            s@.len() as int,
        ));
        start = start + 1;
    }
    slice_chars(s, start, s.len())
}

/// White space of ASCII.
pub open spec fn is_ascii_white(c: char) -> bool {
    c == ' ' || c == '\t' || c == '\n' || c == '\u{c}' || c == '\r'
}

pub fn ascii_white(c: char) -> (r: bool)
    ensures
        r == is_ascii_white(c),
{
    c == ' ' || c == '\t' || c == '\n' || c == '\u{c}' || c == '\r'
}

/// The words of a text, between white space of ASCII.
pub open spec fn words(s: Seq<char>) -> Seq<Seq<char>>
    decreases s.len(),
{
    if s.len() == 0 {
        Seq::empty()
    } else {
        let before = s.drop_last();
        let found = words(before);
        if is_ascii_white(s.last()) {
            found
        } else if before.len() == 0 || is_ascii_white(before.last()) {
            found.push(seq![s.last()])
        } else {
            found.drop_last().push(found.last().push(s.last()))
        }
    }
}

/// The words of a text.
pub fn split_words(s: &Vec<char>) -> (r: Vec<Vec<char>>)
    ensures
        char_lists(r@) == words(s@),
{
    let mut done: Vec<Vec<char>> = Vec::new();
    let mut word: Vec<char> = Vec::new();
    let mut i: usize = 0;
    assert(char_lists(done@) =~= Seq::empty());
    while i < s.len()
        invariant
            i <= s.len(),
            (i > 0 && !is_ascii_white(s@[i as int - 1])) == (word@.len() > 0),
            words(s@.take(i as int)) == (if word@.len() > 0 {
                char_lists(done@).push(word@)
            } else {
                char_lists(done@)
            }),
        decreases s.len() - i,
    {
        let c = s[i];
        let ghost part = s@.take(i as int + 1);
        let ghost found = words(s@.take(i as int));
        let ghost held = word@;
        let ghost listed = char_lists(done@);
        assert(part.drop_last() =~= s@.take(i as int));
        assert(held.len() > 0 ==> found.drop_last() =~= listed && found.last() == held);
        if ascii_white(c) {
            if word.len() > 0 {
                done.push(word);
                word = Vec::new();
                assert(char_lists(done@) =~= listed.push(held));
            }
        } else {
            word.push(c);
            assert(held.len() == 0 ==> word@ =~= seq![c]);
        }
        i = i + 1;
    }
    assert(s@.take(i as int) =~= s@);
    if word.len() > 0 {
        let ghost listed = char_lists(done@);
        let ghost held = word@;
        done.push(word);
        assert(char_lists(done@) =~= listed.push(held));
    }
    done
}

} // verus!
