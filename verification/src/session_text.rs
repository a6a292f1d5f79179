//! What lines, words and lengths of written texts are.
use vstd::prelude::*;
use vstd::utf8::{encode_scalar, encode_utf8};
use crate::session_lines::{ended_lines, is_ascii_white, lines, start_trimmed, without_return, words};
use crate::text::{is_white, parts, trimmed};

verus! {

/// Whether a text is so short that its length is a number of the machine.
pub open spec fn fits(s: Seq<char>) -> bool {
    encode_utf8(s).len() <= usize::MAX
}

/// A text that is one line: it holds no line feed and does not end with a
/// carriage return.
pub open spec fn is_line(s: Seq<char>) -> bool {
    !s.contains('\n') && !(s.len() > 0 && s.last() == '\r')
}

/// Lines as one text, each with a line feed behind it.
pub open spec fn joined(list: Seq<Seq<char>>) -> Seq<char>
    decreases list.len(),
{
    if list.len() == 0 {
        Seq::empty()
    } else {
        joined(list.drop_last()) + list.last() + seq!['\n']
    }
}

/// Joining more lines joins them at the end.
pub proof fn lemma_joined(a: Seq<Seq<char>>, b: Seq<Seq<char>>)
    ensures
        joined(a + b) == joined(a) + joined(b),
    decreases b.len(),
{
    if b.len() == 0 {
        assert(a + b =~= a);
    } else {
        lemma_joined(a, b.drop_last());
        assert((a + b).drop_last() =~= a + b.drop_last());
        assert((a + b).last() == b.last());
        assert(joined(a + b) =~= joined(a) + joined(b));
    }
}

/// What follows the last separator grows by a text that holds none.
proof fn lemma_parts_grow(s: Seq<char>, l: Seq<char>, separator: char)
    requires
        !l.contains(separator),
    ensures
        parts(s, separator).len() > 0,
        parts(s + l, separator) == parts(s, separator).drop_last().push(parts(s, separator).last() + l),
    decreases s.len() + l.len(),
{
    lemma_parts_exist(s, separator);
    let p = parts(s, separator);
    if l.len() == 0 {
        assert(s + l =~= s);
        assert(p.last() + l =~= p.last());
        assert(p.drop_last().push(p.last()) =~= p);
    } else {
        let before = l.drop_last();
        assert forall|i: int| 0 <= i < before.len() implies before[i] != separator by {
            assert(l.contains(l[i]));
        }
        lemma_parts_grow(s, before, separator);
        assert((s + l).drop_last() =~= s + before);
        assert((s + l).last() == l.last());
        assert(l.contains(l.last()));
        let q = parts(s + before, separator);
        assert(q.drop_last() =~= p.drop_last());
        assert(q.last() == p.last() + before);
        assert((p.last() + before).push(l.last()) =~= p.last() + l);
    }
}

proof fn lemma_parts_exist(s: Seq<char>, separator: char)
    ensures
        parts(s, separator).len() > 0,
    decreases s.len(),
{
    if s.len() > 0 {
        lemma_parts_exist(s.drop_last(), separator);
    }
}

proof fn lemma_parts_of_joined(list: Seq<Seq<char>>)
    requires
        forall|i: int| 0 <= i < list.len() ==> is_line(#[trigger] list[i]),
    ensures
        parts(joined(list), '\n') == list.push(Seq::empty()),
    decreases list.len(),
{
    if list.len() == 0 {
        assert(parts(joined(list), '\n') =~= list.push(Seq::empty()));
    } else {
        let before = list.drop_last();
        let l = list.last();
        lemma_parts_of_joined(before);
        assert(is_line(l));
        lemma_parts_grow(joined(before), l, '\n');
        let s = joined(before) + l;
        assert(joined(list) =~= s.push('\n'));
        assert(joined(list).drop_last() =~= s);
        assert(before.push(Seq::<char>::empty()).drop_last() =~= before);
        assert(Seq::<char>::empty() + l =~= l);
        assert(parts(s, '\n') =~= before.push(l));
        assert(before.push(l) =~= list);
    }
}

proof fn lemma_ended(list: Seq<Seq<char>>, pieces: Seq<Seq<char>>, n: int)
    requires
        0 <= n <= list.len() <= pieces.len(),
        forall|i: int| 0 <= i < list.len() ==> is_line(#[trigger] list[i]),
        forall|i: int| 0 <= i < list.len() ==> #[trigger] pieces[i] == list[i],
    ensures
        ended_lines(pieces, n) == list.take(n),
    decreases n,
{
    if n > 0 {
        lemma_ended(list, pieces, n - 1);
        assert(is_line(list[n - 1]));
        assert(without_return(pieces[n - 1]) == list[n - 1]);
        assert(list.take(n) =~= list.take(n - 1).push(list[n - 1]));
    } else {
        assert(list.take(0) =~= Seq::empty());
    }
}

/// The lines of joined lines are those lines.
pub proof fn law_lines_undo_joining(list: Seq<Seq<char>>)
    requires
        forall|i: int| 0 <= i < list.len() ==> is_line(#[trigger] list[i]),
    ensures
        lines(joined(list)) == list,
{
    lemma_parts_of_joined(list);
    let pieces = list.push(Seq::<char>::empty());
    lemma_ended(list, pieces, list.len() as int);
    assert(list.take(list.len() as int) =~= list);
}

/// A word: no white space of ASCII, and not empty.
pub open spec fn is_word(s: Seq<char>) -> bool {
    s.len() > 0 && forall|i: int| 0 <= i < s.len() ==> !is_ascii_white(#[trigger] s[i])
}

/// Words with tabs between them.
pub open spec fn tabbed(list: Seq<Seq<char>>) -> Seq<char>
    decreases list.len(),
{
    if list.len() == 0 {
        Seq::empty()
    } else if list.len() == 1 {
        list[0]
    } else {
        tabbed(list.drop_last()) + seq!['\t'] + list.last()
    }
}

/// A word behind white space, or at the start, is the last word.
proof fn lemma_word_at_end(s: Seq<char>, word: Seq<char>)
    requires
        is_word(word),
        s.len() == 0 || is_ascii_white(s.last()),
    ensures
        words(s + word) == words(s).push(word),
    decreases word.len(),
{
    let all = s + word;
    assert(all.last() == word.last());
    assert(!is_ascii_white(word[word.len() - 1]));
    if word.len() == 1 {
        assert(all.drop_last() =~= s);
        assert(word =~= seq![word.last()]);
    } else {
        let before = word.drop_last();
        assert forall|i: int| 0 <= i < before.len() implies !is_ascii_white(#[trigger] before[i]) by {
            assert(before[i] == word[i]);
        }
        lemma_word_at_end(s, before);
        assert(all.drop_last() =~= s + before);
        assert((s + before).last() == before.last());
        assert(!is_ascii_white(word[word.len() - 2]));
        let found = words(s + before);
        assert(found.drop_last() =~= words(s));
        assert(before.push(word.last()) =~= word);
    }
}

/// The words of tabbed words are those words.
pub proof fn law_words_undo_tabbing(list: Seq<Seq<char>>)
    requires
        forall|i: int| 0 <= i < list.len() ==> is_word(#[trigger] list[i]),
    ensures
        words(tabbed(list)) == list,
    decreases list.len(),
{
    if list.len() == 1 {
        let none = Seq::<char>::empty();
        lemma_word_at_end(none, list[0]);
        assert(none + list[0] =~= list[0]);
        assert(words(none) =~= Seq::empty());
        assert(words(list[0]) =~= list);
    } else if list.len() > 1 {
        let before = list.drop_last();
        assert forall|i: int| 0 <= i < before.len() implies is_word(#[trigger] before[i]) by {
            assert(before[i] == list[i]);
        }
        law_words_undo_tabbing(before);
        let s = tabbed(before) + seq!['\t'];
        assert(s.drop_last() =~= tabbed(before));
        assert(s.last() == '\t');
        assert(words(s) == words(tabbed(before)));
        assert(is_word(list[list.len() - 1]));
        lemma_word_at_end(s, list.last());
        assert(before.push(list.last()) =~= list);
    } else {
        assert(words(tabbed(list)) =~= list);
    }
}

/// A text that begins with no white space is not all white space.
pub proof fn lemma_not_blank(s: Seq<char>)
    requires
        s.len() > 0,
        !is_white(s[0]),
    ensures
        trimmed(s).len() > 0,
        start_trimmed(s) == s,
    decreases s.len(),
{
    if is_white(s.last()) {
        assert(s.len() > 1);
        lemma_not_blank(s.drop_last());
    }
}

/// A text that is as it is when trimmed begins with no white space.
pub proof fn lemma_trimmed_start(s: Seq<char>)
    requires
        trimmed(s) == s,
        s.len() > 0,
    ensures
        !is_white(s[0]),
{
    lemma_trimmed_shorter(s);
    if is_white(s[0]) {
        lemma_trimmed_shorter(s.drop_first());
    }
}

proof fn lemma_trimmed_shorter(s: Seq<char>)
    ensures
        trimmed(s).len() <= s.len(),
    decreases s.len(),
{
    if s.len() > 0 {
        if is_white(s[0]) {
            lemma_trimmed_shorter(s.drop_first());
        } else if is_white(s.last()) {
            lemma_trimmed_shorter(s.drop_last());
        }
    }
}

/// The bytes of two texts together are those of each.
pub proof fn lemma_bytes_add(a: Seq<char>, b: Seq<char>)
    ensures
        encode_utf8(a + b) == encode_utf8(a) + encode_utf8(b),
    decreases a.len(),
{
    if a.len() == 0 {
        assert(a + b =~= b);
        assert(encode_utf8(a) + encode_utf8(b) =~= encode_utf8(b));
    } else {
        lemma_bytes_add(a.drop_first(), b);
        assert((a + b).drop_first() =~= a.drop_first() + b);
        assert((a + b)[0] == a[0]);
        let first = encode_scalar(a[0] as u32);
        assert(first + (encode_utf8(a.drop_first()) + encode_utf8(b)) =~= (first + encode_utf8(a.drop_first()))
            + encode_utf8(b));
    }
}

/// A text of ASCII has as many bytes as characters.
pub proof fn lemma_ascii_bytes(s: Seq<char>)
    requires
        forall|i: int| 0 <= i < s.len() ==> #[trigger] s[i] < '\u{80}',
    ensures
        encode_utf8(s).len() == s.len(),
    decreases s.len(),
{
    if s.len() > 0 {
        let rest = s.drop_first();
        assert forall|i: int| 0 <= i < rest.len() implies #[trigger] rest[i] < '\u{80}' by {
            assert(rest[i] == s[i + 1]);
        }
        lemma_ascii_bytes(rest);
        assert(s[0] < '\u{80}');
        vstd::utf8::char_u32_cast(s[0], s[0] as u32);
        assert(encode_scalar(s[0] as u32).len() == 1);
    }
}

} // verus!
