//! Splitting text into lines and whitespace-delimited words.
use vstd::prelude::*;
use crate::seqs::views;
use crate::seqs::lemma_views_push;

verus! {

/// Appending one character to a `String` (`String::push`): the new contents
/// are the old ones followed by `c`.
pub assume_specification[ String::push ](s: &mut String, c: char)
    ensures
        final(s)@ == old(s)@.push(c),
;

/// Whether `c` separates words: the characters with the Unicode property
/// `White_Space`.
pub open spec fn is_space(c: char) -> bool {
    ||| '\t' <= c <= '\r'
    ||| c == ' '
    ||| c == '\u{85}'
    ||| c == '\u{a0}'
    ||| c == '\u{1680}'
    ||| '\u{2000}' <= c <= '\u{200a}'
    ||| c == '\u{2028}'
    ||| c == '\u{2029}'
    ||| c == '\u{202f}'
    ||| c == '\u{205f}'
    ||| c == '\u{3000}'
}

/// The number of characters of `t` before its first line feed.
pub open spec fn line_len(t: Seq<char>) -> nat
    decreases t.len(),
{
    if t.len() == 0 || t[0] == '\n' {
        0
    } else {
        1 + line_len(t.drop_first())
    }
}

/// The lines of `t`: the runs between line feeds. A line feed at the very end
/// opens no further line.
pub open spec fn split_lines(t: Seq<char>) -> Seq<Seq<char>>
    decreases t.len(),
{
    if t.len() == 0 {
        Seq::empty()
    } else {
        let k = line_len(t);
        proof {
            lemma_line_len_bound(t);
        }
        if k >= t.len() {
            seq![t]
        } else {
            seq![t.take(k as int)] + split_lines(t.skip(k as int + 1))
        }
    }
}

/// The number of characters of `t` before the first `mark` in it.
pub open spec fn part_len(t: Seq<char>, mark: char) -> nat
    decreases t.len(),
{
    if t.len() == 0 || t[0] == mark {
        0
    } else {
        1 + part_len(t.drop_first(), mark)
    }
}

/// A part ends at a mark or at the end of the text, and holds no mark.
pub proof fn lemma_part_len_bound(t: Seq<char>, mark: char)
    ensures
        part_len(t, mark) <= t.len(),
        part_len(t, mark) < t.len() ==> t[part_len(t, mark) as int] == mark,
        forall|i: int| 0 <= i < part_len(t, mark) ==> t[i] != mark,
    decreases t.len(),
{
    if t.len() == 0 || t[0] == mark {
    } else {
        lemma_part_len_bound(t.drop_first(), mark);
        assert forall|i: int| 0 <= i < part_len(t, mark) implies t[i] != mark by {
            if i > 0 {
                assert(t[i] == t.drop_first()[i - 1]);
            }
        }
    }
}

/// The parts of `t` between the occurrences of `mark`: one more part than
/// there are marks, and a part is empty where two marks meet or `t` begins or
/// ends with one.
pub open spec fn split_on(t: Seq<char>, mark: char) -> Seq<Seq<char>>
    decreases t.len(),
{
    let k = part_len(t, mark);
    proof {
        lemma_part_len_bound(t, mark);
    }
    if k >= t.len() {
        seq![t]
    } else {
        seq![t.take(k as int)] + split_on(t.skip(k as int + 1), mark)
    }
}

/// The number of characters of `t` before its first separator.
pub open spec fn word_len(t: Seq<char>) -> nat
    decreases t.len(),
{
    if t.len() == 0 || is_space(t[0]) {
        0
    } else {
        1 + word_len(t.drop_first())
    }
}

/// The words of `t`: its maximal runs of characters that are no separators.
pub open spec fn split_words(t: Seq<char>) -> Seq<Seq<char>>
    decreases t.len(),
{
    if t.len() == 0 {
        Seq::empty()
    } else if is_space(t[0]) {
        split_words(t.drop_first())
    } else {
        let k = word_len(t);
        proof {
            lemma_word_len_bound(t);
        }
        seq![t.take(k as int)] + split_words(t.skip(k as int))
    }
}

/// The words of `words` written one after another, with nothing between them.
pub open spec fn concat(words: Seq<Seq<char>>) -> Seq<char>
    decreases words.len(),
{
    if words.len() == 0 {
        Seq::empty()
    } else {
        concat(words.drop_last()) + words.last()
    }
}

/// A line ends at a line feed or at the end of the text, and holds no line
/// feed.
pub proof fn lemma_line_len_bound(t: Seq<char>)
    ensures
        line_len(t) <= t.len(),
        line_len(t) < t.len() ==> t[line_len(t) as int] == '\n',
        forall|i: int| 0 <= i < line_len(t) ==> t[i] != '\n',
    decreases t.len(),
{
    if t.len() == 0 || t[0] == '\n' {
    } else {
        lemma_line_len_bound(t.drop_first());
        assert forall|i: int| 0 <= i < line_len(t) implies t[i] != '\n' by {
            if i > 0 {
                assert(t[i] == t.drop_first()[i - 1]);
            }
        }
    }
}

/// A word ends at a separator or at the end of the text, and holds no
/// separator.
pub proof fn lemma_word_len_bound(t: Seq<char>)
    ensures
        word_len(t) <= t.len(),
        word_len(t) < t.len() ==> is_space(t[word_len(t) as int]),
        forall|i: int| 0 <= i < word_len(t) ==> !is_space(t[i]),
    decreases t.len(),
{
    if t.len() == 0 || is_space(t[0]) {
    } else {
        lemma_word_len_bound(t.drop_first());
        assert forall|i: int| 0 <= i < word_len(t) implies !is_space(t[i]) by {
            if i > 0 {
                assert(t[i] == t.drop_first()[i - 1]);
            }
        }
    }
}

/// Whether `c` separates words.
pub fn is_whitespace(c: char) -> (b: bool)
    ensures
        b == is_space(c),
{
    ('\t' <= c && c <= '\r') || c == ' ' || c == '\u{85}' || c == '\u{a0}' || c == '\u{1680}' || (
    '\u{2000}' <= c && c <= '\u{200a}') || c == '\u{2028}' || c == '\u{2029}' || c == '\u{202f}'
        || c == '\u{205f}' || c == '\u{3000}'
}

/// The characters of `s`, in order.
pub fn to_chars(s: &str) -> (out: Vec<char>)
    ensures
        out@ == s@,
{
    broadcast use vstd::string::axiom_spec_iter;

    let mut out: Vec<char> = Vec::new();
    for c in it: s.chars()
        invariant
            it.seq() == s@,
            out@ == s@.take(it.index() as int),
    {
        out.push(c);
    }
    out
}

/// A `String` with the characters of `chars`.
pub fn to_string(chars: &Vec<char>) -> (out: String)
    ensures
        out@ == chars@,
{
    let mut out = String::new();
    let mut i: usize = 0;
    while i < chars.len()
        invariant
            i <= chars.len(),
            out@ == chars@.take(i as int),
        decreases chars.len() - i,
    {
        out.push(chars[i]);
        i += 1;
    }
    out
}

/// Whether `word` is spelled exactly as `spelling`.
pub fn word_is(word: &Vec<char>, spelling: &str) -> (b: bool)
    ensures
        b == (word@ == spelling@),
{
    let other = to_chars(spelling);
    if word.len() != other.len() {
        return false;
    }
    let mut i: usize = 0;
    while i < word.len()
        invariant
            i <= word.len(),
            word.len() == other.len(),
            other@ == spelling@,
            word@.take(i as int) == other@.take(i as int),
        decreases word.len() - i,
    {
        if word[i] != other[i] {
            return false;
        }
        assert(word@.take(i + 1) =~= word@.take(i as int).push(word@[i as int]));
        assert(other@.take(i + 1) =~= other@.take(i as int).push(other@[i as int]));
        i += 1;
    }
    assert(word@.take(i as int) =~= word@);
    assert(other@.take(i as int) =~= other@);
    true
}

/// The lines of `text`.
pub fn lines(text: &Vec<char>) -> (out: Vec<Vec<char>>)
    ensures
        views(out@) == split_lines(text@),
{
    let n = text.len();
    let mut out: Vec<Vec<char>> = Vec::new();
    let mut i: usize = 0;
    assert(text@.skip(0) =~= text@);
    assert(views(out@) + split_lines(text@) =~= split_lines(text@));
    while i < n
        invariant
            n == text.len(),
            i <= n,
            views(out@) + split_lines(text@.skip(i as int)) == split_lines(text@),
        decreases n - i,
    {
        let ghost rest = text@.skip(i as int);
        let mut line: Vec<char> = Vec::new();
        let mut j: usize = i;
        while j < n && text[j] != '\n'
            invariant
                n == text.len(),
                i <= j <= n,
                rest == text@.skip(i as int),
                line@ == text@.subrange(i as int, j as int),
                line_len(rest) == (j - i) + line_len(text@.skip(j as int)),
            decreases n - j,
        {
            assert(text@.skip(j as int).drop_first() =~= text@.skip(j + 1));
            line.push(text[j]);
            assert(line@ =~= text@.subrange(i as int, j + 1));
            j += 1;
        }
        assert(line_len(rest) == j - i);
        assert(line@ =~= rest.take((j - i) as int));
        proof {
            lemma_views_push(out@, line);
        }
        out.push(line);
        if j < n {
            assert(rest.skip((j - i) + 1) =~= text@.skip(j + 1));
            assert(split_lines(rest) == seq![rest.take((j - i) as int)] + split_lines(
                text@.skip(j + 1),
            ));
            assert(views(out@) + split_lines(text@.skip(j + 1)) =~= split_lines(text@));
            i = j + 1;
        } else {
            assert(rest.take((j - i) as int) =~= rest);
            assert(text@.skip(n as int) =~= Seq::<char>::empty());
            assert(views(out@) + split_lines(text@.skip(n as int)) =~= split_lines(text@));
            i = n;
        }
    }
    assert(text@.skip(n as int) =~= Seq::<char>::empty());
    assert(views(out@) + Seq::<Seq<char>>::empty() =~= views(out@));
    out
}

/// The words of `line`.
pub fn split_whitespace(line: &Vec<char>) -> (out: Vec<Vec<char>>)
    ensures
        views(out@) == split_words(line@),
{
    let n = line.len();
    let mut out: Vec<Vec<char>> = Vec::new();
    let mut i: usize = 0;
    assert(line@.skip(0) =~= line@);
    assert(views(out@) + split_words(line@) =~= split_words(line@));
    while i < n
        invariant
            n == line.len(),
            i <= n,
            views(out@) + split_words(line@.skip(i as int)) == split_words(line@),
        decreases n - i,
    {
        let ghost rest = line@.skip(i as int);
        if is_whitespace(line[i]) {
            assert(rest.drop_first() =~= line@.skip(i + 1));
            i += 1;
        } else {
            let mut word: Vec<char> = Vec::new();
            let mut j: usize = i;
            while j < n && !is_whitespace(line[j])
                invariant
                    n == line.len(),
                    i <= j <= n,
                    rest == line@.skip(i as int),
                    word@ == line@.subrange(i as int, j as int),
                    word_len(rest) == (j - i) + word_len(line@.skip(j as int)),
                decreases n - j,
            {
                assert(line@.skip(j as int).drop_first() =~= line@.skip(j + 1));
                word.push(line[j]);
                assert(word@ =~= line@.subrange(i as int, j + 1));
                j += 1;
            }
            assert(word_len(rest) == j - i);
            assert(word@ =~= rest.take((j - i) as int));
            assert(rest.skip((j - i) as int) =~= line@.skip(j as int));
            proof {
                lemma_views_push(out@, word);
            }
            out.push(word);
            assert(views(out@) + split_words(line@.skip(j as int)) =~= split_words(line@));
            i = j;
        }
    }
    assert(line@.skip(n as int) =~= Seq::<char>::empty());
    assert(views(out@) + Seq::<Seq<char>>::empty() =~= views(out@));
    out
}

/// The parts of `word` between the occurrences of `mark`.
pub fn split(word: &Vec<char>, mark: char) -> (out: Vec<Vec<char>>)
    ensures
        views(out@) == split_on(word@, mark),
{
    let n = word.len();
    let mut out: Vec<Vec<char>> = Vec::new();
    let mut i: usize = 0;
    let mut done = false;
    assert(word@.skip(0) =~= word@);
    assert(views(out@) + split_on(word@, mark) =~= split_on(word@, mark));
    while !done
        invariant
            n == word.len(),
            i <= n,
            !done ==> views(out@) + split_on(word@.skip(i as int), mark) == split_on(word@, mark),
            done ==> views(out@) == split_on(word@, mark),
        decreases n - i + (if done { 0int } else { 1int }),
    {
        let ghost rest = word@.skip(i as int);
        let mut part: Vec<char> = Vec::new();
        let mut j: usize = i;
        while j < n && word[j] != mark
            invariant
                n == word.len(),
                i <= j <= n,
                rest == word@.skip(i as int),
                part@ == word@.subrange(i as int, j as int),
                part_len(rest, mark) == (j - i) + part_len(word@.skip(j as int), mark),
            decreases n - j,
        {
            assert(word@.skip(j as int).drop_first() =~= word@.skip(j + 1));
            part.push(word[j]);
            assert(part@ =~= word@.subrange(i as int, j + 1));
            j += 1;
        }
        assert(part_len(rest, mark) == j - i);
        assert(part@ =~= rest.take((j - i) as int));
        proof {
            lemma_views_push(out@, part);
        }
        out.push(part);
        if j < n {
            assert(rest.skip((j - i) + 1) =~= word@.skip(j + 1));
            assert(views(out@) + split_on(word@.skip(j + 1), mark) =~= split_on(word@, mark));
            i = j + 1;
        } else {
            assert(rest.take((j - i) as int) =~= rest);
            assert(views(out@) =~= split_on(word@, mark));
            done = true;
        }
    }
    out
}

/// The words of `words` written one after another.
pub fn join(words: &[Vec<char>]) -> (out: String)
    ensures
        out@ == concat(views(words@)),
{
    let ghost all = views(words@);
    let mut out = String::new();
    let mut i: usize = 0;
    assert(all.take(0) =~= Seq::<Seq<char>>::empty());
    while i < words.len()
        invariant
            i <= words.len(),
            all == views(words@),
            out@ == concat(all.take(i as int)),
        decreases words.len() - i,
    {
        let word = &words[i];
        let ghost before = out@;
        let mut j: usize = 0;
        while j < word.len()
            invariant
                j <= word.len(),
                out@ == before + word@.take(j as int),
            decreases word.len() - j,
        {
            out.push(word[j]);
            assert(word@.take(j + 1) =~= word@.take(j as int).push(word@[j as int]));
            j += 1;
        }
        assert(word@.take(j as int) =~= word@);
        assert(all.take(i + 1).drop_last() =~= all.take(i as int));
        assert(all.take(i + 1).last() == word@);
        i += 1;
    }
    assert(all.take(i as int) =~= all);
    out
}

} // verus!
