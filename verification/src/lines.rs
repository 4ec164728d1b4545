//! Cutting text at separators and into lines.
use vstd::prelude::*;

use crate::strings;

verus! {

/// The pieces of `text` between occurrences of `sep`, in order. There is one
/// piece more than there are separators; pieces may be empty.
pub open spec fn split(text: Seq<char>, sep: char) -> Seq<Seq<char>>
    decreases text.len(),
{
    if text.len() == 0 {
        seq![Seq::empty()]
    } else {
        let front = split(text.drop_last(), sep);
        if text.last() == sep {
            front.push(Seq::empty())
        } else {
            front.drop_last().push(front.last().push(text.last()))
        }
    }
}

/// A list of pieces with `sep` between each two neighbours.
pub open spec fn join(pieces: Seq<Seq<char>>, sep: char) -> Seq<char>
    decreases pieces.len(),
{
    if pieces.len() == 0 {
        Seq::empty()
    } else if pieces.len() == 1 {
        pieces[0]
    } else {
        join(pieces.drop_last(), sep).push(sep) + pieces.last()
    }
}

/// A line without the carriage return that ends it, if one does.
pub open spec fn strip_cr(line: Seq<char>) -> Seq<char> {
    if line.len() > 0 && line.last() == '\r' {
        line.drop_last()
    } else {
        line
    }
}

/// The lines of `text`. A line ends at `\n` or `\r\n`, which is not part of
/// it, and the ending of the last line is optional. A carriage return that no
/// line feed follows belongs to its line.
pub open spec fn lines(text: Seq<char>) -> Seq<Seq<char>> {
    let pieces = split(text, '\n');
    let count = if pieces.last().len() == 0 {
        pieces.len() - 1
    } else {
        pieces.len() as int
    };
    Seq::new(
        count as nat,
        |i: int|
            if i < pieces.len() - 1 {
                strip_cr(pieces[i])
            } else {
                pieces[i]
            },
    )
}

/// Cutting never yields an empty list.
pub proof fn lemma_split_nonempty(text: Seq<char>, sep: char)
    ensures
        split(text, sep).len() > 0,
    decreases text.len(),
{
    if text.len() > 0 {
        lemma_split_nonempty(text.drop_last(), sep);
    }
}

/// Cutting `text` at `sep` loses nothing: joining the pieces again gives
/// `text`, and no piece holds the separator.
pub proof fn law_split_join(text: Seq<char>, sep: char)
    ensures
        split(text, sep).len() > 0,
        join(split(text, sep), sep) == text,
        forall|i: int|
            0 <= i < split(text, sep).len() ==> !(#[trigger] split(text, sep)[i]).contains(sep),
    decreases text.len(),
{
    if text.len() > 0 {
        let front = split(text.drop_last(), sep);
        let pieces = split(text, sep);
        law_split_join(text.drop_last(), sep);
        if text.last() == sep {
            assert(pieces.drop_last() =~= front);
            assert(join(pieces, sep) =~= text);
        } else {
            assert(pieces.drop_last() =~= front.drop_last());
            assert(pieces.last() == front.last().push(text.last()));
            assert(join(pieces, sep) =~= join(front, sep).push(text.last()));
            assert(join(pieces, sep) =~= text);
            assert forall|i: int| 0 <= i < pieces.len() implies !(#[trigger] pieces[i]).contains(
                sep,
            ) by {
                if i == pieces.len() - 1 {
                    let last = front.last();
                    assert(!front[front.len() - 1].contains(sep));
                    assert forall|j: int| 0 <= j < pieces[i].len() implies pieces[i][j] != sep by {
                        if j < last.len() {
                            assert(last.contains(last[j]));
                        }
                    }
                } else {
                    assert(pieces[i] == front[i]);
                }
            }
        }
    }
}

/// Cutting at a separator that stands between two texts cuts each of them.
pub proof fn lemma_split_concat(a: Seq<char>, b: Seq<char>, sep: char)
    ensures
        split(a.push(sep) + b, sep) == split(a, sep) + split(b, sep),
    decreases b.len(),
{
    let whole = a.push(sep) + b;
    if b.len() == 0 {
        assert(whole.drop_last() =~= a);
        assert(split(whole, sep) =~= split(a, sep) + split(b, sep));
    } else {
        lemma_split_concat(a, b.drop_last(), sep);
        lemma_split_nonempty(b.drop_last(), sep);
        assert(whole.drop_last() =~= a.push(sep) + b.drop_last());
        assert(split(whole, sep) =~= split(a, sep) + split(b, sep));
    }
}

/// Text without a separator is its own single piece.
pub proof fn lemma_split_whole(text: Seq<char>, sep: char)
    requires
        !text.contains(sep),
    ensures
        split(text, sep) == seq![text],
    decreases text.len(),
{
    if text.len() > 0 {
        assert(text.contains(text[text.len() - 1]));
        assert forall|j: int| 0 <= j < text.drop_last().len() implies text.drop_last()[j] != sep by {
            assert(text.contains(text[j]));
        }
        lemma_split_whole(text.drop_last(), sep);
        assert(text.drop_last().push(text.last()) =~= text);
        assert(split(text, sep) =~= seq![text]);
    } else {
        assert(text =~= Seq::empty());
    }
}

/// Each piece with `sep` behind it.
pub open spec fn terminated(pieces: Seq<Seq<char>>, sep: char) -> Seq<Seq<char>> {
    Seq::new(pieces.len(), |i: int| pieces[i].push(sep))
}

/// Cutting a text that was put together of terminated pieces gives the pieces
/// back, and the empty text behind the last of them.
pub proof fn lemma_split_terminated(pieces: Seq<Seq<char>>, sep: char)
    requires
        forall|i: int| 0 <= i < pieces.len() ==> !(#[trigger] pieces[i]).contains(sep),
    ensures
        split(terminated(pieces, sep).flatten(), sep) == pieces.push(Seq::empty()),
    decreases pieces.len(),
{
    let whole = terminated(pieces, sep).flatten();
    if pieces.len() == 0 {
        assert(whole =~= Seq::empty());
        assert(split(whole, sep) =~= pieces.push(Seq::empty()));
    } else {
        let first = pieces.first();
        let rest = pieces.drop_first();
        let tail = terminated(rest, sep).flatten();
        assert forall|i: int| 0 <= i < rest.len() implies !(#[trigger] rest[i]).contains(sep) by {
            assert(rest[i] == pieces[i + 1]);
        }
        lemma_split_terminated(rest, sep);
        assert(terminated(pieces, sep).drop_first() =~= terminated(rest, sep));
        assert(whole =~= first.push(sep) + tail);
        lemma_split_concat(first, tail, sep);
        assert(!pieces[0].contains(sep));
        lemma_split_whole(first, sep);
        assert(seq![first] + rest.push(Seq::empty()) =~= pieces.push(Seq::empty()));
    }
}

/// Cuts `text` at every occurrence of `sep`.
pub fn split_on(text: &str, sep: char) -> (pieces: Vec<String>)
    ensures
        strings::texts(pieces@) == split(text@, sep),
{
    let mut pieces: Vec<String> = Vec::new();
    let mut current = String::new();
    assert(strings::texts(pieces@).push(current@) =~= split(text@.take(0), sep));
    for c in it: text.chars()
        invariant
            it.seq() == text@,
            strings::texts(pieces@).push(current@) == split(text@.take(it.index() as int), sep),
    {
        let ghost before = text@.take(it.index() as int);
        let ghost after = text@.take(it.index() + 1);
        let ghost done = strings::texts(pieces@);
        let ghost last = current@;
        proof {
            assert(after.drop_last() =~= before);
            assert(after.last() == c);
        }
        if c == sep {
            pieces.push(current);
            current = String::new();
            assert(strings::texts(pieces@) =~= done.push(last));
        } else {
            current.push(c);
        }
        assert(strings::texts(pieces@).push(current@) =~= split(after, sep));
    }
    assert(text@.take(text@.len() as int) =~= text@);
    let ghost done = strings::texts(pieces@);
    let ghost last = current@;
    pieces.push(current);
    assert(strings::texts(pieces@) =~= done.push(last));
    pieces
}

/// Cuts `text` into its lines.
pub fn split_lines(text: &str) -> (result: Vec<String>)
    ensures
        strings::texts(result@) == lines(text@),
{
    let pieces = split_on(text, '\n');
    let ghost cut = split(text@, '\n');
    proof {
        lemma_split_nonempty(text@, '\n');
        assert(strings::texts(pieces@).len() == pieces@.len());
    }
    let last: usize = pieces.len() - 1;
    let mut result: Vec<String> = Vec::new();
    let mut i: usize = 0;
    while i < last
        invariant
            i <= last,
            last == pieces@.len() - 1,
            cut == strings::texts(pieces@),
            result@.len() == i,
            forall|j: int| 0 <= j < i ==> (#[trigger] result@[j])@ == strip_cr(cut[j]),
        decreases last - i,
    {
        let piece: &str = pieces[i].as_str();
        assert(piece@ == cut[i as int]);
        let len: usize = piece.unicode_len();
        if len > 0 && piece.get_char(len - 1) == '\r' {
            let line = piece.substring_char(0, len - 1).to_owned();
            assert(line@ =~= strip_cr(piece@));
            result.push(line);
        } else {
            result.push(piece.to_owned());
        }
        i += 1;
    }
    let tail: &str = pieces[last].as_str();
    assert(tail@ == cut[last as int]);
    if !tail.is_empty() {
        result.push(tail.to_owned());
    }
    assert(strings::texts(result@) =~= lines(text@));
    result
}

/// How a text is cut at a separator, from its front: text without a separator
/// is one piece, and what stands in front of a separator is the first piece of
/// the whole, with the pieces of what stands behind it following.
pub proof fn law_pieces_from_the_front(a: Seq<char>, rest: Seq<char>, sep: char)
    requires
        !a.contains(sep),
    ensures
        split(a, sep) == seq![a],
        split(a.push(sep) + rest, sep) == seq![a] + split(rest, sep),
{
    lemma_split_whole(a, sep);
    lemma_split_concat(a, rest, sep);
}

/// How a text is cut into lines, from its front. Empty text has no line. Text
/// without a line feed is one line as it stands. In front of `\n` or `\r\n`
/// stands the first line, whole, and the lines of what stands behind follow.
pub proof fn law_lines_from_the_front(a: Seq<char>, rest: Seq<char>)
    requires
        !a.contains('\n'),
    ensures
        lines(Seq::empty()) == Seq::<Seq<char>>::empty(),
        a.len() > 0 ==> lines(a) == seq![a],
        a.len() == 0 || a.last() != '\r' ==> lines(a.push('\n') + rest) == seq![a] + lines(rest),
        lines(a + seq!['\r', '\n'] + rest) == seq![a] + lines(rest),
{
    let returned = a.push('\r');
    assert(!returned.contains('\n')) by {
        assert forall|i: int| 0 <= i < returned.len() implies returned[i] != '\n' by {
            if i < a.len() {
                assert(a.contains(a[i]));
            }
        }
    }
    lemma_split_nonempty(rest, '\n');
    law_pieces_from_the_front(a, rest, '\n');
    law_pieces_from_the_front(returned, rest, '\n');
    assert(lines(Seq::empty()) =~= Seq::<Seq<char>>::empty());
    if a.len() > 0 {
        assert(lines(a) =~= seq![a]);
    }
    if a.len() == 0 || a.last() != '\r' {
        assert(lines(a.push('\n') + rest) =~= seq![a] + lines(rest));
    }
    assert(returned.drop_last() =~= a);
    assert(a + seq!['\r', '\n'] + rest =~= returned.push('\n') + rest);
    assert(lines(returned.push('\n') + rest) =~= seq![a] + lines(rest));
}

/// The first line feed of a text that has one.
proof fn lemma_first_line_feed(text: Seq<char>) -> (k: int)
    requires
        text.contains('\n'),
    ensures
        0 <= k < text.len(),
        text[k] == '\n',
        !text.take(k).contains('\n'),
        text == text.take(k).push('\n') + text.skip(k + 1),
    decreases text.len(),
{
    let last = text.len() - 1;
    let front = text.drop_last();
    if front.contains('\n') {
        let k = lemma_first_line_feed(front);
        assert(front.take(k) =~= text.take(k));
        assert(text =~= text.take(k).push('\n') + text.skip(k + 1));
        k
    } else {
        assert(text[last] == '\n') by {
            let i = choose|i: int| 0 <= i < text.len() && text[i] == '\n';
            if i < last {
                assert(front[i] == '\n');
            }
        }
        assert(text.take(last) =~= front);
        assert(text =~= text.take(last).push('\n') + text.skip(last + 1));
        last
    }
}

/// Cutting into lines loses nothing: a line feed behind each line of a text
/// without carriage returns, blank lines too, gives the text back. Where a text
/// does not end in a line feed, and is not empty, it gains that one character.
pub proof fn law_lines_lose_nothing(text: Seq<char>)
    requires
        !text.contains('\r'),
    ensures
        Seq::new(lines(text).len(), |i: int| lines(text)[i].push('\n')).flatten() == (if text.len()
            == 0 || text.last() == '\n' {
            text
        } else {
            text.push('\n')
        }),
        forall|i: int| 0 <= i < lines(text).len() ==> !(#[trigger] lines(text)[i]).contains('\n'),
    decreases text.len(),
{
    let all = lines(text);
    let ended = Seq::new(all.len(), |i: int| all[i].push('\n'));
    if !text.contains('\n') {
        law_lines_from_the_front(text, Seq::empty());
        if text.len() > 0 {
            assert(ended.drop_first() =~= Seq::empty());
            assert(ended.drop_first().flatten() =~= Seq::empty());
            assert(ended.flatten() =~= text.push('\n'));
            assert(text.contains(text.last()));
        } else {
            assert(text =~= Seq::empty());
            assert(ended =~= Seq::empty());
            assert(ended.flatten() =~= text);
        }
    } else {
        let k = lemma_first_line_feed(text);
        let first = text.take(k);
        let rest = text.skip(k + 1);
        assert(!rest.contains('\r')) by {
            assert forall|i: int| 0 <= i < rest.len() implies rest[i] != '\r' by {
                assert(text.contains(text[i + k + 1]));
            }
        }
        if first.len() > 0 {
            assert(text.contains(text[k - 1]));
        }
        law_lines_from_the_front(first, rest);
        law_lines_lose_nothing(rest);
        let after = Seq::new(lines(rest).len(), |i: int| lines(rest)[i].push('\n'));
        assert(ended.drop_first() =~= after);
        assert(ended.first() == first.push('\n'));
        assert(ended.flatten() =~= first.push('\n') + after.flatten());
        if rest.len() > 0 {
            assert(rest.last() == text.last());
        }
        assert forall|i: int| 0 <= i < all.len() implies !(#[trigger] all[i]).contains('\n') by {
            if i > 0 {
                assert(all[i] == lines(rest)[i - 1]);
            }
        }
    }
}

/// With carriage returns too, nothing but the line endings is lost: there is an
/// ending for each line, with which the lines make up the text. It is `\r\n`,
/// or `\n` behind a line that does not itself end in `\r`, or nothing behind a
/// last line that is not empty.
pub proof fn law_lines_and_endings(text: Seq<char>)
    ensures
        exists|ends: Seq<Seq<char>>|
            {
                &&& #[trigger] ends.len() == lines(text).len()
                &&& text == Seq::new(
                    ends.len(),
                    |i: int| lines(text)[i] + ends[i],
                ).flatten()
                &&& forall|i: int| #![trigger ends[i]]
                    0 <= i < ends.len() ==> {
                        ||| ends[i] == seq!['\r', '\n']
                        ||| ends[i] == seq!['\n'] && (lines(text)[i].len() == 0 || lines(text)[i].last()
                            != '\r')
                        ||| ends[i].len() == 0 && lines(text)[i].len() > 0 && i == ends.len() - 1
                    }
            },
    decreases text.len(),
{
    let all = lines(text);
    if !text.contains('\n') {
        law_lines_from_the_front(text, Seq::empty());
        if text.len() > 0 {
            let ends = seq![Seq::<char>::empty()];
            let parts = Seq::new(ends.len(), |i: int| lines(text)[i] + ends[i]);
            assert(parts.drop_first() =~= Seq::empty());
            assert(parts.drop_first().flatten() =~= Seq::empty());
            assert(parts.flatten() =~= text);
            assert(ends.len() == lines(text).len());
        } else {
            assert(text =~= Seq::empty());
            let ends = Seq::<Seq<char>>::empty();
            let parts = Seq::new(ends.len(), |i: int| lines(text)[i] + ends[i]);
            assert(parts =~= Seq::empty());
            assert(parts.flatten() =~= text);
        }
    } else {
        let k = lemma_first_line_feed(text);
        let rest = text.skip(k + 1);
        let piece = text.take(k);
        law_lines_and_endings(rest);
        let tail = choose|ends: Seq<Seq<char>>|
            {
                &&& #[trigger] ends.len() == lines(rest).len()
                &&& rest == Seq::new(
                    ends.len(),
                    |i: int| lines(rest)[i] + ends[i],
                ).flatten()
                &&& forall|i: int| #![trigger ends[i]]
                    0 <= i < ends.len() ==> {
                        ||| ends[i] == seq!['\r', '\n']
                        ||| ends[i] == seq!['\n'] && (lines(rest)[i].len() == 0 || lines(rest)[i].last()
                            != '\r')
                        ||| ends[i].len() == 0 && lines(rest)[i].len() > 0 && i == ends.len() - 1
                    }
            };
        let returned = piece.len() > 0 && piece.last() == '\r';
        let line = if returned {
            piece.drop_last()
        } else {
            piece
        };
        let end = if returned {
            seq!['\r', '\n']
        } else {
            seq!['\n']
        };
        assert(!line.contains('\n')) by {
            assert forall|i: int| 0 <= i < line.len() implies line[i] != '\n' by {
                assert(piece.contains(piece[i]));
            }
        }
        law_lines_from_the_front(line, rest);
        assert(line + end =~= piece.push('\n'));
        if returned {
            assert(text =~= line + seq!['\r', '\n'] + rest);
        }
        let ends = seq![end] + tail;
        let parts = Seq::new(ends.len(), |i: int| lines(text)[i] + ends[i]);
        let after = Seq::new(tail.len(), |i: int| lines(rest)[i] + tail[i]);
        assert(all == seq![line] + lines(rest));
        assert(parts.drop_first() =~= after);
        assert(parts.first() == line + end);
        assert(parts.flatten() =~= text);
        assert forall|i: int| #![trigger ends[i]]
            0 <= i < ends.len() implies {
            ||| ends[i] == seq!['\r', '\n']
            ||| ends[i] == seq!['\n'] && (lines(text)[i].len() == 0 || lines(text)[i].last() != '\r')
            ||| ends[i].len() == 0 && lines(text)[i].len() > 0 && i == ends.len() - 1
        } by {
            if i > 0 {
                assert(ends[i] == tail[i - 1]);
                assert(all[i] == lines(rest)[i - 1]);
            }
        }
    }
}

} // verus!
