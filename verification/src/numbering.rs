//! Line numbers in front of every line of a text.
use vstd::prelude::*;

use crate::lines;
use crate::strings;

verus! {

/// `count` spaces.
pub open spec fn spaces(count: nat) -> Seq<char> {
    Seq::new(count, |i: int| ' ')
}

/// The numeral of `n`, right-aligned in a field of at least `width`
/// characters.
pub open spec fn padded(n: nat, width: nat) -> Seq<char> {
    let numeral = strings::decimal(n);
    if numeral.len() < width {
        spaces((width - numeral.len()) as nat) + numeral
    } else {
        numeral
    }
}

/// The characters that the largest line number takes in a text of `total`
/// lines.
pub open spec fn number_width(total: nat) -> nat {
    strings::decimal(total).len()
}

/// What stands in front of line `n` (counted from one) of a text of `total`
/// lines: its number and a tab.
pub open spec fn label(n: nat, total: nat) -> Seq<char> {
    padded(n, number_width(total)).push('\t')
}

/// The numbered lines of a text, each with its line feed.
pub open spec fn rows(text: Seq<char>) -> Seq<Seq<char>> {
    let all = lines::lines(text);
    Seq::new(all.len(), |i: int| (label((i + 1) as nat, all.len()) + all[i]).push('\n'))
}

/// `text` with a number in front of every line.
pub open spec fn numbered(text: Seq<char>) -> Seq<char> {
    rows(text).flatten()
}

/// Appends the numeral of `n`, right-aligned in a field of `width` characters.
fn push_padded(out: &mut String, n: usize, width: usize)
    ensures
        final(out)@ == old(out)@ + padded(n as nat, width as nat),
{
    let numeral = strings::decimal_text(n);
    let len: usize = numeral.as_str().unicode_len();
    let ghost start = out@;
    if len < width {
        let gap: usize = width - len;
        let mut k: usize = 0;
        assert(out@ =~= start + spaces(0));
        while k < gap
            invariant
                k <= gap,
                out@ == start + spaces(k as nat),
            decreases gap - k,
        {
            out.push(' ');
            k += 1;
            assert(out@ =~= start + spaces(k as nat));
        }
    }
    out.append(numeral.as_str());
    assert(out@ =~= start + padded(n as nat, width as nat));
}

/// Prepends 1-based line numbers to every line of `text`.
///
/// Numbers are right-aligned in a field wide enough to hold the largest line
/// number, followed by a tab. Every line of the result ends in `\n`; empty
/// text has no lines and stays empty.
#[must_use]
pub fn add_line_numbers(text: &str) -> (result: String)
    ensures
        result@ == numbered(text@),
{
    let all = lines::split_lines(text);
    let ghost cut = lines::lines(text@);
    let total: usize = all.len();
    assert(cut.len() == total);
    let width: usize = strings::decimal_text(total).as_str().unicode_len();
    let mut out = String::new();
    let mut i: usize = 0;
    assert(rows(text@).take(0) =~= Seq::empty());
    while i < total
        invariant
            i <= total,
            total == all@.len(),
            cut == strings::texts(all@),
            cut == lines::lines(text@),
            width == number_width(total as nat),
            out@ == rows(text@).take(i as int).flatten(),
        decreases total - i,
    {
        let ghost done = rows(text@).take(i as int);
        let ghost row = rows(text@)[i as int];
        push_padded(&mut out, i + 1, width);
        out.push('\t');
        assert(all@[i as int]@ == cut[i as int]);
        out.append(all[i].as_str());
        out.push('\n');
        proof {
            assert(out@ =~= done.flatten() + row);
            done.lemma_flatten_push(row);
            assert(done.push(row) =~= rows(text@).take(i + 1));
        }
        i += 1;
    }
    assert(rows(text@).take(total as int) =~= rows(text@));
    out
}

/// Numerals have at least one digit, and none is a space, a tab, a line feed
/// or a carriage return.
proof fn lemma_decimal_shape(n: nat)
    ensures
        strings::decimal(n).len() > 0,
        forall|i: int|
            0 <= i < strings::decimal(n).len() ==> '0' <= #[trigger] strings::decimal(n)[i] <= '9',
    decreases n,
{
    if n >= 10 {
        lemma_decimal_shape(n / 10);
    }
}

/// A larger number has a numeral that is at least as long.
proof fn lemma_decimal_monotonic(a: nat, b: nat)
    requires
        a <= b,
    ensures
        strings::decimal(a).len() <= strings::decimal(b).len(),
    decreases b,
{
    lemma_decimal_shape(b);
    if a >= 10 {
        lemma_decimal_monotonic(a / 10, b / 10);
    }
}

/// No line of a text holds a line feed.
proof fn lemma_lines_without_line_feed(text: Seq<char>)
    ensures
        forall|i: int|
            0 <= i < lines::lines(text).len() ==> !(#[trigger] lines::lines(text)[i]).contains('\n'),
{
    lines::law_split_join(text, '\n');
    let pieces = lines::split(text, '\n');
    assert forall|i: int| 0 <= i < lines::lines(text).len() implies !(
    #[trigger] lines::lines(text)[i]).contains('\n') by {
        let line = lines::lines(text)[i];
        let piece = pieces[i];
        assert(!piece.contains('\n'));
        assert forall|j: int| 0 <= j < line.len() implies line[j] != '\n' by {
            assert(piece.contains(piece[j]));
        }
    }
}

/// Every number field of a text has the same width, which is that of the
/// largest line number: all labels of a text of `total` lines are equally
/// long, and a label is nothing but spaces, the number and the tab.
pub proof fn law_labels_align(n: nat, total: nat)
    requires
        1 <= n <= total,
    ensures
        label(n, total).len() == number_width(total) + 1,
        label(n, total) == spaces(
            (number_width(total) - strings::decimal(n).len()) as nat,
        ) + strings::decimal(n).push('\t'),
        label(total, total) == strings::decimal(total).push('\t'),
{
    lemma_decimal_monotonic(n, total);
    assert(label(n, total) =~= spaces(
        (number_width(total) - strings::decimal(n).len()) as nat,
    ) + strings::decimal(n).push('\t'));
}

/// Numbering keeps the lines: the result has as many lines as the text, and
/// line `i` of the result is the label of line `i` and that line. The one
/// exception is a line whose own text ends in a carriage return, which in the
/// result stands before a line feed and so counts as part of the line ending.
pub proof fn law_numbering_keeps_lines(text: Seq<char>)
    ensures
        lines::lines(numbered(text)).len() == lines::lines(text).len(),
        forall|i: int|
            0 <= i < lines::lines(text).len() ==> #[trigger] lines::lines(numbered(text))[i]
                == lines::strip_cr(
                label((i + 1) as nat, lines::lines(text).len()) + lines::lines(text)[i],
            ),
        forall|i: int|
            0 <= i < lines::lines(text).len() && !(lines::lines(text)[i].len() > 0
                && lines::lines(text)[i].last() == '\r')
                ==> #[trigger] lines::lines(numbered(text))[i] == label(
                (i + 1) as nat,
                lines::lines(text).len(),
            ) + lines::lines(text)[i],
{
    let all = lines::lines(text);
    let bodies = Seq::new(all.len(), |i: int| label((i + 1) as nat, all.len()) + all[i]);
    assert forall|i: int| 0 <= i < bodies.len() implies !(#[trigger] bodies[i]).contains('\n') by {
        let n = (i + 1) as nat;
        lemma_lines_without_line_feed(text);
        lemma_decimal_shape(n);
        assert(!all[i].contains('\n'));
        assert forall|j: int| 0 <= j < bodies[i].len() implies bodies[i][j] != '\n' by {
            let front = label(n, all.len());
            if j >= front.len() {
                assert(all[i].contains(all[i][j - front.len()]));
            } else if j < front.len() - 1 {
                let numeral = strings::decimal(n);
                let field = padded(n, number_width(all.len()));
                if field.len() > numeral.len() && j >= field.len() - numeral.len() {
                    assert(field[j] == numeral[j - (field.len() - numeral.len())]);
                }
            }
        }
    }
    lines::lemma_split_terminated(bodies, '\n');
    assert(rows(text) =~= lines::terminated(bodies, '\n'));
    let pieces = lines::split(numbered(text), '\n');
    assert(pieces =~= bodies.push(Seq::empty()));
    assert forall|i: int| 0 <= i < all.len() implies #[trigger] lines::lines(numbered(text))[i]
        == lines::strip_cr(bodies[i]) by {
        assert(pieces[i] == bodies[i]);
    }
    assert forall|i: int|
        0 <= i < all.len() && !(all[i].len() > 0 && all[i].last()
            == '\r') implies #[trigger] lines::lines(numbered(text))[i] == bodies[i] by {
        let front = label((i + 1) as nat, all.len());
        assert(bodies[i].last() == if all[i].len() > 0 { all[i].last() } else { front.last() });
    }
}

/// Numbered text ends in a line feed, unless there was no text at all.
pub proof fn law_trailing_line_feed(text: Seq<char>)
    ensures
        text.len() == 0 ==> numbered(text).len() == 0,
        text.len() > 0 ==> numbered(text).len() > 0 && numbered(text).last() == '\n',
{
    lines::law_split_join(text, '\n');
    let pieces = lines::split(text, '\n');
    if text.len() == 0 {
        assert(lines::lines(text).len() == 0);
        assert(rows(text) =~= Seq::empty());
    } else {
        if pieces.len() == 1 {
            assert(lines::join(pieces, '\n') == pieces[0]);
        }
        assert(rows(text).len() > 0);
        let front = rows(text).drop_last();
        front.lemma_flatten_push(rows(text).last());
        assert(front.push(rows(text).last()) =~= rows(text));
    }
}

/// Numbered text in characters: for each line of the text, in order, as many
/// spaces as the numeral of the largest line number is longer than that of its
/// own, its number counted from one, a tab, the line as it is, and a line feed.
pub proof fn law_numbered_text(text: Seq<char>)
    ensures
        numbered(text) == Seq::new(
            lines::lines(text).len(),
            |i: int|
                Seq::new(
                    (strings::decimal(lines::lines(text).len()).len() - strings::decimal(
                        (i + 1) as nat,
                    ).len()) as nat,
                    |k: int| ' ',
                ) + strings::decimal((i + 1) as nat) + seq!['\t'] + lines::lines(text)[i] + seq!['\n'],
        ).flatten(),
        forall|n: nat|
            1 <= n <= lines::lines(text).len() ==> #[trigger] strings::decimal(n).len()
                <= strings::decimal(lines::lines(text).len()).len(),
{
    let all = lines::lines(text);
    let written = Seq::new(
        all.len(),
        |i: int|
            Seq::new(
                (strings::decimal(all.len()).len() - strings::decimal((i + 1) as nat).len()) as nat,
                |k: int| ' ',
            ) + strings::decimal((i + 1) as nat) + seq!['\t'] + all[i] + seq!['\n'],
    );
    assert forall|n: nat| 1 <= n <= all.len() implies #[trigger] strings::decimal(n).len()
        <= strings::decimal(all.len()).len() by {
        lemma_decimal_monotonic(n, all.len());
    }
    assert forall|i: int| 0 <= i < all.len() implies rows(text)[i] == written[i] by {
        law_labels_align((i + 1) as nat, all.len());
        assert(rows(text)[i] =~= written[i]);
    }
    assert(rows(text) =~= written);
}

} // verus!
