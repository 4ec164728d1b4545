//! Paths listed on standard input.
use vstd::prelude::*;

use crate::lines;
use crate::strings;

verus! {

/// The pieces that are not empty, in order.
pub open spec fn nonempty(pieces: Seq<Seq<char>>) -> Seq<Seq<char>> {
    pieces.filter(|piece: Seq<char>| piece.len() > 0)
}

/// The paths that a listing names: one per line or, with `null`, one between
/// each two NUL characters. Empty entries are passed over.
pub open spec fn listed(listing: Seq<char>, null: bool) -> Seq<Seq<char>> {
    nonempty(
        if null {
            lines::split(listing, '\0')
        } else {
            lines::lines(listing)
        },
    )
}

/// Reads the paths of a listing: one per line, or NUL-delimited with `null`.
/// Empty entries are passed over.
pub fn listed_paths(listing: &str, null: bool) -> (paths: Vec<String>)
    ensures
        strings::texts(paths@) == listed(listing@, null),
{
    let pieces = if null {
        lines::split_on(listing, '\0')
    } else {
        lines::split_lines(listing)
    };
    let ghost all = strings::texts(pieces@);
    let mut paths: Vec<String> = Vec::new();
    let mut i: usize = 0;
    proof {
        reveal(Seq::filter);
        assert(strings::texts(paths@) =~= nonempty(all.take(0)));
    }
    while i < pieces.len()
        invariant
            i <= pieces@.len(),
            all == strings::texts(pieces@),
            strings::texts(paths@) == nonempty(all.take(i as int)),
        decreases pieces@.len() - i,
    {
        let ghost done = strings::texts(paths@);
        let piece: &str = pieces[i].as_str();
        proof {
            reveal(Seq::filter);
            assert(piece@ == all[i as int]);
            assert(all.take(i + 1).drop_last() =~= all.take(i as int));
            assert(all.take(i + 1).last() == piece@);
        }
        if !piece.is_empty() {
            paths.push(piece.to_owned());
            assert(strings::texts(paths@) =~= done.push(piece@));
        }
        i += 1;
    }
    assert(all.take(all.len() as int) =~= all);
    paths
}

/// Whether `names` can be listed with `sep` behind each of them: no name is
/// empty and none holds the separator.
pub open spec fn listable(names: Seq<Seq<char>>, sep: char) -> bool {
    forall|i: int|
        0 <= i < names.len() ==> (#[trigger] names[i]).len() > 0 && !names[i].contains(sep)
}

proof fn lemma_nonempty_keeps_all(pieces: Seq<Seq<char>>)
    requires
        forall|i: int| 0 <= i < pieces.len() ==> (#[trigger] pieces[i]).len() > 0,
    ensures
        nonempty(pieces) == pieces,
        nonempty(pieces.push(Seq::empty())) == pieces,
    decreases pieces.len(),
{
    reveal(Seq::filter);
    let longer = pieces.push(Seq::empty());
    assert(longer.drop_last() =~= pieces);
    assert(longer.last().len() == 0);
    assert(nonempty(longer) == nonempty(pieces));
    if pieces.len() > 0 {
        let front = pieces.drop_last();
        assert forall|i: int| 0 <= i < front.len() implies (#[trigger] front[i]).len() > 0 by {
            assert(front[i] == pieces[i]);
        }
        lemma_nonempty_keeps_all(front);
        assert(pieces[pieces.len() - 1].len() > 0);
        assert(front.push(pieces.last()) =~= pieces);
    }
}

/// A NUL-delimited listing of names, each with a NUL behind it, is read back
/// as the same names in the same order.
pub proof fn law_null_listing_round_trip(names: Seq<Seq<char>>)
    requires
        listable(names, '\0'),
    ensures
        listed(lines::terminated(names, '\0').flatten(), true) == names,
{
    lines::lemma_split_terminated(names, '\0');
    lemma_nonempty_keeps_all(names);
}

/// A listing with one name per line is read back as the same names in the same
/// order. A name that ends in a carriage return is the exception: it cannot be
/// told from a line that ends in `\r\n`.
pub proof fn law_line_listing_round_trip(names: Seq<Seq<char>>)
    requires
        listable(names, '\n'),
        forall|i: int| 0 <= i < names.len() ==> (#[trigger] names[i]).last() != '\r',
    ensures
        listed(lines::terminated(names, '\n').flatten(), false) == names,
{
    let listing = lines::terminated(names, '\n').flatten();
    lines::lemma_split_terminated(names, '\n');
    assert(lines::lines(listing) =~= names) by {
        assert forall|i: int| 0 <= i < names.len() implies lines::lines(listing)[i]
            == names[i] by {
            assert(lines::split(listing, '\n')[i] == names[i]);
            assert(names[i].last() != '\r');
        }
    }
    lemma_nonempty_keeps_all(names);
}

/// No listed path is empty.
pub proof fn law_listed_paths_not_empty(listing: Seq<char>, null: bool)
    ensures
        forall|i: int|
            0 <= i < listed(listing, null).len() ==> (#[trigger] listed(listing, null)[i]).len()
                > 0,
{
    let pieces = if null {
        lines::split(listing, '\0')
    } else {
        lines::lines(listing)
    };
    let keep = |piece: Seq<char>| piece.len() > 0;
    assert forall|i: int| 0 <= i < listed(listing, null).len() implies (#[trigger] listed(
        listing,
        null,
    )[i]).len() > 0 by {
        pieces.lemma_filter_pred(keep, i);
    }
}

/// What a NUL-delimited listing names, from its front: the entry in front of a
/// NUL, as it stands and unless it is empty, and what the rest names.
pub proof fn law_null_listing_from_the_front(a: Seq<char>, rest: Seq<char>)
    requires
        !a.contains('\0'),
    ensures
        listed(a, true) == (if a.len() > 0 {
            seq![a]
        } else {
            Seq::empty()
        }),
        listed(a.push('\0') + rest, true) == (if a.len() > 0 {
            seq![a]
        } else {
            Seq::empty()
        }) + listed(rest, true),
{
    lines::law_pieces_from_the_front(a, rest, '\0');
    lemma_nonempty_of_first(a, Seq::empty());
    lemma_nonempty_of_first(a, lines::split(rest, '\0'));
    assert(seq![a] + Seq::<Seq<char>>::empty() =~= seq![a]);
    reveal(Seq::filter);
    assert(nonempty(Seq::empty()) =~= Seq::empty());
}

/// What a listing with one path per line names, from its front: the line in
/// front of `\n` or `\r\n`, as it stands and unless it is empty, and what the
/// rest names.
pub proof fn law_line_listing_from_the_front(a: Seq<char>, rest: Seq<char>)
    requires
        !a.contains('\n'),
    ensures
        listed(a, false) == (if a.len() > 0 {
            seq![a]
        } else {
            Seq::empty()
        }),
        a.len() == 0 || a.last() != '\r' ==> listed(a.push('\n') + rest, false) == (if a.len() > 0 {
            seq![a]
        } else {
            Seq::empty()
        }) + listed(rest, false),
        listed(a + seq!['\r', '\n'] + rest, false) == (if a.len() > 0 {
            seq![a]
        } else {
            Seq::empty()
        }) + listed(rest, false),
{
    lines::law_lines_from_the_front(a, rest);
    lemma_nonempty_of_first(a, Seq::empty());
    lemma_nonempty_of_first(a, lines::lines(rest));
    assert(seq![a] + Seq::<Seq<char>>::empty() =~= seq![a]);
    reveal(Seq::filter);
    assert(nonempty(Seq::empty()) =~= Seq::empty());
    if a.len() == 0 {
        assert(a =~= Seq::empty());
    }
}

proof fn lemma_nonempty_of_first(first: Seq<char>, rest: Seq<Seq<char>>)
    ensures
        nonempty(seq![first] + rest) == (if first.len() > 0 {
            seq![first]
        } else {
            Seq::empty()
        }) + nonempty(rest),
    decreases rest.len(),
{
    reveal(Seq::filter);
    let whole = seq![first] + rest;
    if rest.len() == 0 {
        assert(whole.drop_last() =~= Seq::empty());
        assert(nonempty(whole.drop_last()) =~= Seq::empty());
        assert(nonempty(rest) =~= Seq::empty());
        assert(nonempty(whole) =~= (if first.len() > 0 {
            seq![first]
        } else {
            Seq::empty()
        }) + nonempty(rest));
    } else {
        lemma_nonempty_of_first(first, rest.drop_last());
        assert(whole.drop_last() =~= seq![first] + rest.drop_last());
        assert(nonempty(whole) =~= (if first.len() > 0 {
            seq![first]
        } else {
            Seq::empty()
        }) + nonempty(rest));
    }
}

} // verus!
