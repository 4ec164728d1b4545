//! How many glob patterns fit one set.
//!
//! `globset` looks for the literal starts and ends of patterns with a
//! multi-string automaton whose entries have 31-bit numbers, and it numbers the
//! patterns that need a regular expression in the same way. It panics where the
//! numbers run out, and where a table of the automaton is too large for the
//! address space. The bound here is sure to stay clear of that.
use std::collections::HashMap;

use vstd::prelude::*;

use crate::glob;
use crate::strings;

verus! {

broadcast use vstd::std_specs::hash::group_hash_axioms;

/// The most entries, or patterns, that can be numbered.
pub const AUTOMATON_LIMIT: u64 = 0x7FFF_FFFE;

/// The modulus of fingerprints.
pub const FINGERPRINT_MODULUS: u64 = 0x1_0000_0000;

/// The larger of two numbers.
pub open spec fn larger(a: nat, b: nat) -> nat {
    if a < b {
        b
    } else {
        a
    }
}

/// The smaller of two numbers.
pub open spec fn smaller(a: nat, b: nat) -> nat {
    if a < b {
        a
    } else {
        b
    }
}

/// The bytes of a pattern as UTF-8.
pub open spec fn byte_len(pattern: Seq<char>) -> nat {
    vstd::utf8::encode_utf8(pattern).len()
}

/// The size of a list: the bytes of its patterns, and one more for each of them.
pub open spec fn total_size(patterns: Seq<Seq<char>>) -> nat
    decreases patterns.len(),
{
    if patterns.len() == 0 {
        0
    } else {
        total_size(patterns.drop_last()) + byte_len(patterns.last()) + 1
    }
}

/// The bytes of the longest pattern of a list.
pub open spec fn longest_bytes(patterns: Seq<Seq<char>>) -> nat
    decreases patterns.len(),
{
    if patterns.len() == 0 {
        0
    } else {
        larger(longest_bytes(patterns.drop_last()), byte_len(patterns.last()))
    }
}

/// A number below the modulus that depends only on the characters of a pattern
/// other than `\`, `*` and `/`. Two patterns that the automaton knows by the
/// same string differ in those three at most, so their fingerprints agree.
pub open spec fn fingerprint(pattern: Seq<char>) -> nat
    decreases pattern.len(),
{
    if pattern.len() == 0 {
        0
    } else {
        let front = fingerprint(pattern.drop_last());
        let c = pattern.last();
        if c == '\\' || c == '*' || c == '/' {
            front
        } else {
            (front * 31 + (c as u32) as nat + 1) % (FINGERPRINT_MODULUS as nat)
        }
    }
}

/// The fingerprints of a list of patterns.
pub open spec fn fingerprints(patterns: Seq<Seq<char>>) -> Seq<nat> {
    Seq::new(patterns.len(), |i: int| fingerprint(patterns[i]))
}

/// How often a number occurs in a list.
pub open spec fn occurrences(list: Seq<nat>, n: nat) -> nat
    decreases list.len(),
{
    if list.len() == 0 {
        0
    } else {
        occurrences(list.drop_last(), n) + if list.last() == n {
            1nat
        } else {
            0nat
        }
    }
}

/// How often the most frequent number of a list occurs in it.
pub open spec fn most_repeated(list: Seq<nat>) -> nat
    decreases list.len(),
{
    if list.len() == 0 {
        0
    } else {
        larger(most_repeated(list.drop_last()), occurrences(list, list.last()))
    }
}

/// A bound on the patterns that the automaton lists at one state. It lists
/// those whose string the text of the state ends in: none twice, and for each
/// length at most one string, which a few patterns may share.
pub open spec fn listed_bound(patterns: Seq<Seq<char>>) -> nat {
    smaller(patterns.len(), longest_bytes(patterns) * most_repeated(fingerprints(patterns)))
}

/// A bound on the states of the automaton and on the transitions between them,
/// and on the patterns that it or the regular expressions hold: one state for
/// each byte of the patterns, and a fixed number of entries besides.
pub open spec fn states_bound(patterns: Seq<Seq<char>>) -> nat {
    total_size(patterns) + 1024
}

/// Whether the numbers of an automaton are enough for its states and for the
/// patterns that it lists at them. It also numbers 256 entries at most for each
/// of the states within three bytes of its start; of those there are fewer than
/// 0x40_0000, as patterns are UTF-8, so these numbers are always enough.
pub open spec fn can_be_numbered(patterns: Seq<Seq<char>>) -> bool {
    states_bound(patterns) * (listed_bound(patterns) + 1) <= AUTOMATON_LIMIT
}

/// Whether the tables of an automaton fit the address space. A table has, at
/// each state, an entry for each byte that may follow or for each pattern that
/// is listed, and one entry besides. An entry takes 8 bytes at most, and twice
/// that while the table grows; one table can take half of the address space.
pub open spec fn fits_memory(patterns: Seq<Seq<char>>) -> bool {
    states_bound(patterns) * (listed_bound(patterns) + 257) * 32 <= usize::MAX
}

/// Whether a list of patterns is sure to fit a set. The globs of plain
/// extensions are looked up without an automaton or a regular expression.
pub open spec fn within_limits(patterns: Seq<Seq<char>>) -> bool {
    ||| glob::all_extension_globs(patterns)
    ||| can_be_numbered(patterns) && fits_memory(patterns)
}

proof fn lemma_total_size_prefix(patterns: Seq<Seq<char>>, n: int)
    requires
        0 <= n <= patterns.len(),
    ensures
        total_size(patterns.take(n)) <= total_size(patterns),
    decreases patterns.len(),
{
    if n < patterns.len() {
        lemma_total_size_prefix(patterns.drop_last(), n);
        assert(patterns.drop_last().take(n) =~= patterns.take(n));
    } else {
        assert(patterns.take(n) =~= patterns);
    }
}

proof fn lemma_longest_within_total(patterns: Seq<Seq<char>>)
    ensures
        longest_bytes(patterns) <= total_size(patterns),
    decreases patterns.len(),
{
    if patterns.len() > 0 {
        lemma_longest_within_total(patterns.drop_last());
    }
}

proof fn lemma_occurrences_bound(list: Seq<nat>, n: nat)
    ensures
        occurrences(list, n) <= list.len(),
    decreases list.len(),
{
    if list.len() > 0 {
        lemma_occurrences_bound(list.drop_last(), n);
    }
}

proof fn lemma_most_repeated_bound(list: Seq<nat>)
    ensures
        most_repeated(list) <= list.len(),
    decreases list.len(),
{
    if list.len() > 0 {
        lemma_most_repeated_bound(list.drop_last());
        lemma_occurrences_bound(list, list.last());
    }
}

/// Tells whether glob syntax gives a character no meaning of its own.
fn plain_char(c: char) -> (plain: bool)
    ensures
        plain == glob::is_plain_char(c),
{
    c != '*' && c != '?' && c != '[' && c != ']' && c != '{' && c != '}' && c != ',' && c != '\\'
        && c != '/' && c != '.'
}

/// Tells whether a pattern is the glob of a plain extension.
pub fn is_extension_pattern(pattern: &str) -> (result: bool)
    ensures
        result == glob::is_some_extension_glob(pattern@),
{
    let len: usize = pattern.unicode_len();
    let ghost short = seq!['*', '.'];
    let ghost long = seq!['*', '*', '/', '*', '.'];
    let start: usize = if len > 2 && pattern.get_char(0) == '*' && pattern.get_char(1) == '.' {
        2
    } else if len > 5 && pattern.get_char(0) == '*' && pattern.get_char(1) == '*'
        && pattern.get_char(2) == '/' && pattern.get_char(3) == '*' && pattern.get_char(4) == '.' {
        5
    } else {
        proof {
            assert forall|ext: Seq<char>| !glob::is_extension_glob(pattern@, ext) by {
                if glob::is_extension_glob(pattern@, ext) {
                    if pattern@ == short + ext {
                        assert((short + ext)[0] == '*' && (short + ext)[1] == '.');
                    } else {
                        let whole = long + ext;
                        assert(whole[0] == '*' && whole[1] == '*' && whole[2] == '/' && whole[3]
                            == '*' && whole[4] == '.');
                    }
                }
            }
        }
        return false;
    };
    let ghost rest = pattern@.skip(start as int);
    let ghost front = if start == 2 {
        short
    } else {
        long
    };
    proof {
        assert(pattern@ =~= front + rest);
        assert forall|ext: Seq<char>| glob::is_extension_glob(pattern@, ext) implies ext
            == rest by {
            assert((short + ext)[1] == '.');
            assert((long + ext)[1] == '*');
            assert(ext =~= (front + ext).skip(start as int));
        }
    }
    let mut i: usize = 0;
    for c in it: pattern.chars()
        invariant
            it.seq() == pattern@,
            i == it.index(),
            len == pattern@.len(),
            2 <= start < len,
            rest == pattern@.skip(start as int),
            forall|ext: Seq<char>|
                #[trigger] glob::is_extension_glob(pattern@, ext) ==> ext == rest,
            forall|j: int| start <= j < i ==> glob::is_plain_char(#[trigger] pattern@[j]),
    {
        if i >= start && !plain_char(c) {
            proof {
                assert(rest[i - start] == c);
                assert(!glob::is_plain_extension(rest));
            }
            return false;
        }
        i += 1;
    }
    assert(glob::is_plain_extension(rest));
    assert(glob::is_extension_glob(pattern@, rest));
    true
}

/// Tells whether every pattern of a list is the glob of a plain extension.
fn all_extension_patterns(patterns: &[String]) -> (result: bool)
    ensures
        result == glob::all_extension_globs(strings::texts(patterns@)),
{
    let mut i: usize = 0;
    while i < patterns.len()
        invariant
            i <= patterns@.len(),
            forall|j: int|
                0 <= j < i ==> glob::is_some_extension_glob(
                    #[trigger] strings::texts(patterns@)[j],
                ),
        decreases patterns@.len() - i,
    {
        assert(strings::texts(patterns@)[i as int] == patterns@[i as int]@);
        if !is_extension_pattern(patterns[i].as_str()) {
            return false;
        }
        i += 1;
    }
    true
}

/// Computes the fingerprint of a pattern.
fn fingerprint_of(pattern: &str) -> (print: u64)
    ensures
        print == fingerprint(pattern@),
        print < FINGERPRINT_MODULUS,
{
    let mut print: u64 = 0;
    assert(pattern@.take(0) =~= Seq::empty());
    for c in it: pattern.chars()
        invariant
            it.seq() == pattern@,
            print == fingerprint(pattern@.take(it.index() as int)),
            print < FINGERPRINT_MODULUS,
    {
        proof {
            let after = pattern@.take(it.index() + 1);
            assert(after.drop_last() =~= pattern@.take(it.index() as int));
            assert(after.last() == c);
        }
        if !(c == '\\' || c == '*' || c == '/') {
            let code: u32 = c as u32;
            print = (print * 31 + code as u64 + 1) % FINGERPRINT_MODULUS;
        }
    }
    assert(pattern@.take(pattern@.len() as int) =~= pattern@);
    print
}

/// Counts how often the most frequent fingerprint of a list occurs.
fn count_most_repeated(patterns: &[String]) -> (most: u64)
    ensures
        most == most_repeated(fingerprints(strings::texts(patterns@))),
{
    let ghost all = fingerprints(strings::texts(patterns@));
    let mut counts: HashMap<u64, u64> = HashMap::new();
    let mut most: u64 = 0;
    let mut i: usize = 0;
    while i < patterns.len()
        invariant
            i <= patterns@.len(),
            all == fingerprints(strings::texts(patterns@)),
            most == most_repeated(all.take(i as int)),
            forall|n: u64|
                #![trigger counts@.dom().contains(n)]
                occurrences(all.take(i as int), n as nat) == if counts@.dom().contains(n) {
                    counts@[n] as nat
                } else {
                    0
                },
        decreases patterns@.len() - i,
    {
        let print = fingerprint_of(patterns[i].as_str());
        let ghost before = all.take(i as int);
        let ghost after = all.take(i + 1);
        proof {
            assert(all[i as int] == print);
            assert(after.drop_last() =~= before);
            assert(after.last() == print);
            lemma_occurrences_bound(before, print as nat);
            assert(counts@.dom().contains(print) || !counts@.dom().contains(print));
        }
        let seen: u64 = match counts.get(&print) {
            Some(count) => *count,
            None => 0,
        };
        let now: u64 = seen + 1;
        counts.insert(print, now);
        if most < now {
            most = now;
        }
        i += 1;
    }
    assert(all.take(all.len() as int) =~= all);
    most
}

/// Tells whether a list of patterns is sure to fit a set.
pub fn fits_limits(patterns: &[String]) -> (fits: bool)
    ensures
        fits == within_limits(strings::texts(patterns@)),
{
    let ghost all = strings::texts(patterns@);
    if all_extension_patterns(patterns) {
        return true;
    }
    let count: usize = patterns.len();
    let mut total: u64 = 0;
    let mut longest: u64 = 0;
    let mut i: usize = 0;
    assert(all.take(0) =~= Seq::empty());
    while i < count
        invariant
            i <= count,
            count == patterns@.len(),
            all == strings::texts(patterns@),
            !glob::all_extension_globs(all),
            total == total_size(all.take(i as int)),
            longest == longest_bytes(all.take(i as int)),
            total <= AUTOMATON_LIMIT,
        decreases count - i,
    {
        let size: usize = patterns[i].as_str().as_bytes().len();
        proof {
            assert(all.take(i + 1).drop_last() =~= all.take(i as int));
            assert(all.take(i + 1).last() == patterns@[i as int]@);
            lemma_total_size_prefix(all, i + 1);
        }
        if size as u64 >= AUTOMATON_LIMIT - total {
            assert((total_size(all) + 1024) * (listed_bound(all) + 1) > AUTOMATON_LIMIT)
                by (nonlinear_arith)
                requires
                    total_size(all) > AUTOMATON_LIMIT,
            ;
            return false;
        }
        total = total + size as u64 + 1;
        if longest < size as u64 {
            longest = size as u64;
        }
        i += 1;
    }
    assert(all.take(count as int) =~= all);
    let most = count_most_repeated(patterns);
    proof {
        lemma_longest_within_total(all);
        lemma_most_repeated_bound(fingerprints(all));
        assert(longest * most <= 0x7FFF_FFFE * 0xFFFF_FFFF_FFFF_FFFF) by (nonlinear_arith)
            requires
                longest <= 0x7FFF_FFFE,
                most <= 0xFFFF_FFFF_FFFF_FFFF,
        ;
    }
    let product: u128 = longest as u128 * most as u128;
    let listed: u128 = if (count as u128) < product {
        count as u128
    } else {
        product
    };
    assert(listed == listed_bound(all));
    let states: u128 = total as u128 + 1024;
    assert(states * (listed + 257) <= 0x8000_03FE * 0x1_0000_0000_0000_0100) by (nonlinear_arith)
        requires
            states <= 0x8000_03FE,
            listed <= 0xFFFF_FFFF_FFFF_FFFF,
    ;
    assert(states * (listed + 1) <= states * (listed + 257)) by (nonlinear_arith);
    states * (listed + 1) <= AUTOMATON_LIMIT as u128 && states * (listed + 257) * 32
        <= usize::MAX as u128
}

/// A list of at most `n` patterns of at most `m` bytes each is within the limits
/// where these numbers are small enough for the machine.
pub proof fn law_bounded_lists_fit(patterns: Seq<Seq<char>>, n: nat, m: nat)
    requires
        patterns.len() <= n,
        forall|i: int|
            0 <= i < patterns.len() ==> vstd::utf8::encode_utf8(#[trigger] patterns[i]).len() <= m,
        (n * (m + 1) + 1024) * (n + 1) <= 0x7FFF_FFFE,
        (n * (m + 1) + 1024) * (n + 257) * 32 <= usize::MAX,
    ensures
        within_limits(patterns),
{
    lemma_total_size_bound(patterns, m);
    let states = states_bound(patterns);
    let listed = listed_bound(patterns);
    let most = n * (m + 1) + 1024;
    assert(patterns.len() * (m + 1) <= n * (m + 1)) by (nonlinear_arith)
        requires
            patterns.len() <= n,
    ;
    assert(states * (listed + 1) <= most * (n + 1)) by (nonlinear_arith)
        requires
            states <= most,
            listed <= n,
    ;
    assert(states * (listed + 257) <= most * (n + 257)) by (nonlinear_arith)
        requires
            states <= most,
            listed <= n,
    ;
}

proof fn lemma_total_size_bound(patterns: Seq<Seq<char>>, m: nat)
    requires
        forall|i: int|
            0 <= i < patterns.len() ==> vstd::utf8::encode_utf8(#[trigger] patterns[i]).len() <= m,
    ensures
        total_size(patterns) <= patterns.len() * (m + 1),
    decreases patterns.len(),
{
    if patterns.len() > 0 {
        let front = patterns.drop_last();
        assert forall|i: int| 0 <= i < front.len() implies vstd::utf8::encode_utf8(
            #[trigger] front[i],
        ).len() <= m by {
            assert(front[i] == patterns[i]);
        }
        lemma_total_size_bound(front, m);
        assert(vstd::utf8::encode_utf8(patterns[patterns.len() - 1]).len() <= m);
        assert(patterns.len() * (m + 1) == front.len() * (m + 1) + (m + 1)) by (nonlinear_arith)
            requires
                patterns.len() == front.len() + 1,
        ;
    }
}

/// A list within the limits has no more patterns, and no longer ones, than can
/// be numbered, unless all of it are globs of plain extensions; and such a list
/// is always within them.
pub proof fn law_limits_bound_lists(patterns: Seq<Seq<char>>, i: int)
    requires
        0 <= i < patterns.len(),
    ensures
        glob::all_extension_globs(patterns) ==> within_limits(patterns),
        within_limits(patterns) && !glob::all_extension_globs(patterns) ==> patterns.len()
            < 0x7FFF_FFFE && vstd::utf8::encode_utf8(patterns[i]).len() < 0x7FFF_FFFE,
{
    lemma_total_size_covers(patterns, i);
    let states = states_bound(patterns);
    let listed = listed_bound(patterns);
    assert(states <= states * (listed + 1)) by (nonlinear_arith)
        requires
            states >= 0,
            listed >= 0,
    ;
}

proof fn lemma_total_size_covers(patterns: Seq<Seq<char>>, i: int)
    requires
        0 <= i < patterns.len(),
    ensures
        patterns.len() <= total_size(patterns),
        vstd::utf8::encode_utf8(patterns[i]).len() < total_size(patterns),
    decreases patterns.len(),
{
    let front = patterns.drop_last();
    if front.len() > 0 {
        lemma_total_size_covers(
            front,
            if i < front.len() {
                i
            } else {
                0
            },
        );
    }
}

} // verus!
