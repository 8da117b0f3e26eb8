//! Edit distance between two strings, and the laws it obeys.

use vstd::prelude::*;

verus! {

/// What replacing `x` by `y` costs: nothing when they are the same character.
pub open spec fn substitution_cost(x: char, y: char) -> nat {
    if x == y {
        0
    } else {
        1
    }
}

/// The least of three counts.
pub open spec fn least_of(x: nat, y: nat, z: nat) -> nat {
    if x <= y && x <= z {
        x
    } else if y <= z {
        y
    } else {
        z
    }
}

/// The Levenshtein distance: the least number of single-character
/// insertions, deletions and substitutions that turn `a` into `b`.
///
/// An empty string is as far from the other as the other is long. Otherwise
/// the last edit either deletes the last character of `a`, inserts the last
/// character of `b`, or puts the last character of `b` in place of that of
/// `a`, and the distance is the cheapest of the three.
pub open spec fn edit_distance(a: Seq<char>, b: Seq<char>) -> nat
    decreases a.len() + b.len(),
{
    if a.len() == 0 {
        b.len()
    } else if b.len() == 0 {
        a.len()
    } else {
        least_of(
            edit_distance(a.drop_last(), b) + 1,
            edit_distance(a, b.drop_last()) + 1,
            edit_distance(a.drop_last(), b.drop_last()) + substitution_cost(a.last(), b.last()),
        )
    }
}

/// `strsim::levenshtein`, which walks both strings by `char` and fills one
/// row of the edit-distance table at a time. Trusted: the number it returns
/// is the Levenshtein distance between the two strings.
pub assume_specification[ strsim::levenshtein ](a: &str, b: &str) -> (d: usize)
    ensures
        d == edit_distance(a@, b@),
;

/// The edit distance between `a` and `b`, counted in characters.
pub fn distance(a: &str, b: &str) -> (d: usize)
    ensures
        d == edit_distance(a@, b@),
{
    strsim::levenshtein(a, b)
}

/// Every string is at distance zero from itself.
pub proof fn lemma_distance_to_self(s: Seq<char>)
    ensures
        edit_distance(s, s) == 0,
{
    lemma_distance_zero_iff_same(s, s);
}

/// The distance does not depend on the direction: turning `a` into `b`
/// takes as many edits as turning `b` into `a`.
pub proof fn lemma_distance_symmetric(a: Seq<char>, b: Seq<char>)
    ensures
        edit_distance(a, b) == edit_distance(b, a),
    decreases a.len() + b.len(),
{
    if a.len() > 0 && b.len() > 0 {
        lemma_distance_symmetric(a.drop_last(), b);
        lemma_distance_symmetric(a, b.drop_last());
        lemma_distance_symmetric(a.drop_last(), b.drop_last());
    }
}

/// The empty string is as far from a string as that string is long.
pub proof fn lemma_distance_from_empty(s: Seq<char>)
    ensures
        edit_distance(Seq::<char>::empty(), s) == s.len(),
        edit_distance(s, Seq::<char>::empty()) == s.len(),
{
}

/// The distance never exceeds the length of the longer string.
pub proof fn lemma_distance_at_most_longer(a: Seq<char>, b: Seq<char>)
    ensures
        edit_distance(a, b) <= a.len() || edit_distance(a, b) <= b.len(),
    decreases a.len() + b.len(),
{
    if a.len() > 0 && b.len() > 0 {
        lemma_distance_at_most_longer(a.drop_last(), b.drop_last());
    }
}

/// The distance is at least the difference of the two lengths.
pub proof fn lemma_distance_at_least_length_gap(a: Seq<char>, b: Seq<char>)
    ensures
        a.len() - b.len() <= edit_distance(a, b),
        b.len() - a.len() <= edit_distance(a, b),
    decreases a.len() + b.len(),
{
    if a.len() > 0 && b.len() > 0 {
        lemma_distance_at_least_length_gap(a.drop_last(), b);
        lemma_distance_at_least_length_gap(a, b.drop_last());
        lemma_distance_at_least_length_gap(a.drop_last(), b.drop_last());
    }
}

/// The triangle inequality: going from `a` to `c` directly takes no more
/// edits than going by way of `b`.
pub proof fn lemma_distance_triangle(a: Seq<char>, b: Seq<char>, c: Seq<char>)
    ensures
        edit_distance(a, c) <= edit_distance(a, b) + edit_distance(b, c),
    decreases a.len() + b.len() + c.len(),
{
    if b.len() == 0 {
        lemma_distance_at_most_longer(a, c);
    } else if a.len() == 0 {
        lemma_distance_at_least_length_gap(b, c);
    } else if c.len() == 0 {
        lemma_distance_at_least_length_gap(a, b);
    } else {
        let shorter_a = a.drop_last();
        let shorter_b = b.drop_last();
        let shorter_c = c.drop_last();
        lemma_distance_triangle(shorter_a, b, c);
        lemma_distance_triangle(a, b, shorter_c);
        lemma_distance_triangle(a, shorter_b, c);
        lemma_distance_triangle(a, shorter_b, shorter_c);
        lemma_distance_triangle(shorter_a, shorter_b, c);
        lemma_distance_triangle(shorter_a, shorter_b, shorter_c);
    }
}

/// Two strings are at distance zero exactly when they are the same string.
pub proof fn lemma_distance_zero_iff_same(a: Seq<char>, b: Seq<char>)
    ensures
        edit_distance(a, b) == 0 <==> a == b,
    decreases a.len() + b.len(),
{
    if a.len() == 0 || b.len() == 0 {
        assert(a.len() == 0 && b.len() == 0 ==> a =~= b);
    } else {
        lemma_distance_zero_iff_same(a.drop_last(), b.drop_last());
        if a.drop_last() == b.drop_last() && a.last() == b.last() {
            assert(a =~= a.drop_last().push(a.last()));
            assert(b =~= b.drop_last().push(b.last()));
        }
    }
}

} // verus!
