//! Small helpers on characters and character sequences.

use vstd::prelude::*;

verus! {

/// The ASCII lower-case form of a character; characters outside `A..=Z`
/// stand for themselves.
pub open spec fn lower_char(c: char) -> char {
    if 'A' <= c && c <= 'Z' {
        ((c as u8) + 32u8) as char
    } else {
        c
    }
}

/// A sequence with every character replaced by its ASCII lower-case form.
pub open spec fn ascii_lowercase(s: Seq<char>) -> Seq<char> {
    Seq::new(s.len(), |i: int| lower_char(s[i]))
}

/// Whether `s` holds the character `c`.
pub open spec fn has_char(s: Seq<char>, c: char) -> bool {
    exists|i: int| 0 <= i < s.len() && s[i] == c
}

/// Lower-cases one character.
pub fn to_lower(c: char) -> (r: char)
    ensures
        r == lower_char(c),
{
    if 'A' <= c && c <= 'Z' {
        ((c as u8) + 32u8) as char
    } else {
        c
    }
}

/// The characters of a string slice, in order.
pub fn to_chars(s: &str) -> (v: Vec<char>)
    ensures
        v@ == s@,
{
    let mut v: Vec<char> = Vec::new();
    let chars = s.chars();
    for c in it: chars
        invariant
            it.seq() == s@,
            v@ == s@.take(it.index()),
    {
        v.push(c);
    }
    assert(s@.take(s@.len() as int) == s@);
    v
}

/// The characters of a string slice, each in ASCII lower case.
pub fn to_lower_chars(s: &str) -> (v: Vec<char>)
    ensures
        v@ == ascii_lowercase(s@),
{
    let mut v: Vec<char> = Vec::new();
    let chars = s.chars();
    for c in it: chars
        invariant
            it.seq() == s@,
            v@ == ascii_lowercase(s@).take(it.index()),
    {
        v.push(to_lower(c));
        assert(v@ == ascii_lowercase(s@).take(it.index() + 1));
    }
    assert(ascii_lowercase(s@).take(s@.len() as int) == ascii_lowercase(s@));
    v
}

/// Whether a slice of characters spells exactly the given string.
pub fn chars_equal(v: &[char], s: &str) -> (r: bool)
    ensures
        r == (v@ == s@),
{
    let mut i: usize = 0;
    let chars = s.chars();
    for c in it: chars
        invariant
            it.seq() == s@,
            i == it.index(),
            i <= v@.len(),
            v@.take(i as int) == s@.take(i as int),
    {
        if i >= v.len() {
            assert(s@.len() > v@.len());
            return false;
        }
        if v[i] != c {
            assert(v@[i as int] != s@[i as int]);
            return false;
        }
        assert(v@.take(i + 1) == v@.take(i as int).push(v@[i as int]));
        assert(s@.take(i + 1) == s@.take(i as int).push(s@[i as int]));
        i += 1;
    }
    assert(s@.take(s@.len() as int) == s@);
    if i == v.len() {
        assert(v@.take(v@.len() as int) == v@);
        true
    } else {
        false
    }
}

/// Whether `a` comes before `b`, or is `b`, in the order of the dictionary
/// from position `i` on. Characters are ordered by their code points.
pub open spec fn ordered_from(a: Seq<char>, b: Seq<char>, i: int) -> bool
    decreases a.len() - i,
{
    if i >= a.len() {
        true
    } else if i >= b.len() {
        false
    } else if a[i] != b[i] {
        a[i] < b[i]
    } else {
        ordered_from(a, b, i + 1)
    }
}

/// Whether `a` comes before `b`, or is `b`, in the order of the dictionary.
pub open spec fn ordered(a: Seq<char>, b: Seq<char>) -> bool {
    ordered_from(a, b, 0)
}

/// Every text is ordered with itself.
pub proof fn lemma_ordered_reflexive(a: Seq<char>, i: int)
    requires
        0 <= i,
    ensures
        ordered_from(a, a, i),
    decreases a.len() - i,
{
    if i < a.len() {
        lemma_ordered_reflexive(a, i + 1);
    }
}

/// Of two texts one is ordered before the other.
pub proof fn lemma_ordered_total(a: Seq<char>, b: Seq<char>, i: int)
    requires
        0 <= i,
    ensures
        ordered_from(a, b, i) || ordered_from(b, a, i),
    decreases a.len() - i,
{
    if i < a.len() && i < b.len() && a[i] == b[i] {
        lemma_ordered_total(a, b, i + 1);
    }
}

/// The order is transitive.
pub proof fn lemma_ordered_transitive(a: Seq<char>, b: Seq<char>, c: Seq<char>, i: int)
    requires
        0 <= i,
        ordered_from(a, b, i),
        ordered_from(b, c, i),
    ensures
        ordered_from(a, c, i),
    decreases a.len() - i,
{
    if i < a.len() && a[i] == b[i] && b[i] == c[i] {
        lemma_ordered_transitive(a, b, c, i + 1);
    }
}

/// Two texts that are ordered both ways are the same.
pub proof fn lemma_ordered_antisymmetric(a: Seq<char>, b: Seq<char>, i: int)
    requires
        0 <= i <= a.len(),
        i <= b.len(),
        ordered_from(a, b, i),
        ordered_from(b, a, i),
    ensures
        a.len() == b.len(),
        forall|j: int| i <= j < a.len() ==> a[j] == b[j],
    decreases a.len() - i,
{
    if i < a.len() {
        lemma_ordered_antisymmetric(a, b, i + 1);
    }
}

} // verus!
