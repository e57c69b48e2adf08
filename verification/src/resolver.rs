//! The order in which candidates are handled, and the check of a pattern.

use vstd::prelude::*;
use vstd::seq_lib::seq_to_set_is_finite;
use vstd::string::StrSliceExecFns;
use vstd::set_lib::{lemma_int_range, lemma_subset_equality, set_int_range};

use crate::error::{Error, ErrorKind, ErrorView};
use crate::paths::{file_name, is_separator, CandidatePath};
use crate::text::{
    lemma_ordered_antisymmetric, lemma_ordered_reflexive, lemma_ordered_total,
    lemma_ordered_transitive, ordered, ordered_from, to_chars,
};

verus! {

/// The text of the error that `glob::Pattern::new` gives for `pattern`, or
/// `None` where it compiles the pattern.
pub uninterp spec fn pattern_fault(pattern: Seq<char>) -> Option<Seq<char>>;

/// Compiles `pattern` with `glob::Pattern::new`, drops the compiled pattern
/// and keeps the text of the error, if there is one. The contract gives the
/// answer its name and claims nothing else of it: whether a pattern compiles
/// depends on its characters alone.
#[verifier::external_body]
fn compile_fault(pattern: &str) -> (r: Option<String>)
    ensures
        r.deep_view() == pattern_fault(pattern@),
{
    match glob::Pattern::new(pattern) {
        Ok(_) => None,
        Err(e) => Some(e.to_string()),
    }
}

/// Turns what compiling a pattern gave into the result of the check: a
/// fault is an `InvalidPattern` error that carries its text.
pub fn pattern_result(fault: Option<String>) -> (r: Result<(), Error>)
    ensures
        r is Ok <==> fault is None,
        r matches Err(e) ==> e@ == (ErrorView {
            kind: ErrorKind::InvalidPattern,
            message: fault->0@,
        }),
{
    match fault {
        Some(text) => Err(Error::new(ErrorKind::InvalidPattern, text)),
        None => Ok(()),
    }
}

/// The first fault among the pieces of `p` that separators cut off, from
/// the piece that starts at `start` on, where the pieces up to `i` hold no
/// separator. An empty piece at the very end is no piece.
pub open spec fn component_fault(p: Seq<char>, start: int, i: int) -> Option<Seq<char>>
    decreases p.len() - i,
{
    if i >= p.len() {
        if start < p.len() {
            pattern_fault(p.subrange(start, p.len() as int))
        } else {
            None
        }
    } else if is_separator(p[i]) {
        match pattern_fault(p.subrange(start, i)) {
            Some(text) => Some(text),
            None => component_fault(p, i + 1, i + 1),
        }
    } else {
        component_fault(p, start, i + 1)
    }
}

/// The fault of a pattern as a walk of the file system finds it: that of the
/// pattern as a whole or, where that compiles, the first fault of a piece
/// between separators. A separator at the very start stands for the root
/// and begins no piece.
pub open spec fn spec_pattern_fault(p: Seq<char>) -> Option<Seq<char>> {
    match pattern_fault(p) {
        Some(text) => Some(text),
        None => {
            let begin: int = if p.len() > 0 && is_separator(p[0]) {
                1
            } else {
                0
            };
            component_fault(p, begin, begin)
        },
    }
}

/// Compiles the pattern as a whole and then piece by piece.
fn find_fault(pattern: &str) -> (r: Option<String>)
    ensures
        r.deep_view() == spec_pattern_fault(pattern@),
{
    match compile_fault(pattern) {
        Some(text) => {
            return Some(text);
        },
        None => {},
    }
    let chars = to_chars(pattern);
    let n = chars.len();
    let begin: usize = if n > 0 && chars[0] == '/' {
        1
    } else {
        0
    };
    let mut start: usize = begin;
    let mut i: usize = begin;
    while i < n
        invariant
            start <= i <= n,
            n == chars.len(),
            chars@ == pattern@,
            spec_pattern_fault(pattern@) == component_fault(pattern@, start as int, i as int),
        decreases n - i,
    {
        if chars[i] == '/' {
            let piece = pattern.substring_char(start, i);
            match compile_fault(piece) {
                Some(text) => {
                    return Some(text);
                },
                None => {},
            }
            start = i + 1;
        }
        i += 1;
    }
    if start < n {
        compile_fault(pattern.substring_char(start, n))
    } else {
        None
    }
}

/// Checks the syntax of a glob pattern, before anything is looked up with
/// it: the pattern is well formed if it compiles as a whole and in each of
/// its pieces between separators.
pub fn check_pattern(pattern: &str) -> (r: Result<(), Error>)
    ensures
        r is Ok <==> spec_pattern_fault(pattern@) is None,
        r matches Err(e) ==> e@ == (ErrorView {
            kind: ErrorKind::InvalidPattern,
            message: spec_pattern_fault(pattern@)->0,
        }),
{
    pattern_result(find_fault(pattern))
}

/// The file name of a candidate: the key that candidates are ordered by.
pub open spec fn name_of(c: CandidatePath) -> Seq<char> {
    file_name(c@.path)
}

/// Whether the candidates stand in ascending order of their file names.
pub open spec fn sorted_by_name(s: Seq<CandidatePath>) -> bool {
    forall|i: int, j: int| 0 <= i <= j < s.len() ==> ordered(name_of(s[i]), name_of(s[j]))
}

/// Whether `after` holds the items of `before` in another order, the item
/// at place `i` of `after` being the one at place `from[i]` of `before`.
pub open spec fn rearranges(
    from: Seq<int>,
    before: Seq<CandidatePath>,
    after: Seq<CandidatePath>,
) -> bool {
    &&& from.len() == before.len()
    &&& after.len() == before.len()
    &&& forall|i: int| 0 <= i < from.len() ==> 0 <= #[trigger] from[i] < before.len()
    &&& forall|i: int, j: int|
        0 <= i < j < from.len() ==> #[trigger] from[i] != #[trigger] from[j]
    &&& forall|i: int| 0 <= i < from.len() ==> #[trigger] after[i] == before[from[i]]
}

/// Whether candidates of the same file name stand in `after` in the order
/// in which they stood before.
pub open spec fn keeps_ties(from: Seq<int>, after: Seq<CandidatePath>) -> bool {
    forall|i: int, j: int|
        0 <= i < j < after.len() && name_of(after[i]) == name_of(after[j]) ==> #[trigger] from[i]
            < #[trigger] from[j]
}

/// Whether `after` is `before` sorted by file name, ties left as they were.
pub open spec fn is_stable_sort(before: Seq<CandidatePath>, after: Seq<CandidatePath>) -> bool {
    &&& sorted_by_name(after)
    &&& exists|from: Seq<int>|
        #[trigger] rearranges(from, before, after) && keeps_ties(from, after)
}

/// Whether the file name of `a` is ordered before that of `b`, or is the same.
fn name_ordered(a: &CandidatePath, b: &CandidatePath) -> (r: bool)
    ensures
        r == ordered(name_of(*a), name_of(*b)),
{
    let x = a.name_chars();
    let y = b.name_chars();
    let mut i: usize = 0;
    while i < x.len()
        invariant
            i <= x.len(),
            x@ == name_of(*a),
            y@ == name_of(*b),
            ordered(x@, y@) == ordered_from(x@, y@, i as int),
        decreases x.len() - i,
    {
        if i >= y.len() {
            return false;
        }
        if x[i] != y[i] {
            return x[i] < y[i];
        }
        i += 1;
    }
    true
}

/// Whether the candidates stand in descending order of their file names,
/// those of the same file name in the reverse of the order given by `from`.
spec fn descending(from: Seq<int>, s: Seq<CandidatePath>) -> bool {
    &&& forall|i: int, j: int|
        0 <= i <= j < s.len() ==> ordered(name_of(s[j]), name_of(s[i]))
    &&& forall|i: int, j: int|
        0 <= i < j < s.len() && name_of(s[i]) == name_of(s[j]) ==> #[trigger] from[i]
            > #[trigger] from[j]
}

/// Puts the candidates in the order in which they are handled: ascending by
/// file name, not by full path. Candidates of the same file name keep the
/// order in which they came.
pub fn sort_by_file_name(paths: Vec<CandidatePath>) -> (sorted: Vec<CandidatePath>)
    ensures
        is_stable_sort(paths@, sorted@),
{
    let ghost before = paths@;
    let mut rest = paths;
    // The candidates taken so far, last first, so that what comes in order
    // is added at the end.
    let mut taken: Vec<CandidatePath> = Vec::new();
    let ghost mut from: Seq<int> = Seq::empty();
    while rest.len() > 0
        invariant
            rest@ == before.take(rest.len() as int),
            rest.len() <= before.len(),
            taken.len() == before.len() - rest.len(),
            from.len() == taken.len(),
            descending(from, taken@),
            forall|i: int| 0 <= i < from.len() ==> rest.len() <= #[trigger] from[i] < before.len(),
            forall|i: int, j: int|
                0 <= i < j < from.len() ==> #[trigger] from[i] != #[trigger] from[j],
            forall|i: int| 0 <= i < from.len() ==> #[trigger] taken@[i] == before[from[i]],
        decreases rest.len(),
    {
        let ghost place = rest.len() - 1;
        let item = rest.pop().unwrap();
        assert(item == before[place]);
        let mut at: usize = taken.len();
        while at > 0 && !name_ordered(&item, &taken[at - 1])
            invariant
                at <= taken.len(),
                forall|k: int|
                    at <= k < taken.len() ==> !ordered(
                        name_of(item),
                        name_of(#[trigger] taken@[k]),
                    ),
            decreases at,
        {
            at -= 1;
        }
        let ghost old_taken = taken@;
        let ghost old_from = from;
        taken.insert(at, item);
        proof {
            from = old_from.insert(at as int, place);
            let new_taken = taken@;
            let x = name_of(item);
            assert(new_taken == old_taken.insert(at as int, item));
            assert forall|i: int, j: int| 0 <= i <= j < new_taken.len() implies ordered(
                name_of(new_taken[j]),
                name_of(new_taken[i]),
            ) by {
                let a = name_of(new_taken[i]);
                let b = name_of(new_taken[j]);
                if i == j {
                    lemma_ordered_reflexive(a, 0);
                } else if i == at {
                    assert(new_taken[j] == old_taken[j - 1]);
                    lemma_ordered_total(x, b, 0);
                } else if j == at {
                    assert(new_taken[i] == old_taken[i]);
                    let pivot = name_of(old_taken[at - 1]);
                    assert(ordered(x, pivot));
                    assert(ordered(pivot, a));
                    lemma_ordered_transitive(x, pivot, a, 0);
                } else {
                    let i0 = if i < at { i } else { i - 1 };
                    let j0 = if j < at { j } else { j - 1 };
                    assert(new_taken[i] == old_taken[i0]);
                    assert(new_taken[j] == old_taken[j0]);
                }
            }
            assert forall|i: int, j: int|
                0 <= i < j < new_taken.len() && name_of(new_taken[i]) == name_of(
                    new_taken[j],
                ) implies #[trigger] from[i] > #[trigger] from[j] by {
                if i == at {
                    assert(new_taken[j] == old_taken[j - 1]);
                    lemma_ordered_reflexive(x, 0);
                } else if j == at {
                    assert(from[i] == old_from[i]);
                } else {
                    let i0 = if i < at { i } else { i - 1 };
                    let j0 = if j < at { j } else { j - 1 };
                    assert(new_taken[i] == old_taken[i0]);
                    assert(new_taken[j] == old_taken[j0]);
                    assert(from[i] == old_from[i0]);
                    assert(from[j] == old_from[j0]);
                }
            }
            assert forall|i: int| 0 <= i < from.len() implies rest.len() <= #[trigger] from[i]
                < before.len() && taken@[i] == before[from[i]] by {
                if i != at {
                    let i0 = if i < at { i } else { i - 1 };
                    assert(from[i] == old_from[i0]);
                    assert(new_taken[i] == old_taken[i0]);
                }
            }
            assert forall|i: int, j: int| 0 <= i < j < from.len() implies #[trigger] from[i]
                != #[trigger] from[j] by {
                let i0 = if i < at { i } else { i - 1 };
                let j0 = if j < at { j } else { j - 1 };
                if i != at {
                    assert(from[i] == old_from[i0]);
                }
                if j != at {
                    assert(from[j] == old_from[j0]);
                }
            }
        }
    }
    let ghost all = taken@;
    let ghost n = all.len() as int;
    let mut sorted: Vec<CandidatePath> = Vec::new();
    while taken.len() > 0
        invariant
            n == all.len(),
            taken@ == all.take(taken.len() as int),
            taken.len() <= n,
            sorted.len() == n - taken.len(),
            forall|i: int| 0 <= i < sorted.len() ==> #[trigger] sorted@[i] == all[n - 1 - i],
        decreases taken.len(),
    {
        let item = taken.pop().unwrap();
        sorted.push(item);
    }
    proof {
        let back = Seq::new(n as nat, |i: int| from[n - 1 - i]);
        assert(rearranges(back, before, sorted@));
        assert(keeps_ties(back, sorted@)) by {
            assert forall|i: int, j: int|
                0 <= i < j < sorted@.len() && name_of(sorted@[i]) == name_of(
                    sorted@[j],
                ) implies #[trigger] back[i] < #[trigger] back[j] by {
                assert(sorted@[i] == all[n - 1 - i]);
                assert(sorted@[j] == all[n - 1 - j]);
            }
        }
        assert(sorted_by_name(sorted@)) by {
            assert forall|i: int, j: int| 0 <= i <= j < sorted@.len() implies ordered(
                name_of(sorted@[i]),
                name_of(sorted@[j]),
            ) by {
                assert(sorted@[i] == all[n - 1 - i]);
                assert(sorted@[j] == all[n - 1 - j]);
            }
        }
    }
    sorted
}

/// A rearrangement names every place: an order of `n` places without
/// repetition leaves none out.
proof fn lemma_rearrangement_is_onto(from: Seq<int>, n: int, k: int)
    requires
        from.len() == n,
        forall|i: int| 0 <= i < n ==> 0 <= #[trigger] from[i] < n,
        forall|i: int, j: int| 0 <= i < j < n ==> #[trigger] from[i] != #[trigger] from[j],
        0 <= k < n,
    ensures
        exists|i: int| 0 <= i < n && from[i] == k,
{
    assert(from.no_duplicates()) by {
        assert forall|i: int, j: int|
            0 <= i < from.len() && 0 <= j < from.len() && i != j implies from[i] != from[j] by {
            if i < j {
                assert(from[i] != from[j]);
            } else {
                assert(from[j] != from[i]);
            }
        }
    }
    from.unique_seq_to_set();
    seq_to_set_is_finite(from);
    lemma_int_range(0, n);
    let places = set_int_range(0, n);
    assert(from.to_set().subset_of(places)) by {
        assert forall|x: int| from.to_set().contains(x) implies places.contains(x) by {
            let i = choose|i: int| 0 <= i < from.len() && from[i] == x;
            assert(0 <= from[i] < n);
        }
    }
    lemma_subset_equality(from.to_set(), places);
    assert(places.contains(k));
    assert(from.to_set().contains(k));
    assert(from.contains(k));
}

/// Of two places in a stable sort, the earlier holds the smaller file name,
/// or the same file name and the candidate that came first.
proof fn lemma_earlier_comes_first(
    before: Seq<CandidatePath>,
    after: Seq<CandidatePath>,
    from: Seq<int>,
    i: int,
    j: int,
)
    requires
        sorted_by_name(after),
        rearranges(from, before, after),
        keeps_ties(from, after),
        0 <= i < j < after.len(),
    ensures
        ordered(name_of(before[from[i]]), name_of(before[from[j]])),
        name_of(before[from[i]]) == name_of(before[from[j]]) ==> from[i] < from[j],
{
    assert(after[i] == before[from[i]]);
    assert(after[j] == before[from[j]]);
}

/// Two stable sorts of the same candidates take their first `upto` items
/// from the same places.
proof fn lemma_same_places(
    before: Seq<CandidatePath>,
    a: Seq<CandidatePath>,
    b: Seq<CandidatePath>,
    p: Seq<int>,
    q: Seq<int>,
    upto: int,
)
    requires
        sorted_by_name(a),
        rearranges(p, before, a),
        keeps_ties(p, a),
        sorted_by_name(b),
        rearranges(q, before, b),
        keeps_ties(q, b),
        0 <= upto <= before.len(),
    ensures
        forall|i: int| 0 <= i < upto ==> p[i] == q[i],
    decreases upto,
{
    if upto > 0 {
        lemma_same_places(before, a, b, p, q, upto - 1);
        let n = before.len() as int;
        let i = upto - 1;
        lemma_rearrangement_is_onto(q, n, p[i]);
        let m = choose|m: int| 0 <= m < n && q[m] == p[i];
        lemma_rearrangement_is_onto(p, n, q[i]);
        let w = choose|w: int| 0 <= w < n && p[w] == q[i];
        if m < i {
            assert(p[m] == q[m]);
            assert(p[m] != p[i]);
        }
        if w < i {
            assert(p[w] == q[w]);
            assert(q[w] != q[i]);
        }
        if m > i {
            assert(q[i] != q[m]);
            assert(w != i);
            lemma_earlier_comes_first(before, b, q, i, m);
            lemma_earlier_comes_first(before, a, p, i, w);
            let x = name_of(before[p[i]]);
            let y = name_of(before[q[i]]);
            lemma_ordered_antisymmetric(x, y, 0);
            assert(x =~= y);
        }
    }
}

/// There is one way to sort: two stable sorts of the same candidates are
/// the same, place by place.
pub proof fn lemma_stable_sort_is_unique(
    before: Seq<CandidatePath>,
    a: Seq<CandidatePath>,
    b: Seq<CandidatePath>,
)
    requires
        is_stable_sort(before, a),
        is_stable_sort(before, b),
    ensures
        a == b,
{
    let p = choose|from: Seq<int>| #[trigger] rearranges(from, before, a) && keeps_ties(from, a);
    let q = choose|from: Seq<int>| #[trigger] rearranges(from, before, b) && keeps_ties(from, b);
    lemma_same_places(before, a, b, p, q, before.len() as int);
    assert(a =~= b) by {
        assert forall|i: int| 0 <= i < a.len() implies a[i] == b[i] by {
            assert(a[i] == before[p[i]]);
            assert(b[i] == before[q[i]]);
        }
    }
}

} // verus!
