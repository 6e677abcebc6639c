//! Occurrences of a piece of text inside a larger one, and the lemmas that
//! count them in generated files, line by line.
use vstd::prelude::*;

verus! {

/// `p` occurs in `s` starting at index `i`.
pub open spec fn occurs_at(s: Seq<char>, p: Seq<char>, i: int) -> bool {
    0 <= i && i + p.len() <= s.len() && s.subrange(i, i + p.len()) == p
}

/// `p` occurs somewhere in `s`.
pub open spec fn contains_text(s: Seq<char>, p: Seq<char>) -> bool {
    exists|i: int| occurs_at(s, p, i)
}

/// The number of places where a non-empty `p` occurs in `s`.
pub open spec fn count_occurrences(s: Seq<char>, p: Seq<char>) -> nat
    decreases s.len(),
{
    if p.len() == 0 || s.len() < p.len() {
        0
    } else {
        (if occurs_at(s, p, 0) {
            1nat
        } else {
            0nat
        }) + count_occurrences(s.drop_first(), p)
    }
}

/// The four characters `a b c d` stand in `s` from index `i` on.
pub open spec fn has4(s: Seq<char>, i: int, a: char, b: char, c: char, d: char) -> bool {
    0 <= i && i + 4 <= s.len() && s[i] == a && s[i + 1] == b && s[i + 2] == c && s[i + 3] == d
}

/// The text ends a line: it is empty or its last character is a newline.
pub open spec fn ends_line(s: Seq<char>) -> bool {
    s.len() == 0 || s.last() == '\n'
}

/// `p` has no newline.
pub open spec fn single_line(p: Seq<char>) -> bool {
    forall|k: int| 0 <= k < p.len() ==> p[k] != '\n'
}

proof fn lemma_occurs_drop_first(s: Seq<char>, p: Seq<char>, i: int)
    requires
        s.len() > 0,
        i >= 0,
    ensures
        occurs_at(s.drop_first(), p, i) <==> occurs_at(s, p, i + 1),
{
    if 0 <= i && i + p.len() <= s.len() - 1 {
        assert(s.drop_first().subrange(i, i + p.len()) =~= s.subrange(i + 1, i + 1 + p.len()));
    }
}

/// Where `p` occurs nowhere in `s`, it is counted zero times.
pub proof fn lemma_count_zero(s: Seq<char>, p: Seq<char>)
    requires
        forall|i: int| !occurs_at(s, p, i),
    ensures
        count_occurrences(s, p) == 0,
    decreases s.len(),
{
    if p.len() > 0 && s.len() >= p.len() {
        assert forall|i: int| !occurs_at(s.drop_first(), p, i) by {
            if i >= 0 {
                lemma_occurs_drop_first(s, p, i);
            }
        }
        lemma_count_zero(s.drop_first(), p);
    }
}

/// Where `p` occurs at `i0` and nowhere else in `s`, it is counted once.
pub proof fn lemma_count_one(s: Seq<char>, p: Seq<char>, i0: int)
    requires
        p.len() > 0,
        occurs_at(s, p, i0),
        forall|i: int| i != i0 ==> !occurs_at(s, p, i),
    ensures
        count_occurrences(s, p) == 1,
    decreases s.len(),
{
    if i0 == 0 {
        assert forall|i: int| !occurs_at(s.drop_first(), p, i) by {
            if i >= 0 {
                lemma_occurs_drop_first(s, p, i);
            }
        }
        lemma_count_zero(s.drop_first(), p);
    } else {
        assert forall|i: int| i != i0 - 1 implies !occurs_at(s.drop_first(), p, i) by {
            if i >= 0 {
                lemma_occurs_drop_first(s, p, i);
            }
        }
        lemma_occurs_drop_first(s, p, i0 - 1);
        lemma_count_one(s.drop_first(), p, i0 - 1);
    }
}

/// A text that `p` occurs in counts `p` at least once.
pub proof fn lemma_count_positive(s: Seq<char>, p: Seq<char>, i0: int)
    requires
        p.len() > 0,
        occurs_at(s, p, i0),
    ensures
        count_occurrences(s, p) >= 1,
    decreases s.len(),
{
    if i0 > 0 {
        lemma_occurs_drop_first(s, p, i0 - 1);
        lemma_count_positive(s.drop_first(), p, i0 - 1);
    }
}

/// Counted zero times means not contained.
pub proof fn lemma_count_zero_not_contained(s: Seq<char>, p: Seq<char>)
    requires
        p.len() > 0,
        count_occurrences(s, p) == 0,
    ensures
        !contains_text(s, p),
{
    if contains_text(s, p) {
        let i = choose|i: int| occurs_at(s, p, i);
        lemma_count_positive(s, p, i);
    }
}

/// Every occurrence of `p` shows the four characters of `p` from `k` on;
/// where they stand nowhere in `s`, `p` does not occur in `s`.
pub proof fn lemma_no_occurrence_by4(s: Seq<char>, p: Seq<char>, k: int, i: int)
    requires
        0 <= k,
        k + 4 <= p.len(),
        !has4(s, i + k, p[k], p[k + 1], p[k + 2], p[k + 3]),
    ensures
        !occurs_at(s, p, i),
{
    if occurs_at(s, p, i) {
        let w = s.subrange(i, i + p.len());
        assert(w[k] == s[i + k] && w[k + 1] == s[i + k + 1] && w[k + 2] == s[i + k + 2] && w[k
            + 3] == s[i + k + 3]);
    }
}

/// Where the four characters of `p` from `k` on stand nowhere in `s`, `p`
/// is counted zero times.
pub proof fn lemma_count_zero_by4(s: Seq<char>, p: Seq<char>, k: int)
    requires
        0 <= k,
        k + 4 <= p.len(),
        forall|j: int| !#[trigger] has4(s, j, p[k], p[k + 1], p[k + 2], p[k + 3]),
    ensures
        count_occurrences(s, p) == 0,
{
    assert forall|i: int| !occurs_at(s, p, i) by {
        lemma_no_occurrence_by4(s, p, k, i);
    }
    lemma_count_zero(s, p);
}

/// Where `p` occurs at `i0` and the four characters of `p` from `k` on stand
/// nowhere else in `s`, `p` is counted once.
pub proof fn lemma_count_one_by4(s: Seq<char>, p: Seq<char>, k: int, i0: int)
    requires
        0 <= k,
        k + 4 <= p.len(),
        occurs_at(s, p, i0),
        forall|j: int| j != i0 + k ==> !#[trigger] has4(s, j, p[k], p[k + 1], p[k + 2], p[k + 3]),
    ensures
        count_occurrences(s, p) == 1,
{
    assert forall|i: int| i != i0 implies !occurs_at(s, p, i) by {
        lemma_no_occurrence_by4(s, p, k, i);
    }
    lemma_count_one(s, p, i0);
}

/// A one-line text cannot straddle the end of a line: in `a + b`, where `a`
/// ends a line, the occurrences are those of `a` and those of `b`.
pub proof fn lemma_count_concat_lines(a: Seq<char>, b: Seq<char>, p: Seq<char>)
    requires
        p.len() > 0,
        single_line(p),
        ends_line(a),
    ensures
        count_occurrences(a + b, p) == count_occurrences(a, p) + count_occurrences(b, p),
    decreases a.len(),
{
    if a.len() == 0 {
        assert(a + b =~= b);
    } else {
        let rest = a.drop_first();
        assert((a + b).drop_first() =~= rest + b);
        assert(ends_line(rest)) by {
            if rest.len() > 0 {
                assert(rest.last() == a.last());
            }
        }
        lemma_count_concat_lines(rest, b, p);
        if a.len() >= p.len() {
            assert((a + b).subrange(0, p.len() as int) =~= a.subrange(0, p.len() as int));
        } else {
            if occurs_at(a + b, p, 0) {
                let w = (a + b).subrange(0, p.len() as int);
                assert(w[a.len() - 1] == a.last());
                assert(p[a.len() - 1] == '\n');
            }
            assert forall|i: int| !occurs_at(rest, p, i) by {}
            lemma_count_zero(rest, p);
        }
    }
}

/// A text contained in `b` is contained in `a + b + c`.
pub proof fn lemma_contains_within(a: Seq<char>, b: Seq<char>, c: Seq<char>, p: Seq<char>, i: int)
    requires
        occurs_at(b, p, i),
    ensures
        occurs_at(a + b + c, p, a.len() + i),
        contains_text(a + b + c, p),
{
    assert((a + b + c).subrange(a.len() + i, a.len() + i + p.len()) =~= b.subrange(i, i + p.len()));
}

/// Containment is transitive.
pub proof fn lemma_contains_trans(s: Seq<char>, q: Seq<char>, r: Seq<char>, i: int, j: int)
    requires
        occurs_at(s, q, i),
        occurs_at(q, r, j),
    ensures
        occurs_at(s, r, i + j),
{
    assert(s.subrange(i + j, i + j + r.len()) =~= q.subrange(j, j + r.len()));
}

/// An occurrence stays where it is when text is appended.
pub proof fn lemma_occurs_extend_right(a: Seq<char>, b: Seq<char>, p: Seq<char>, i: int)
    requires
        occurs_at(a, p, i),
    ensures
        occurs_at(a + b, p, i),
{
    assert((a + b).subrange(i, i + p.len()) =~= a.subrange(i, i + p.len()));
}

/// An occurrence moves by the length of text put in front.
pub proof fn lemma_occurs_extend_left(a: Seq<char>, b: Seq<char>, p: Seq<char>, i: int)
    requires
        occurs_at(b, p, i),
    ensures
        occurs_at(a + b, p, a.len() + i),
{
    assert((a + b).subrange(a.len() + i, a.len() + i + p.len()) =~= b.subrange(i, i + p.len()));
}

} // verus!
