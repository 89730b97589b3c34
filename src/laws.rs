//! General properties of the scores, stated over their specifications.
use vstd::prelude::*;
use crate::corpus::{resemblance, Resemblance};
use crate::score::{distinct_count, length_score, penalty_score, uniqueness_score};
use crate::text::{has_upper, lower_of, normal_form, trim};
use crate::total_score;

verus! {

/// The length score never decreases as a password gets longer, and it is
/// 400 for every password of 40 characters or more.
pub proof fn lemma_length_monotonic(p: Seq<char>, q: Seq<char>)
    requires
        p.len() <= q.len(),
    ensures
        length_score(p) <= length_score(q),
        q.len() >= 40 ==> length_score(q) == 400,
{
}

/// A password whose normal form is a corpus entry scores 0 in total,
/// whatever its length, variety and uniqueness.
pub proof fn lemma_exact_match_scores_zero(corpus: Seq<Seq<char>>, p: Seq<char>)
    requires
        corpus.contains(normal_form(p)),
    ensures
        resemblance(corpus, normal_form(p)) == Resemblance::Exact,
        penalty_score(corpus, p) == 0,
        total_score(corpus, p) == 0,
{
}

/// Lowercasing `t` gives a string that is already in normal form, and
/// changes `t` only where `t` holds an uppercase character.
pub open spec fn lowering_settles(t: Seq<char>) -> bool {
    let l = lower_of(t);
    &&& trim(l) == l
    &&& !has_upper(l)
    &&& (has_upper(t) || l == t)
}

/// Matching does not see case or surrounding whitespace: the penalty score of
/// `p` equals that of `p` trimmed and lowercased, for every `p` whose trimmed
/// form lowercases to a settled form.
pub proof fn lemma_penalty_ignores_case_and_space(corpus: Seq<Seq<char>>, p: Seq<char>)
    requires
        lowering_settles(trim(p)),
    ensures
        penalty_score(corpus, p) == penalty_score(corpus, lower_of(trim(p))),
{
    let l = lower_of(trim(p));
    assert(normal_form(l) == l);
    assert(normal_form(p) == l);
}

/// The empty password has uniqueness score 0.
pub proof fn lemma_uniqueness_of_empty()
    ensures
        uniqueness_score(Seq::<char>::empty()) == 0,
{
}

/// A password of `n > 0` copies of one character has uniqueness score
/// `200 / n` rounded to the nearest integer (halves up).
pub proof fn lemma_uniqueness_of_repeated(p: Seq<char>, c: char)
    requires
        p.len() > 0,
        forall|i: int| 0 <= i < p.len() ==> p[i] == c,
    ensures
        uniqueness_score(p) == (400 + p.len()) / (2 * p.len()),
{
    assert(p.to_set() =~= set![c]) by {
        assert(p[0] == c);
    }
    assert(distinct_count(p) == 1);
}

} // verus!
