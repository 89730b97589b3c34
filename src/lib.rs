//! Password strength scoring: four sub-scores (length, variety, uniqueness,
//! and resemblance to a corpus of known weak passwords) summed into a total,
//! with a letter grade and a short piece of advice derived from them.
use vstd::prelude::*;
use crate::corpus::{corpus_of, CorpusIndex, COMMON_PASSWORDS};
use crate::score::{
    length_score, penalty_score, score_length, score_penalties_with, score_uniqueness,
    score_variety, uniqueness_score, variety_score,
};

pub mod corpus;
pub mod distance;
pub mod laws;
pub mod score;
pub mod text;

verus! {

/// The total score: the sum of the four sub-scores, except that an exact
/// match with the corpus (penalty 0) forces the total to 0.
pub open spec fn total_score(corpus: Seq<Seq<char>>, p: Seq<char>) -> nat {
    let pen = penalty_score(corpus, p);
    if pen == 0 {
        0
    } else {
        length_score(p) + variety_score(p) + uniqueness_score(p) + pen
    }
}

/// The corpus that ships with this library.
pub open spec fn builtin_corpus() -> Seq<Seq<char>> {
    corpus_of(COMMON_PASSWORDS@)
}

/// The letter grade of a total score.
pub open spec fn grade_of(total: nat) -> &'static str {
    if total >= 900 {
        "A+"
    } else if total >= 850 {
        "A"
    } else if total >= 800 {
        "A-"
    } else if total >= 750 {
        "B+"
    } else if total >= 700 {
        "B"
    } else if total >= 650 {
        "B-"
    } else if total >= 600 {
        "C+"
    } else if total >= 550 {
        "C"
    } else if total >= 500 {
        "C-"
    } else if total >= 450 {
        "D+"
    } else if total >= 400 {
        "D"
    } else if total >= 350 {
        "D-"
    } else {
        "F"
    }
}

pub const ADVICE_LENGTH: &'static str = "Too short. Make it longer.";

pub const ADVICE_VARIETY: &'static str = "Add uppercase letters, digits or symbols.";

pub const ADVICE_UNIQUENESS: &'static str = "Too many repeated characters. Use more distinct ones.";

pub const ADVICE_COMMON: &'static str = "Password is too common. Change it.";

pub const ADVICE_SIMILAR: &'static str = "Password is similar to a common one. Change it.";

/// The advice for the weakest category: the smallest of half the length
/// score, the variety, uniqueness and penalty scores, the first of them in
/// that order on a tie.
pub open spec fn advice_of(length: nat, variety: nat, uniqueness: nat, penalty: nat) -> &'static str {
    let half = length / 2;
    if half <= variety && half <= uniqueness && half <= penalty {
        ADVICE_LENGTH
    } else if variety <= uniqueness && variety <= penalty {
        ADVICE_VARIETY
    } else if uniqueness <= penalty {
        ADVICE_UNIQUENESS
    } else if penalty == 0 {
        ADVICE_COMMON
    } else {
        ADVICE_SIMILAR
    }
}

/// The total score of `password` against `index`.
pub fn score_with(index: &CorpusIndex, password: &str) -> (r: u16)
    requires
        index.wf(),
    ensures
        r == total_score(index@, password@),
{
    let penalty = score_penalties_with(index, password);
    if penalty == 0 {
        return 0;
    }
    let length = score_length(password);
    let variety = score_variety(password);
    let uniqueness = score_uniqueness(password);
    length + variety + uniqueness + penalty
}

/// The total score of `password` against the built-in corpus. The password
/// is neither logged nor kept. The built-in index is built for this call; to
/// score many passwords, build a `CorpusIndex` once and use `score_with`.
pub fn score(password: &str) -> (r: u16)
    ensures
        r == total_score(builtin_corpus(), password@),
{
    let index = CorpusIndex::builtin();
    score_with(&index, password)
}

fn grade_for(total: u16) -> (r: &'static str)
    ensures
        r == grade_of(total as nat),
{
    if total >= 900 {
        "A+"
    } else if total >= 850 {
        "A"
    } else if total >= 800 {
        "A-"
    } else if total >= 750 {
        "B+"
    } else if total >= 700 {
        "B"
    } else if total >= 650 {
        "B-"
    } else if total >= 600 {
        "C+"
    } else if total >= 550 {
        "C"
    } else if total >= 500 {
        "C-"
    } else if total >= 450 {
        "D+"
    } else if total >= 400 {
        "D"
    } else if total >= 350 {
        "D-"
    } else {
        "F"
    }
}

/// The letter grade of `password` against `index`.
pub fn grade_with(index: &CorpusIndex, password: &str) -> (r: &'static str)
    requires
        index.wf(),
    ensures
        r == grade_of(total_score(index@, password@)),
{
    grade_for(score_with(index, password))
}

/// The letter grade of `password` against the built-in corpus, from `"F"`
/// up to `"A+"`.
pub fn grade_password(password: &str) -> (r: &'static str)
    ensures
        r == grade_of(total_score(builtin_corpus(), password@)),
{
    let index = CorpusIndex::builtin();
    grade_with(&index, password)
}

/// The advice for `password` against `index`: what to change in its weakest
/// category.
pub fn review_with(index: &CorpusIndex, password: &str) -> (r: &'static str)
    requires
        index.wf(),
    ensures
        r == advice_of(
            length_score(password@),
            variety_score(password@),
            uniqueness_score(password@),
            penalty_score(index@, password@),
        ),
{
    let half = score_length(password) / 2;
    let variety = score_variety(password);
    let uniqueness = score_uniqueness(password);
    let penalty = score_penalties_with(index, password);
    if half <= variety && half <= uniqueness && half <= penalty {
        ADVICE_LENGTH
    } else if variety <= uniqueness && variety <= penalty {
        ADVICE_VARIETY
    } else if uniqueness <= penalty {
        ADVICE_UNIQUENESS
    } else if penalty == 0 {
        ADVICE_COMMON
    } else {
        ADVICE_SIMILAR
    }
}

/// The advice for `password` against the built-in corpus.
pub fn review_password(password: &str) -> (r: &'static str)
    ensures
        r == advice_of(
            length_score(password@),
            variety_score(password@),
            uniqueness_score(password@),
            penalty_score(builtin_corpus(), password@),
        ),
{
    let index = CorpusIndex::builtin();
    review_with(&index, password)
}

} // verus!
