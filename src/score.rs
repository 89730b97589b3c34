//! The four sub-scores: length, variety, uniqueness and penalty.
use vstd::prelude::*;
use std::collections::HashSet;
use vstd::string::StrSliceExecFns;
use crate::corpus::{corpus_of, resemblance, CorpusIndex, Resemblance, CLOSE_BAND, COMMON_PASSWORDS};
use crate::text::{chars_of, is_digit, is_lower, is_upper, lowercase, normal_form, normalize, uppercase};

pub use crate::corpus::PasswordEntry;

verus! {

/// Points for a password of `n` characters, by the breakpoint table.
pub open spec fn length_points(n: nat) -> nat {
    if n == 0 {
        0
    } else if n <= 4 {
        n * 2 + 2
    } else if n <= 8 {
        n * 6 + 2
    } else if n <= 12 {
        n * 12 + 6
    } else if n <= 16 {
        n * 15 + 10
    } else if n <= 24 {
        n * 15
    } else if n <= 39 {
        n * 5 / 2 + 300
    } else {
        400
    }
}

pub open spec fn length_score(p: Seq<char>) -> nat {
    length_points(p.len())
}

/// The class of a character: 0 lowercase, 1 uppercase, 2 digit, 3 other.
pub open spec fn char_class(c: char) -> nat {
    if is_lower(c) {
        0
    } else if is_upper(c) {
        1
    } else if is_digit(c) {
        2
    } else {
        3
    }
}

pub open spec fn has_class(p: Seq<char>, k: nat) -> bool {
    exists|i: int| 0 <= i < p.len() && char_class(#[trigger] p[i]) == k
}

/// How many of the four classes occur in `p`.
pub open spec fn class_count(p: Seq<char>) -> nat {
    (if has_class(p, 0) { 1nat } else { 0nat }) + (if has_class(p, 1) { 1nat } else { 0nat }) + (
    if has_class(p, 2) {
        1nat
    } else {
        0nat
    }) + (if has_class(p, 3) { 1nat } else { 0nat })
}

pub open spec fn variety_points(classes: nat) -> nat {
    if classes == 0 {
        0
    } else if classes == 1 {
        25
    } else if classes == 2 {
        70
    } else if classes == 3 {
        130
    } else {
        200
    }
}

pub open spec fn variety_score(p: Seq<char>) -> nat {
    variety_points(class_count(p))
}

/// The number of distinct characters in `p`.
pub open spec fn distinct_count(p: Seq<char>) -> nat {
    p.to_set().len()
}

/// `200 * distinct / n` rounded to the nearest integer (halves up); 0 when
/// `n` is 0.
pub open spec fn uniqueness_points(distinct: nat, n: nat) -> nat {
    if n == 0 {
        0
    } else {
        (400 * distinct + n) / (2 * n)
    }
}

pub open spec fn uniqueness_score(p: Seq<char>) -> nat {
    uniqueness_points(distinct_count(p), p.len())
}

/// Points for how close a password comes to the corpus: an exact match
/// scores 0, a very close one 150, a moderately close one 50, and one
/// that is near nothing 200.
pub open spec fn penalty_points(r: Resemblance) -> nat {
    match r {
        Resemblance::Exact => 0,
        Resemblance::Close(d) => if d <= CLOSE_BAND {
            150
        } else {
            50
        },
        Resemblance::Distant => 200,
    }
}

pub open spec fn penalty_score(corpus: Seq<Seq<char>>, p: Seq<char>) -> nat {
    penalty_points(resemblance(corpus, normal_form(p)))
}

/// The score for the length of `password`, counted in characters.
pub fn score_length(password: &str) -> (r: u16)
    ensures
        r == length_score(password@),
        r <= 400,
{
    let length = password.unicode_len();
    let score: usize;
    if length == 0 {
        score = 0;
    } else if length <= 4 {
        score = length * 2 + 2;
    } else if length <= 8 {
        score = length * 6 + 2;
    } else if length <= 12 {
        score = length * 12 + 6;
    } else if length <= 16 {
        score = length * 15 + 10;
    } else if length <= 24 {
        score = length * 15;
    } else if length <= 39 {
        score = length * 5 / 2 + 300;
    } else {
        score = 400;
    }
    score as u16
}

/// The class of `c`, as `char_class` gives it.
fn classify_char(c: char) -> (r: u8)
    ensures
        r as nat == char_class(c),
{
    if lowercase(c) {
        0
    } else if uppercase(c) {
        1
    } else if '0' <= c && c <= '9' {
        2
    } else {
        3
    }
}

proof fn lemma_prefix_class(p: Seq<char>, i: int, k: nat)
    requires
        0 <= i <= p.len(),
        exists|j: int| 0 <= j < i && char_class(#[trigger] p[j]) == k,
    ensures
        has_class(p, k),
{
    let j = choose|j: int| 0 <= j < i && char_class(#[trigger] p[j]) == k;
    assert(0 <= j < p.len() && char_class(p[j]) == k);
}

/// The score for how many classes of characters (lowercase, uppercase,
/// digit, other) `password` uses.
pub fn score_variety(password: &str) -> (r: u16)
    ensures
        r == variety_score(password@),
        r == 0 || r == 25 || r == 70 || r == 130 || r == 200,
{
    let chars = chars_of(password);
    let ghost p = password@;
    let mut seen_lower = false;
    let mut seen_upper = false;
    let mut seen_digit = false;
    let mut seen_symbol = false;
    let mut i: usize = 0;
    while i < chars.len()
        invariant
            chars@ == p,
            i <= p.len(),
            seen_lower == exists|j: int| 0 <= j < i && char_class(#[trigger] p[j]) == 0,
            seen_upper == exists|j: int| 0 <= j < i && char_class(#[trigger] p[j]) == 1,
            seen_digit == exists|j: int| 0 <= j < i && char_class(#[trigger] p[j]) == 2,
            seen_symbol == exists|j: int| 0 <= j < i && char_class(#[trigger] p[j]) == 3,
        ensures
            i == p.len() || (seen_lower && seen_upper && seen_digit && seen_symbol),
        decreases p.len() - i,
    {
        if seen_lower && seen_upper && seen_digit && seen_symbol {
            break;
        }
        let k = classify_char(chars[i]);
        if k == 0 {
            seen_lower = true;
        } else if k == 1 {
            seen_upper = true;
        } else if k == 2 {
            seen_digit = true;
        } else {
            seen_symbol = true;
        }
        i = i + 1;
    }
    proof {
        if i < p.len() {
            lemma_prefix_class(p, i as int, 0);
            lemma_prefix_class(p, i as int, 1);
            lemma_prefix_class(p, i as int, 2);
            lemma_prefix_class(p, i as int, 3);
        } else {
            assert(seen_lower == has_class(p, 0));
            assert(seen_upper == has_class(p, 1));
            assert(seen_digit == has_class(p, 2));
            assert(seen_symbol == has_class(p, 3));
        }
    }
    let mut types: u8 = 0;
    if seen_lower {
        types = types + 1;
    }
    if seen_upper {
        types = types + 1;
    }
    if seen_digit {
        types = types + 1;
    }
    if seen_symbol {
        types = types + 1;
    }
    if types == 0 {
        0
    } else if types == 1 {
        25
    } else if types == 2 {
        70
    } else if types == 3 {
        130
    } else {
        200
    }
}

/// The score for the share of distinct characters in `password`: 200 when
/// no character repeats, 0 for the empty password.
pub fn score_uniqueness(password: &str) -> (r: u16)
    ensures
        r == uniqueness_score(password@),
        r <= 200,
{
    let chars = chars_of(password);
    let ghost p = password@;
    let n = chars.len();
    if n == 0 {
        return 0;
    }
    let mut set: HashSet<u32> = HashSet::with_capacity(n);
    let mut i: usize = 0;
    while i < n
        invariant
            chars@ == p,
            n == p.len(),
            i <= n,
            forall|x: u32| #[trigger]
                set@.contains(x) <==> exists|j: int| 0 <= j < i && p[j] as u32 == x,
        decreases n - i,
    {
        set.insert(chars[i] as u32);
        i = i + 1;
    }
    let distinct = set.len();
    proof {
        lemma_distinct_codes(p, set@);
    }
    let d = distinct as u128;
    let m = n as u128;
    assert(d <= m);
    let score = (400 * d + m) / (2 * m);
    assert(score <= 200) by (nonlinear_arith)
        requires
            score == (400 * d + m) / (2 * m),
            d <= m,
            m > 0,
    ;
    score as u16
}

proof fn lemma_code_injective(c1: char, c2: char)
    requires
        c1 as u32 == c2 as u32,
    ensures
        c1 == c2,
{
}

/// The set of code points of `p` has as many elements as `p` has distinct
/// characters, which is at most its length.
proof fn lemma_distinct_codes(p: Seq<char>, codes: Set<u32>)
    requires
        forall|x: u32| #[trigger] codes.contains(x) <==> exists|j: int| 0 <= j < p.len() && p[j] as u32 == x,
    ensures
        codes.len() == distinct_count(p),
        distinct_count(p) <= p.len(),
{
    let f = |c: char| c as u32;
    assert(codes =~= p.to_set().map(f)) by {
        assert forall|x: u32| codes.contains(x) implies p.to_set().map(f).contains(x) by {
            let j = choose|j: int| 0 <= j < p.len() && p[j] as u32 == x;
            assert(p.to_set().contains(p[j]));
        }
        assert forall|x: u32| p.to_set().map(f).contains(x) implies codes.contains(x) by {
            let c = choose|c: char| p.to_set().contains(c) && f(c) == x;
            let j = choose|j: int| 0 <= j < p.len() && p[j] == c;
            assert(p[j] as u32 == x);
        }
    }
    assert forall|c1: char, c2: char|
        p.to_set().contains(c1) && p.to_set().contains(c2) && #[trigger] f(c1) == #[trigger] f(c2)
        implies c1 == c2 by {
        lemma_code_injective(c1, c2);
    }
    assert(vstd::relations::injective_on(f, p.to_set()));
    vstd::set_lib::lemma_map_size(p.to_set(), codes, f);
    p.lemma_cardinality_of_set();
}

/// The penalty score of `password` against `index`: its normal form is
/// classified, then `Exact` gives 0, a distance up to `CLOSE_BAND` 150, a
/// looser one 50, and `Distant` 200.
pub fn score_penalties_with(index: &CorpusIndex, password: &str) -> (r: u16)
    requires
        index.wf(),
    ensures
        r == penalty_score(index@, password@),
        r == 0 || r == 50 || r == 150 || r == 200,
{
    let normalized = normalize(password);
    match index.classify(&normalized) {
        Resemblance::Exact => 0,
        Resemblance::Close(d) => if d <= CLOSE_BAND {
            150
        } else {
            50
        },
        Resemblance::Distant => 200,
    }
}

/// The penalty score of `password` against the built-in corpus.
pub fn score_penalties(password: &str) -> (r: u16)
    ensures
        r == penalty_score(corpus_of(COMMON_PASSWORDS@), password@),
        r == 0 || r == 50 || r == 150 || r == 200,
{
    let index = CorpusIndex::builtin();
    score_penalties_with(&index, password)
}

} // verus!
