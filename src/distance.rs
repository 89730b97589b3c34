//! Levenshtein distance with an early-exit cutoff.
use vstd::prelude::*;

verus! {

pub open spec fn min_nat(x: nat, y: nat) -> nat {
    if x <= y {
        x
    } else {
        y
    }
}

/// The Levenshtein distance (unit-cost insertion, deletion and substitution)
/// between the first `i` characters of `a` and the first `j` characters of `b`.
pub open spec fn prefix_distance(a: Seq<char>, b: Seq<char>, i: nat, j: nat) -> nat
    decreases i + j,
{
    if i == 0 {
        j
    } else if j == 0 {
        i
    } else {
        let sub: nat = if a[i - 1] == b[j - 1] {
            0
        } else {
            1
        };
        min_nat(
            min_nat(
                prefix_distance(a, b, (i - 1) as nat, j) + 1,
                prefix_distance(a, b, i, (j - 1) as nat) + 1,
            ),
            prefix_distance(a, b, (i - 1) as nat, (j - 1) as nat) + sub,
        )
    }
}

/// The Levenshtein distance between `a` and `b`.
pub open spec fn levenshtein(a: Seq<char>, b: Seq<char>) -> nat {
    prefix_distance(a, b, a.len(), b.len())
}

/// The distance between `a` and `b` when it is at most `cutoff`, else
/// `cutoff + 1`.
pub open spec fn capped_distance(a: Seq<char>, b: Seq<char>, cutoff: nat) -> nat {
    if levenshtein(a, b) <= cutoff {
        levenshtein(a, b)
    } else {
        cutoff + 1
    }
}

/// A cell of the distance table, with every value above `cap` lowered to
/// `cap`.
pub open spec fn capped_cell(a: Seq<char>, b: Seq<char>, i: nat, j: nat, cap: nat) -> nat {
    min_nat(prefix_distance(a, b, i, j), cap)
}

/// Once every cell of a row of the distance table reaches `bound`, every cell
/// of each later row does too.
proof fn lemma_next_row_floor(a: Seq<char>, b: Seq<char>, i: nat, bound: nat, j: nat)
    requires
        forall|k: nat| k <= b.len() ==> prefix_distance(a, b, i, k) >= bound,
        j <= b.len(),
    ensures
        prefix_distance(a, b, i + 1, j) >= bound,
    decreases j,
{
    if j > 0 {
        lemma_next_row_floor(a, b, i, bound, (j - 1) as nat);
        assert(prefix_distance(a, b, i, j) >= bound);
        assert(prefix_distance(a, b, i, (j - 1) as nat) >= bound);
    } else {
        assert(prefix_distance(a, b, i, 0) >= bound);
    }
}

proof fn lemma_rows_floor(a: Seq<char>, b: Seq<char>, i: nat, i2: nat, bound: nat)
    requires
        forall|k: nat| k <= b.len() ==> prefix_distance(a, b, i, k) >= bound,
        i <= i2,
    ensures
        forall|k: nat| k <= b.len() ==> prefix_distance(a, b, i2, k) >= bound,
    decreases i2 - i,
{
    if i < i2 {
        assert forall|k: nat| k <= b.len() implies #[trigger] prefix_distance(a, b, i + 1, k) >= bound by {
            lemma_next_row_floor(a, b, i, bound, k);
        }
        lemma_rows_floor(a, b, i + 1, i2, bound);
    }
}

/// The distance between `a` and `b` if it is at most `threshold`, else
/// `threshold + 1`. Works row by row on the distance table and stops as soon
/// as a whole row exceeds `threshold`, so that distant pairs cost about
/// `threshold` rows rather than the whole table.
pub fn levenshtein_with_cutoff(a: &[char], b: &[char], threshold: usize) -> (r: usize)
    requires
        threshold < usize::MAX,
    ensures
        r == capped_distance(a@, b@, threshold as nat),
{
    let cap: usize = threshold + 1;
    let m: usize = b.len();
    let ghost sa = a@;
    let ghost sb = b@;
    // prev[k] is the capped cell (i, k + 1); prev0 is the capped cell (i, 0).
    let mut prev: Vec<usize> = Vec::new();
    let mut k: usize = 0;
    while k < m
        invariant
            k <= m == sb.len(),
            prev@.len() == k,
            forall|x: int| 0 <= x < k ==> prev@[x] == capped_cell(sa, sb, 0, (x + 1) as nat, cap as nat),
        decreases m - k,
    {
        prev.push(if k + 1 < cap { k + 1 } else { cap });
        k = k + 1;
    }
    let mut cur: Vec<usize> = prev.clone();
    let mut prev0: usize = 0;
    let mut i: usize = 0;
    while i < a.len()
        invariant
            i <= a@.len(),
            sa == a@,
            sb == b@,
            m == sb.len(),
            cap == threshold + 1,
            prev@.len() == m,
            cur@.len() == m,
            prev0 == capped_cell(sa, sb, i as nat, 0, cap as nat),
            forall|x: int| 0 <= x < m ==> prev@[x] == capped_cell(sa, sb, i as nat, (x + 1) as nat, cap as nat),
        decreases a@.len() - i,
    {
        let ca = a[i];
        let cur0: usize = if i + 1 < cap { i + 1 } else { cap };
        let mut left: usize = cur0;
        let mut diag: usize = prev0;
        let mut row_min: usize = cur0;
        let mut j: usize = 0;
        while j < m
            invariant
                i < sa.len(),
                ca == sa[i as int],
                j <= m == sb.len(),
                sb == b@,
                cap == threshold + 1,
                prev@.len() == m,
                cur@.len() == m,
                cur0 == capped_cell(sa, sb, (i + 1) as nat, 0, cap as nat),
                forall|x: int| 0 <= x < m ==> prev@[x] == capped_cell(sa, sb, i as nat, (x + 1) as nat, cap as nat),
                forall|x: int| 0 <= x < j ==> cur@[x] == capped_cell(sa, sb, (i + 1) as nat, (x + 1) as nat, cap as nat),
                left == capped_cell(sa, sb, (i + 1) as nat, j as nat, cap as nat),
                diag == capped_cell(sa, sb, i as nat, j as nat, cap as nat),
                forall|x: nat| x <= j ==> #[trigger] capped_cell(sa, sb, (i + 1) as nat, x, cap as nat) >= row_min,
            decreases m - j,
        {
            let up = prev[j];
            let mut v: usize = if ca == b[j] {
                diag
            } else if diag < cap {
                diag + 1
            } else {
                cap
            };
            if up < cap && up + 1 < v {
                v = up + 1;
            }
            if left < cap && left + 1 < v {
                v = left + 1;
            }
            assert(v == capped_cell(sa, sb, (i + 1) as nat, (j + 1) as nat, cap as nat));
            cur.set(j, v);
            if v < row_min {
                row_min = v;
            }
            diag = up;
            left = v;
            j = j + 1;
        }
        if row_min > threshold {
            proof {
                assert forall|x: nat| x <= sb.len() implies #[trigger] prefix_distance(sa, sb, (i + 1) as nat, x)
                    >= cap by {
                    assert(capped_cell(sa, sb, (i + 1) as nat, x, cap as nat) >= row_min);
                }
                lemma_rows_floor(sa, sb, (i + 1) as nat, sa.len(), cap as nat);
            }
            return cap;
        }
        std::mem::swap(&mut prev, &mut cur);
        prev0 = cur0;
        i = i + 1;
    }
    if m == 0 {
        prev0
    } else {
        prev[m - 1]
    }
}

} // verus!
