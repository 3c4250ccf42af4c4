//! Top-k filtering and sampling-parameter validation.
//!
//! Logits reach this module as order keys: unsigned integers whose
//! unsigned order is the order of the underlying scores (for IEEE-754
//! doubles the usual sign-flip transform gives exactly that). Top-k
//! filtering ranks every index by score, ties broken toward the earlier
//! index, and keeps the `k` best-ranked; the caller then softmaxes the
//! kept scores — the dropped ones stand at negative infinity, so their
//! probability is exactly zero — and draws one of the kept candidates.
//! `select_kept` maps that draw back to a vocabulary index.

use vstd::prelude::*;

use crate::config::f64_bits_positive_finite;
use crate::error::SamplingError;

verus! {

/// Does index `j` take strict priority over index `i` in the score
/// sequence `s`: a larger score, or an equal score at an earlier index?
pub open spec fn beats(s: Seq<u64>, j: int, i: int) -> bool {
    s[j] > s[i] || (s[j] == s[i] && j < i)
}

/// Number of indices below `n` that take priority over `i`.
pub open spec fn rank_upto(s: Seq<u64>, i: int, n: int) -> int
    decreases n,
{
    if n <= 0 {
        0
    } else {
        rank_upto(s, i, n - 1) + if beats(s, n - 1, i) {
            1 as int
        } else {
            0 as int
        }
    }
}

/// Rank of index `i`: how many indices take priority over it. The best
/// score (earliest on ties) has rank 0.
pub open spec fn rank(s: Seq<u64>, i: int) -> int {
    rank_upto(s, i, s.len() as int)
}

/// Does top-k filtering with parameter `k` keep index `i`?
pub open spec fn kept_by_top_k(s: Seq<u64>, i: int, k: int) -> bool {
    rank(s, i) < k
}

/// Is `i` the earliest index attaining the maximum score?
pub open spec fn is_first_max(s: Seq<u64>, i: int) -> bool {
    &&& 0 <= i < s.len()
    &&& forall|j: int| 0 <= j < s.len() ==> s[j] <= s[i]
    &&& forall|j: int| 0 <= j < i ==> s[j] < s[i]
}

/// Number of kept entries among the first `n` of a mask.
pub open spec fn count_true_upto(m: Seq<bool>, n: int) -> int
    decreases n,
{
    if n <= 0 {
        0
    } else {
        count_true_upto(m, n - 1) + if m[n - 1] {
            1 as int
        } else {
            0 as int
        }
    }
}

/// Number of kept entries of a mask.
pub open spec fn count_true(m: Seq<bool>) -> int {
    count_true_upto(m, m.len() as int)
}

/// A rank never goes below zero nor above the number of indices counted.
pub proof fn lemma_rank_upto_bounds(s: Seq<u64>, i: int, n: int)
    requires
        n >= 0,
    ensures
        0 <= rank_upto(s, i, n) <= n,
    decreases n,
{
    if n > 0 {
        lemma_rank_upto_bounds(s, i, n - 1);
    }
}

/// A rank is zero exactly when no counted index takes priority.
pub proof fn lemma_rank_upto_zero(s: Seq<u64>, i: int, n: int)
    requires
        n >= 0,
    ensures
        rank_upto(s, i, n) == 0 <==> forall|j: int| 0 <= j < n ==> !beats(s, j, i),
    decreases n,
{
    if n > 0 {
        lemma_rank_upto_zero(s, i, n - 1);
        lemma_rank_upto_bounds(s, i, n - 1);
    }
}

/// Counting kept entries is monotone in the prefix length.
pub proof fn lemma_count_true_upto_mono(m: Seq<bool>, n1: int, n2: int)
    requires
        0 <= n1 <= n2,
    ensures
        count_true_upto(m, n1) <= count_true_upto(m, n2),
    decreases n2 - n1,
{
    if n1 < n2 {
        lemma_count_true_upto_mono(m, n1, n2 - 1);
    }
}

/// Number of indices below `m` whose rank lies below `k`.
pub open spec fn kept_upto(s: Seq<u64>, k: int, m: int) -> int
    decreases m,
{
    if m <= 0 {
        0
    } else {
        kept_upto(s, k, m - 1) + if rank(s, m - 1) < k {
            1 as int
        } else {
            0 as int
        }
    }
}

/// Priority is transitive.
proof fn lemma_beats_trans(s: Seq<u64>, a: int, b: int, c: int)
    requires
        beats(s, a, b),
        beats(s, b, c),
    ensures
        beats(s, a, c),
{
}

/// An index beaten by another ranks strictly behind it.
proof fn lemma_rank_upto_beats(s: Seq<u64>, i: int, j: int, m: int)
    requires
        m >= 0,
        beats(s, j, i),
    ensures
        rank_upto(s, i, m) >= rank_upto(s, j, m) + if 0 <= j < m {
            1 as int
        } else {
            0 as int
        },
    decreases m,
{
    if m > 0 {
        lemma_rank_upto_beats(s, i, j, m - 1);
        if m - 1 != j && beats(s, m - 1, j) {
            lemma_beats_trans(s, m - 1, j, i);
        }
    }
}

/// Two different indices never share a rank.
proof fn lemma_rank_distinct(s: Seq<u64>, i: int, j: int)
    requires
        0 <= i < s.len(),
        0 <= j < s.len(),
        i != j,
    ensures
        rank(s, i) != rank(s, j),
{
    if beats(s, j, i) {
        lemma_rank_upto_beats(s, i, j, s.len() as int);
    } else {
        assert(beats(s, i, j));
        lemma_rank_upto_beats(s, j, i, s.len() as int);
    }
}

/// An index never counts itself, so its rank stays below the number of
/// indices.
proof fn lemma_rank_upto_skips_self(s: Seq<u64>, i: int, m: int)
    requires
        m >= 0,
    ensures
        rank_upto(s, i, m) <= m - if 0 <= i < m {
            1 as int
        } else {
            0 as int
        },
    decreases m,
{
    if m > 0 {
        lemma_rank_upto_skips_self(s, i, m - 1);
    }
}

/// Raising the cutoff by one admits exactly the index of rank `k`,
/// where one exists below `m` — and by distinctness of ranks there is
/// at most one.
proof fn lemma_kept_upto_step(s: Seq<u64>, k: int, m: int)
    requires
        0 <= m <= s.len(),
    ensures
        kept_upto(s, k + 1, m) == kept_upto(s, k, m) + if exists|i: int|
            0 <= i < m && #[trigger] rank(s, i) == k {
            1 as int
        } else {
            0 as int
        },
    decreases m,
{
    if m > 0 {
        lemma_kept_upto_step(s, k, m - 1);
        if rank(s, m - 1) == k {
            assert forall|i: int| 0 <= i < m - 1 implies #[trigger] rank(s, i) != k by {
                lemma_rank_distinct(s, i, m - 1);
            }
        } else {
            if exists|i: int| 0 <= i < m && #[trigger] rank(s, i) == k {
                let w = choose|i: int| 0 <= i < m && #[trigger] rank(s, i) == k;
                assert(0 <= w < m - 1 && rank(s, w) == k);
            }
        }
    }
}

/// No rank lies below zero, so a cutoff of zero keeps nothing.
proof fn lemma_kept_upto_zero(s: Seq<u64>, m: int)
    requires
        0 <= m,
    ensures
        kept_upto(s, 0, m) == 0,
    decreases m,
{
    if m > 0 {
        lemma_kept_upto_zero(s, m - 1);
        lemma_rank_upto_bounds(s, m - 1, s.len() as int);
    }
}

/// Every rank lies below the number of indices, so that cutoff keeps
/// everything.
proof fn lemma_kept_upto_full(s: Seq<u64>, m: int)
    requires
        0 <= m <= s.len(),
    ensures
        kept_upto(s, s.len() as int, m) == m,
    decreases m,
{
    if m > 0 {
        lemma_kept_upto_full(s, m - 1);
        lemma_rank_upto_skips_self(s, m - 1, s.len() as int);
    }
}

/// At most `k` indices rank below `k`.
proof fn lemma_kept_upper(s: Seq<u64>, k: int)
    requires
        k >= 0,
    ensures
        kept_upto(s, k, s.len() as int) <= k,
    decreases k,
{
    if k == 0 {
        lemma_kept_upto_zero(s, s.len() as int);
    } else {
        lemma_kept_upper(s, k - 1);
        lemma_kept_upto_step(s, k - 1, s.len() as int);
    }
}

/// At least `k` of the indices rank below `k`, as long as there are
/// `k` indices at all.
proof fn lemma_kept_lower(s: Seq<u64>, k: int)
    requires
        0 <= k <= s.len(),
    ensures
        kept_upto(s, k, s.len() as int) >= k,
    decreases s.len() - k,
{
    if k == s.len() {
        lemma_kept_upto_full(s, s.len() as int);
    } else {
        lemma_kept_lower(s, k + 1);
        lemma_kept_upto_step(s, k, s.len() as int);
    }
}

/// A mask that keeps exactly the indices of rank below `k` has the same
/// running count as the rank cutoff.
proof fn lemma_mask_count(s: Seq<u64>, mask: Seq<bool>, k: int, m: int)
    requires
        0 <= m <= mask.len(),
        mask.len() == s.len(),
        forall|i: int| 0 <= i < mask.len() ==> (#[trigger] mask[i]) == kept_by_top_k(s, i, k),
    ensures
        count_true_upto(mask, m) == kept_upto(s, k, m),
    decreases m,
{
    if m > 0 {
        lemma_mask_count(s, mask, k, m - 1);
    }
}

/// Law of top-k filtering: the mask keeps exactly `k` candidates —
/// never fewer on ties, never more.
pub proof fn lemma_top_k_keeps_exactly_k(s: Seq<u64>, mask: Seq<bool>, k: int)
    requires
        1 <= k <= s.len(),
        mask.len() == s.len(),
        forall|i: int| 0 <= i < mask.len() ==> (#[trigger] mask[i]) == kept_by_top_k(s, i, k),
    ensures
        count_true(mask) == k,
{
    lemma_mask_count(s, mask, k, mask.len() as int);
    lemma_kept_upper(s, k);
    lemma_kept_lower(s, k);
}

/// Top-k filtering with `k = 1` keeps exactly the earliest index of
/// maximal score: generation degenerates to deterministic arg-max
/// decoding, whatever the temperature, because only one candidate is
/// left with non-zero probability.
pub proof fn lemma_top_one_is_greedy(s: Seq<u64>, i: int)
    requires
        0 <= i < s.len(),
    ensures
        kept_by_top_k(s, i, 1) <==> is_first_max(s, i),
{
    lemma_rank_upto_bounds(s, i, s.len() as int);
    lemma_rank_upto_zero(s, i, s.len() as int);
    if kept_by_top_k(s, i, 1) {
        assert(forall|j: int| 0 <= j < s.len() ==> !beats(s, j, i));
        assert forall|j: int| 0 <= j < s.len() implies s[j] <= s[i] by {
            assert(!beats(s, j, i));
        }
        assert forall|j: int| 0 <= j < i implies s[j] < s[i] by {
            assert(!beats(s, j, i));
        }
    }
    if is_first_max(s, i) {
        assert forall|j: int| 0 <= j < s.len() implies !beats(s, j, i) by {
            assert(s[j] <= s[i]);
        }
    }
}

/// Validate the caller's sampling parameters before any token is drawn:
/// the temperature must be a positive finite number — its bit pattern is
/// that of an IEEE-754 double — and top-k must keep at least one and at
/// most `vocab_size` candidates.
pub fn check_sampling_params(temperature_bits: u64, top_k: usize, vocab_size: usize) -> (r:
    Result<(), SamplingError>)
    ensures
        match r {
            Ok(()) => {
                &&& f64_bits_positive_finite(temperature_bits)
                &&& 1 <= top_k <= vocab_size
            },
            Err(e) => match e {
                SamplingError::TemperatureNotPositive => {
                    !f64_bits_positive_finite(temperature_bits)
                },
                SamplingError::TopKZero => {
                    f64_bits_positive_finite(temperature_bits) && top_k == 0
                },
                SamplingError::TopKTooLarge { top_k: got, vocab_size: limit } => {
                    &&& f64_bits_positive_finite(temperature_bits)
                    &&& top_k >= 1
                    &&& top_k > vocab_size
                    &&& got == top_k
                    &&& limit == vocab_size
                },
                SamplingError::DrawOutOfRange { .. } => false,
            },
        },
        r is Ok <==> (f64_bits_positive_finite(temperature_bits) && 1 <= top_k <= vocab_size),
{
    if temperature_bits == 0 || temperature_bits >= crate::config::F64_INF_BITS {
        return Err(SamplingError::TemperatureNotPositive);
    }
    if top_k == 0 {
        return Err(SamplingError::TopKZero);
    }
    if top_k > vocab_size {
        return Err(SamplingError::TopKTooLarge { top_k, vocab_size });
    }
    Ok(())
}

/// Rank of index `i` among the scores: the number of indices with a
/// larger score, plus the earlier indices with an equal score.
pub fn rank_of(scores: &Vec<u64>, i: usize) -> (r: usize)
    requires
        i < scores@.len(),
    ensures
        r == rank(scores@, i as int),
{
    let mut cnt: usize = 0;
    let mut j: usize = 0;
    while j < scores.len()
        invariant
            j <= scores@.len(),
            i < scores@.len(),
            cnt == rank_upto(scores@, i as int, j as int),
            cnt <= j,
        decreases scores@.len() - j,
    {
        let sj = scores[j];
        let si = scores[i];
        if sj > si || (sj == si && j < i) {
            cnt = cnt + 1;
        }
        j = j + 1;
    }
    cnt
}

/// Top-k filtering: keep exactly the `k` best-ranked indices.
///
/// The result marks index `i` exactly when fewer than `k` indices take
/// priority over it; the caller sets every unmarked logit to negative
/// infinity before the softmax. Asking for no candidate, or for more
/// than there are scores, is rejected.
#[verifier::loop_isolation(false)]
pub fn top_k_mask(scores: &Vec<u64>, k: usize) -> (r: Result<Vec<bool>, SamplingError>)
    ensures
        match r {
            Ok(mask) => {
                &&& 1 <= k <= scores@.len()
                &&& mask@.len() == scores@.len()
                &&& forall|i: int|
                    0 <= i < mask@.len() ==> (#[trigger] mask@[i]) == kept_by_top_k(
                        scores@,
                        i,
                        k as int,
                    )
                &&& count_true(mask@) == k
            },
            Err(e) => match e {
                SamplingError::TopKZero => k == 0,
                SamplingError::TopKTooLarge { top_k: got, vocab_size: limit } => {
                    &&& k >= 1
                    &&& k > scores@.len()
                    &&& got == k
                    &&& limit == scores@.len()
                },
                SamplingError::TemperatureNotPositive => false,
                SamplingError::DrawOutOfRange { .. } => false,
            },
        },
        r is Ok <==> 1 <= k <= scores@.len(),
{
    if k == 0 {
        return Err(SamplingError::TopKZero);
    }
    if k > scores.len() {
        return Err(SamplingError::TopKTooLarge { top_k: k, vocab_size: scores.len() });
    }
    let mut mask: Vec<bool> = Vec::new();
    let mut i: usize = 0;
    while i < scores.len()
        invariant
            i <= scores@.len(),
            mask@.len() == i,
            forall|p: int|
                0 <= p < i ==> (#[trigger] mask@[p]) == kept_by_top_k(scores@, p, k as int),
        decreases scores@.len() - i,
    {
        let r = rank_of(scores, i);
        mask.push(r < k);
        i = i + 1;
    }
    proof {
        lemma_top_k_keeps_exactly_k(scores@, mask@, k as int);
    }
    Ok(mask)
}

/// Earliest index of maximal score.
pub fn argmax(scores: &Vec<u64>) -> (r: usize)
    requires
        scores@.len() >= 1,
    ensures
        is_first_max(scores@, r as int),
{
    let mut best: usize = 0;
    let mut i: usize = 1;
    while i < scores.len()
        invariant
            best < i <= scores@.len(),
            forall|j: int| 0 <= j < i ==> scores@[j] <= scores@[best as int],
            forall|j: int| 0 <= j < best ==> scores@[j] < scores@[best as int],
        decreases scores@.len() - i,
    {
        if scores[i] > scores[best] {
            best = i;
        }
        i = i + 1;
    }
    best
}

/// One whole sampling decision: filter the scores to the `k`
/// best-ranked candidates and map the caller's categorical draw — an
/// index among the kept candidates, in index order — back to the
/// selected score index. The result is pinned exactly: it is the
/// unique kept index with `draw` kept indices before it. With `k = 1`
/// every admissible draw selects the arg-max index.
pub fn next_token(scores: &Vec<u64>, top_k: usize, draw: usize) -> (r: Result<
    usize,
    SamplingError,
>)
    ensures
        match r {
            Ok(t) => {
                &&& 1 <= top_k <= scores@.len()
                &&& draw < top_k
                &&& t < scores@.len()
                &&& kept_by_top_k(scores@, t as int, top_k as int)
                &&& kept_upto(scores@, top_k as int, t as int) == draw
            },
            Err(e) => match e {
                SamplingError::TopKZero => top_k == 0,
                SamplingError::TopKTooLarge { top_k: got, vocab_size: limit } => {
                    &&& top_k >= 1
                    &&& top_k > scores@.len()
                    &&& got == top_k
                    &&& limit == scores@.len()
                },
                SamplingError::DrawOutOfRange { draw: got, kept } => {
                    &&& 1 <= top_k <= scores@.len()
                    &&& draw >= top_k
                    &&& got == draw
                    &&& kept == top_k
                },
                SamplingError::TemperatureNotPositive => false,
            },
        },
        r is Ok <==> (1 <= top_k <= scores@.len() && draw < top_k),
{
    let mask = match top_k_mask(scores, top_k) {
        Ok(m) => m,
        Err(e) => {
            return Err(e);
        },
    };
    match select_kept(&mask, draw) {
        Some(t) => {
            proof {
                lemma_mask_count(scores@, mask@, top_k as int, t as int);
            }
            Ok(t)
        },
        None => Err(SamplingError::DrawOutOfRange { draw, kept: top_k }),
    }
}

/// Map a draw among the kept candidates back to its index.
///
/// The caller's categorical draw picks the `draw`-th candidate in index
/// order among the marked entries; the result is that entry's index. A
/// draw beyond the number of kept candidates selects nothing.
pub fn select_kept(mask: &Vec<bool>, draw: usize) -> (r: Option<usize>)
    ensures
        match r {
            Some(i) => {
                &&& i < mask@.len()
                &&& mask@[i as int]
                &&& count_true_upto(mask@, i as int) == draw
                &&& draw < count_true(mask@)
            },
            None => draw >= count_true(mask@),
        },
        r is Some <==> draw < count_true(mask@),
{
    let mut cnt: usize = 0;
    let mut i: usize = 0;
    while i < mask.len()
        invariant
            i <= mask@.len(),
            cnt == count_true_upto(mask@, i as int),
            cnt <= draw,
        decreases mask@.len() - i,
    {
        if mask[i] {
            if cnt == draw {
                proof {
                    lemma_count_true_upto_mono(mask@, i as int + 1, mask@.len() as int);
                }
                return Some(i);
            }
            cnt = cnt + 1;
        }
        i = i + 1;
    }
    None
}

} // verus!
