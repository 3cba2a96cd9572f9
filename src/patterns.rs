//! The dominant rhythmic patterns of a beatmap, from the weights that a
//! pattern analyzer gives each pattern.
use vstd::prelude::*;

verus! {

/// The game mode whose beatmaps the pattern analyzer understands.
pub const PATTERN_MODE: u8 = 3;

/// A pattern's name and weight. Weights are fixed-point: only their ratios matter.
pub struct PatternWeight {
    pub name: String,
    pub weight: u64,
}

#[derive(Debug, PartialEq, Eq, Structural, Clone, Copy)]
pub enum PatternError {
    /// Patterns are only analyzed for one game mode.
    UnsupportedMode(u8),
}

/// Whether the beatmaps of `mode` can be analyzed for patterns.
pub fn pattern_mode(mode: u8) -> (r: Result<(), PatternError>)
    ensures
        r is Ok <==> mode == PATTERN_MODE,
        r is Err ==> r == Err::<(), PatternError>(PatternError::UnsupportedMode(mode)),
{
    if mode == PATTERN_MODE {
        Ok(())
    } else {
        Err(PatternError::UnsupportedMode(mode))
    }
}

/// The largest weight of `ws`, 0 when there is none.
pub open spec fn max_weight(ws: Seq<PatternWeight>) -> u64
    decreases ws.len(),
{
    if ws.len() == 0 {
        0
    } else {
        let m = max_weight(ws.drop_last());
        if ws.last().weight > m {
            ws.last().weight
        } else {
            m
        }
    }
}

/// A weight is dominant when positive and at least 0.8 times the maximum.
pub open spec fn is_dominant(w: u64, max: u64) -> bool {
    w > 0 && 5 * w >= 4 * max
}

/// The names of the dominant patterns of `ws`, in the order of `ws`.
pub open spec fn dominant_names(ws: Seq<PatternWeight>, max: u64) -> Seq<Seq<char>>
    decreases ws.len(),
{
    if ws.len() == 0 {
        Seq::empty()
    } else if is_dominant(ws.last().weight, max) {
        dominant_names(ws.drop_last(), max).push(ws.last().name@)
    } else {
        dominant_names(ws.drop_last(), max)
    }
}

/// Whether pattern `i` of `ws` is listed before pattern `j`: larger weight
/// first, and in the order of `ws` between equal weights.
pub open spec fn ranks_before(ws: Seq<PatternWeight>, i: int, j: int) -> bool {
    ws[i].weight > ws[j].weight || (ws[i].weight == ws[j].weight && i < j)
}

/// `order` lists dominant patterns of `ws` (taken among the first `n`), each
/// ranked before the ones after it.
pub open spec fn ranked(ws: Seq<PatternWeight>, max: u64, order: Seq<int>, n: int) -> bool {
    &&& forall|k: int|
        0 <= k < order.len() ==> 0 <= #[trigger] order[k] < n && is_dominant(
            ws[order[k]].weight,
            max,
        )
    &&& forall|k: int, l: int| 0 <= k < l < order.len() ==> ranks_before(ws, #[trigger] order[k], #[trigger] order[l])
}

/// The dominant patterns: those with a positive weight of at least 0.8 times
/// the largest weight, by decreasing weight, equal weights in input order.
/// Empty when no weight is positive.
pub fn analyze_patterns(weights: &Vec<PatternWeight>) -> (r: Vec<String>)
    ensures
        r@.len() == dominant_names(weights@, max_weight(weights@)).len(),
        exists|order: Seq<int>|
            {
                &&& order.len() == r@.len()
                &&& ranked(weights@, max_weight(weights@), order, weights@.len() as int)
                &&& forall|k: int| 0 <= k < order.len() ==> (#[trigger] r@[k])@ == weights@[order[k]].name@
            },
{
    let ghost ws = weights@;
    let mut max: u64 = 0;
    let mut i: usize = 0;
    while i < weights.len()
        invariant
            i <= weights@.len(),
            max == max_weight(weights@.subrange(0, i as int)),
        decreases weights@.len() - i,
    {
        assert(weights@.subrange(0, i + 1).drop_last() =~= weights@.subrange(0, i as int));
        if weights[i].weight > max {
            max = weights[i].weight;
        }
        i = i + 1;
    }
    assert(weights@.subrange(0, i as int) =~= weights@);
    let mut order: Vec<usize> = Vec::new();
    let ghost mut og: Seq<int> = Seq::empty();
    let mut j: usize = 0;
    while j < weights.len()
        invariant
            ws == weights@,
            j <= ws.len(),
            max == max_weight(ws),
            og.len() == order@.len(),
            forall|k: int| 0 <= k < og.len() ==> og[k] == order@[k] as int,
            og.len() == dominant_names(ws.subrange(0, j as int), max).len(),
            ranked(ws, max, og, j as int),
        decreases ws.len() - j,
    {
        assert(ws.subrange(0, j + 1).drop_last() =~= ws.subrange(0, j as int));
        let w = weights[j].weight;
        if w > 0 && 5 * (w as u128) >= 4 * (max as u128) {
            let mut p: usize = 0;
            assert forall|k: int| 0 <= k < order@.len() implies (#[trigger] order@[k]) < j by {
                assert(og[k] == order@[k] as int);
            }
            while p < order.len() && weights[order[p]].weight >= w
                invariant
                    ws == weights@,
                    j < ws.len(),
                    w == ws[j as int].weight,
                    og.len() == order@.len(),
                    forall|k: int| 0 <= k < og.len() ==> og[k] == order@[k] as int,
                    ranked(ws, max, og, j as int),
                    p <= order@.len(),
                    forall|k: int| 0 <= k < order@.len() ==> (#[trigger] order@[k]) < j,
                    forall|k: int| 0 <= k < p ==> ws[#[trigger] og[k]].weight >= w,
                decreases order@.len() - p,
            {
                p = p + 1;
            }
            let ghost old_og = og;
            proof {
                old_og.insert_ensures(p as int, j as int);
                og = old_og.insert(p as int, j as int);
                assert(og[p as int] == j);
                assert forall|k: int| 0 <= k < og.len() implies 0 <= #[trigger] og[k] < j + 1
                    && is_dominant(ws[og[k]].weight, max) by {
                    if k > p {
                        assert(og[k] == old_og[k - 1]);
                    }
                }
                assert forall|k: int, l: int|
                    0 <= k < l < og.len() implies ranks_before(ws, #[trigger] og[k], #[trigger] og[l]) by {
                    if l < p {
                    } else if l == p {
                        assert(ws[old_og[k]].weight >= w);
                    } else if k < p {
                        assert(og[l] == old_og[l - 1]);
                    } else if k == p {
                        assert(og[l] == old_og[l - 1]);
                        assert(ws[old_og[p as int]].weight < w);
                        if l - 1 > p {
                            assert(ranks_before(ws, old_og[p as int], old_og[l - 1]));
                        }
                    } else {
                        assert(og[l] == old_og[l - 1]);
                        assert(og[k] == old_og[k - 1]);
                    }
                }
            }
            order.insert(p, j);
            assert forall|k: int| 0 <= k < og.len() implies og[k] == order@[k] as int by {
                if k > p {
                    assert(og[k] == old_og[k - 1]);
                }
            }
        }
        j = j + 1;
    }
    assert(ws.subrange(0, j as int) =~= ws);
    let mut out: Vec<String> = Vec::new();
    let mut k: usize = 0;
    while k < order.len()
        invariant
            ws == weights@,
            og.len() == order@.len(),
            forall|m: int| 0 <= m < og.len() ==> og[m] == order@[m] as int,
            ranked(ws, max, og, ws.len() as int),
            k <= order@.len(),
            out@.len() == k,
            forall|m: int| 0 <= m < k ==> (#[trigger] out@[m])@ == ws[og[m]].name@,
        decreases order@.len() - k,
    {
        assert(0 <= og[k as int] < ws.len());
        out.push(weights[order[k]].name.clone());
        k = k + 1;
    }
    assert(og.len() == out@.len());
    out
}

proof fn lemma_zero_weights_not_dominant(ws: Seq<PatternWeight>, max: u64)
    requires
        forall|i: int| 0 <= i < ws.len() ==> (#[trigger] ws[i]).weight == 0,
    ensures
        dominant_names(ws, max).len() == 0,
    decreases ws.len(),
{
    if ws.len() > 0 {
        let rest = ws.drop_last();
        assert forall|i: int| 0 <= i < rest.len() implies (#[trigger] rest[i]).weight == 0 by {
            assert(rest[i] == ws[i]);
        }
        lemma_zero_weights_not_dominant(rest, max);
        assert(ws.last() == ws[ws.len() - 1]);
    }
}

/// Without a positive weight there is no dominant pattern.
pub proof fn lemma_no_positive_weight_no_dominant(ws: Seq<PatternWeight>)
    requires
        forall|i: int| 0 <= i < ws.len() ==> (#[trigger] ws[i]).weight == 0,
    ensures
        dominant_names(ws, max_weight(ws)).len() == 0,
{
    lemma_zero_weights_not_dominant(ws, max_weight(ws));
}

} // verus!
