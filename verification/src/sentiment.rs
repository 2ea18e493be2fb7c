//! Aggregation of sentiment scores. Scores are fixed-point integers: a
//! compound polarity in [-1.0, 1.0] is held in ten-thousandths, so the
//! whole stage stays in exact integer arithmetic. The average of a report
//! is the rational `score_sum / results.len()`; it is never formed by a
//! division here, so an empty input is a reported error, not a silent
//! undefined number.

use vstd::prelude::*;
use crate::errors::ScrapeError;

verus! {

/// The fixed-point unit: this value stands for a polarity of 1.0.
pub const SCORE_SCALE: i64 = 10000;

/// One scored headline.
pub struct SentimentResult {
    pub headline: String,
    /// Compound polarity in ten-thousandths, in `[-SCORE_SCALE, SCORE_SCALE]`.
    pub score: i64,
}

/// The outcome of the aggregation stage: one result per headline, in input
/// order, and the exact sum of all scores.
pub struct AggregateReport {
    pub results: Vec<SentimentResult>,
    /// Exact sum of the scores; the average is `score_sum / results.len()`.
    pub score_sum: i128,
}

/// The sum of a sequence of scores.
pub open spec fn sum_of(scores: Seq<i64>) -> int
    decreases scores.len(),
{
    if scores.len() == 0 {
        0
    } else {
        sum_of(scores.drop_last()) + scores.last()
    }
}

/// A sum of scores within the fixed-point range is bounded by the length
/// times the unit.
pub proof fn lemma_sum_bounded(scores: Seq<i64>)
    requires
        forall|i: int|
            0 <= i < scores.len() ==> -SCORE_SCALE <= #[trigger] scores[i] <= SCORE_SCALE,
    ensures
        -(scores.len() as int) * (SCORE_SCALE as int) <= sum_of(scores) <= (scores.len() as int)
            * (SCORE_SCALE as int),
    decreases scores.len(),
{
    if scores.len() > 0 {
        lemma_sum_bounded(scores.drop_last());
    }
}

/// Pair each headline with its score, in order, and take the exact sum.
/// Fails with `EmptyInput` exactly when there are no headlines: a mean
/// over zero items must be an explicit error.
pub fn aggregate(headlines: &Vec<String>, scores: &Vec<i64>) -> (r: Result<
    AggregateReport,
    ScrapeError,
>)
    requires
        scores@.len() == headlines@.len(),
        forall|i: int|
            0 <= i < scores@.len() ==> -SCORE_SCALE <= #[trigger] scores@[i] <= SCORE_SCALE,
    ensures
        match r {
            Ok(rep) => headlines@.len() > 0 && rep.results@.len() == headlines@.len() && (forall|
                i: int,
            |
                0 <= i < headlines@.len() ==> (#[trigger] rep.results@[i]).headline@
                    == headlines@[i]@ && rep.results@[i].score == scores@[i])
                && rep.score_sum == sum_of(scores@),
            Err(e) => headlines@.len() == 0 && e == ScrapeError::EmptyInput,
        },
{
    if headlines.len() == 0 {
        return Err(ScrapeError::EmptyInput);
    }
    let n = headlines.len();
    let mut results: Vec<SentimentResult> = Vec::new();
    let mut sum: i128 = 0;
    let mut i: usize = 0;
    proof {
        assert(scores@.take(0) =~= Seq::<i64>::empty());
    }
    while i < n
        invariant
            n == headlines@.len(),
            scores@.len() == headlines@.len(),
            forall|k: int|
                0 <= k < scores@.len() ==> -SCORE_SCALE <= #[trigger] scores@[k] <= SCORE_SCALE,
            i <= n,
            results@.len() == i,
            forall|k: int|
                0 <= k < i ==> (#[trigger] results@[k]).headline@ == headlines@[k]@
                    && results@[k].score == scores@[k],
            sum == sum_of(scores@.take(i as int)),
            -(i as int) * (SCORE_SCALE as int) <= sum <= (i as int) * (SCORE_SCALE as int),
        decreases n - i,
    {
        let h = headlines[i].clone();
        let sc = scores[i];
        proof {
            assert(scores@.take(i as int + 1).drop_last() =~= scores@.take(i as int));
            assert(scores@.take(i as int + 1).last() == scores@[i as int]);
        }
        sum = sum + sc as i128;
        results.push(SentimentResult { headline: h, score: sc });
        i = i + 1;
    }
    proof {
        assert(scores@.take(scores@.len() as int) =~= scores@);
    }
    Ok(AggregateReport { results, score_sum: sum })
}

} // verus!
