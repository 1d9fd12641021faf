//! Reduction of several comparisons against one reference to their maximum.
use crate::engine::{DiffError, Raster, calculate_diff, diff_outcome, total_diff};
use crate::luma::LumaWeights;
use crate::sequencer::LaneWidth;
use rayon::iter::{IndexedParallelIterator, IntoParallelRefIterator, ParallelIterator};
use vstd::prelude::*;

verus! {

/// The largest accumulated difference over the comparisons, with the pixel
/// count that normalizes it: the normalized diff is `total / pixels`.
#[derive(Clone, Copy, Debug, PartialEq, Eq, Structural)]
pub struct Score {
    pub total: u128,
    pub pixels: u64,
}

/// Largest accumulated difference of the reference against each comparison
/// (zero for none).
pub open spec fn max_diff(reference: &Raster, comps: Seq<Raster>, w: LumaWeights) -> nat
    decreases comps.len(),
{
    if comps.len() == 0 {
        0
    } else {
        let rest = max_diff(reference, comps.drop_last(), w);
        let last = total_diff(reference.data@, comps.last().data@, w);
        if rest >= last {
            rest
        } else {
            last
        }
    }
}

pub open spec fn all_same_dims(reference: &Raster, comps: Seq<Raster>) -> bool {
    forall|i: int| 0 <= i < comps.len() ==> reference.same_dims(&#[trigger] comps[i])
}

pub open spec fn all_wf(comps: Seq<Raster>) -> bool {
    forall|i: int| 0 <= i < comps.len() ==> (#[trigger] comps[i]).wf()
}

/// What a run yields: `NoInput` for no comparison, `DimensionMismatch` when
/// any comparison differs in size from the reference, else the maximum.
pub open spec fn run_outcome(
    reference: &Raster,
    comps: Seq<Raster>,
    w: LumaWeights,
    res: Result<Score, DiffError>,
) -> bool {
    if comps.len() == 0 {
        res == Err::<Score, DiffError>(DiffError::NoInput)
    } else if !all_same_dims(reference, comps) {
        res == Err::<Score, DiffError>(DiffError::DimensionMismatch)
    } else {
        &&& res.is_ok()
        &&& res.unwrap().total == max_diff(reference, comps, w)
        &&& res.unwrap().pixels == (reference.width as nat) * (reference.height as nat)
    }
}

/// The maximum over a non-empty list of comparisons is at least each of
/// their differences and equal to one of them.
pub proof fn law_max_reduction(reference: &Raster, comps: Seq<Raster>, w: LumaWeights)
    requires
        comps.len() > 0,
    ensures
        forall|i: int|
            0 <= i < comps.len() ==> #[trigger] total_diff(reference.data@, comps[i].data@, w)
                <= max_diff(reference, comps, w),
        exists|i: int|
            0 <= i < comps.len() && #[trigger] total_diff(reference.data@, comps[i].data@, w)
                == max_diff(reference, comps, w),
    decreases comps.len(),
{
    let last = comps.len() - 1;
    if comps.len() > 1 {
        let rest = comps.drop_last();
        law_max_reduction(reference, rest, w);
        assert forall|i: int| 0 <= i < comps.len() implies #[trigger] total_diff(
            reference.data@,
            comps[i].data@,
            w,
        ) <= max_diff(reference, comps, w) by {
            if i < last {
                assert(rest[i] == comps[i]);
            }
        }
        if max_diff(reference, rest, w) >= total_diff(reference.data@, comps[last].data@, w) {
            let j = choose|j: int|
                0 <= j < rest.len() && #[trigger] total_diff(reference.data@, rest[j].data@, w)
                    == max_diff(reference, rest, w);
            assert(rest[j] == comps[j]);
        } else {
            assert(total_diff(reference.data@, comps[last].data@, w) == max_diff(
                reference,
                comps,
                w,
            ));
        }
    } else {
        assert(comps.drop_last().len() == 0);
        assert(max_diff(reference, comps.drop_last(), w) == 0);
        assert(total_diff(reference.data@, comps[0].data@, w) == max_diff(reference, comps, w));
    }
}

/// A run's outcome is determined by its inputs: the sequential and the
/// parallel run, and any other order of computing the comparisons, agree.
pub proof fn law_run_deterministic(
    reference: &Raster,
    comps: Seq<Raster>,
    w: LumaWeights,
    x: Result<Score, DiffError>,
    y: Result<Score, DiffError>,
)
    requires
        run_outcome(reference, comps, w, x),
        run_outcome(reference, comps, w, y),
    ensures
        x == y,
{
}

proof fn lemma_max_step(reference: &Raster, comps: Seq<Raster>, w: LumaWeights, i: int)
    requires
        0 <= i < comps.len(),
    ensures
        max_diff(reference, comps.take(i + 1), w) == ({
            let rest = max_diff(reference, comps.take(i), w);
            let cur = total_diff(reference.data@, comps[i].data@, w);
            if rest >= cur {
                rest
            } else {
                cur
            }
        }),
{
    assert(comps.take(i + 1).drop_last() =~= comps.take(i));
}

/// Folds per-comparison outcomes, in order, into the run's result: the first
/// error stops the fold.
fn fold_outcomes(
    reference: &Raster,
    comparisons: &Vec<Raster>,
    w: &LumaWeights,
    outcomes: &Vec<Result<u128, DiffError>>,
) -> (r: Result<Score, DiffError>)
    requires
        reference.wf(),
        comparisons@.len() > 0,
        outcomes@.len() == comparisons@.len(),
        forall|i: int|
            0 <= i < outcomes@.len() ==> diff_outcome(
                reference,
                &comparisons@[i],
                *w,
                #[trigger] outcomes@[i],
            ),
    ensures
        run_outcome(reference, comparisons@, *w, r),
{
    let n: usize = outcomes.len();
    let mut best: u128 = 0;
    let mut i: usize = 0;
    while i < n
        invariant
            n == outcomes@.len(),
            n == comparisons@.len(),
            i <= n,
            forall|j: int|
                0 <= j < outcomes@.len() ==> diff_outcome(
                    reference,
                    &comparisons@[j],
                    *w,
                    #[trigger] outcomes@[j],
                ),
            forall|j: int| 0 <= j < i ==> reference.same_dims(#[trigger] &comparisons@[j]),
            best == max_diff(reference, comparisons@.take(i as int), *w),
        decreases n - i,
    {
        let outcome: Result<u128, DiffError> = outcomes[i];
        proof {
            lemma_max_step(reference, comparisons@, *w, i as int);
        }
        match outcome {
            Ok(d) => {
                if d > best {
                    best = d;
                }
            },
            Err(e) => {
                assert(!all_same_dims(reference, comparisons@)) by {
                    assert(!reference.same_dims(&comparisons@[i as int]));
                }
                return Err(e);
            },
        }
        i = i + 1;
    }
    assert(comparisons@.take(n as int) =~= comparisons@);
    Ok(Score { total: best, pixels: reference.pixel_count() })
}

/// Compares the reference with each comparison raster in turn and returns
/// the largest accumulated difference; stops at the first raster whose
/// dimensions differ from the reference's.
pub fn run(reference: &Raster, comparisons: &Vec<Raster>, width: LaneWidth, w: &LumaWeights) -> (r:
    Result<Score, DiffError>)
    requires
        reference.wf(),
        all_wf(comparisons@),
        w.wf(),
    ensures
        run_outcome(reference, comparisons@, *w, r),
{
    if comparisons.len() == 0 {
        return Err(DiffError::NoInput);
    }
    let mut outcomes: Vec<Result<u128, DiffError>> = Vec::new();
    let mut i: usize = 0;
    while i < comparisons.len()
        invariant
            reference.wf(),
            all_wf(comparisons@),
            w.wf(),
            i <= comparisons@.len(),
            outcomes@.len() == i,
            forall|j: int|
                0 <= j < i ==> diff_outcome(
                    reference,
                    &comparisons@[j],
                    *w,
                    #[trigger] outcomes@[j],
                ),
            forall|j: int| 0 <= j < i ==> outcomes@[j].is_ok(),
        decreases comparisons@.len() - i,
    {
        let outcome = calculate_diff(reference, &comparisons[i], width, w);
        if outcome.is_err() {
            assert(!all_same_dims(reference, comparisons@)) by {
                assert(!reference.same_dims(&comparisons@[i as int]));
            }
            return Err(DiffError::DimensionMismatch);
        }
        outcomes.push(outcome);
        i = i + 1;
    }
    fold_outcomes(reference, comparisons, w, &outcomes)
}

/// Relies on rayon's `par_iter` over a slice with `map` and
/// `collect_into_vec`: the result for item `i` lands at index `i`, and each
/// item is mapped by `calculate_diff`.
#[verifier::external_body]
fn diff_each_parallel(
    reference: &Raster,
    comparisons: &Vec<Raster>,
    width: LaneWidth,
    w: &LumaWeights,
) -> (r: Vec<Result<u128, DiffError>>)
    requires
        reference.wf(),
        all_wf(comparisons@),
        w.wf(),
    ensures
        r@.len() == comparisons@.len(),
        forall|i: int|
            0 <= i < r@.len() ==> diff_outcome(reference, &comparisons@[i], *w, #[trigger] r@[i]),
{
    let mut r: Vec<Result<u128, DiffError>> = Vec::new();
    comparisons.par_iter().map(|c| calculate_diff(reference, c, width, w)).collect_into_vec(&mut r);
    r
}

/// The same result as `run`, with the comparisons computed concurrently on
/// rayon's worker pool; all of them are computed before the reduction.
pub fn run_parallel(
    reference: &Raster,
    comparisons: &Vec<Raster>,
    width: LaneWidth,
    w: &LumaWeights,
) -> (r: Result<Score, DiffError>)
    requires
        reference.wf(),
        all_wf(comparisons@),
        w.wf(),
    ensures
        run_outcome(reference, comparisons@, *w, r),
{
    if comparisons.len() == 0 {
        return Err(DiffError::NoInput);
    }
    let outcomes = diff_each_parallel(reference, comparisons, width, w);
    fold_outcomes(reference, comparisons, w, &outcomes)
}

} // verus!
