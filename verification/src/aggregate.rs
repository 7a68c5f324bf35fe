//! From a batch of trials to one point of a problem's statistics.

use vstd::prelude::*;
use crate::functions::{BenchmarkFn, RunResult};
use crate::plan::{spec_trial_seed, trial_seed};
use crate::stats::{Moments, sum_of, total};

verus! {

/// The total runtimes of the trials, in their order.
pub open spec fn runtimes(results: Seq<RunResult>) -> Seq<u64> {
    results.map_values(|result: RunResult| result.runtime)
}

/// The times of the first stage, in the order of the trials.
pub open spec fn stage1_runtimes(results: Seq<RunResult>) -> Seq<u64> {
    results.map_values(|result: RunResult| result.stage1_runtime)
}

/// The times of the second stage, in the order of the trials.
pub open spec fn stage2_runtimes(results: Seq<RunResult>) -> Seq<u64> {
    results.map_values(|result: RunResult| result.stage2_runtime)
}

/// The sizes of the solution sets, in the order of the trials.
pub open spec fn solution_set_sizes(results: Seq<RunResult>) -> Seq<u64> {
    results.map_values(|result: RunResult| result.solution_set_size as u64)
}

/// Number of trials that were a success.
pub open spec fn successes(results: Seq<RunResult>) -> nat
    decreases results.len(),
{
    if results.len() == 0 {
        0
    } else {
        successes(results.drop_last()) + if results.last().success {
            1nat
        } else {
            0nat
        }
    }
}

/// No more trials were a success than there were trials.
pub proof fn lemma_successes_at_most_trials(results: Seq<RunResult>)
    ensures
        successes(results) <= results.len(),
    decreases results.len(),
{
    if results.len() > 0 {
        lemma_successes_at_most_trials(results.drop_last());
    }
}

/// The statistics of one problem in one dimension, over a batch of trials.
/// Nothing in it is rounded: the success rate is `successes / trials`, a mean
/// is a total divided by `trials`, and a standard deviation is the square root
/// of a spread divided by `trials`.
#[derive(Clone, Copy, Debug, PartialEq, Eq, Hash)]
pub struct StatPoint {
    pub dim: usize,
    /// Number of trials in the batch.
    pub trials: usize,
    /// Number of trials that were a success.
    pub successes: usize,
    /// Moments of the total runtime.
    pub runtime: Moments,
    /// Total time of the first stage.
    pub stage1_runtime: u128,
    /// Total time of the second stage.
    pub stage2_runtime: u128,
    /// Moments of the size of the solution set.
    pub solution_set_size: Moments,
    /// Mean of the best objectives, as the bit pattern of a double.
    pub avg_best_obj: u64,
}

impl StatPoint {
    /// Whether this is the point of `results` in dimension `dim`, every value
    /// of it taken over the whole batch.
    pub open spec fn summarizes(self, dim: usize, results: Seq<RunResult>, avg_best_obj: u64) -> bool {
        &&& self.dim == dim
        &&& self.trials == results.len()
        &&& self.successes == successes(results)
        &&& self.runtime.describes(runtimes(results))
        &&& self.stage1_runtime == total(stage1_runtimes(results))
        &&& self.stage2_runtime == total(stage2_runtimes(results))
        &&& self.solution_set_size.describes(solution_set_sizes(results))
        &&& self.avg_best_obj == avg_best_obj
    }
}

/// The point of a batch of trials of one problem in dimension `dim`. The mean
/// of the best objectives is a double, which the caller computes and hands in
/// as `avg_best_obj`.
pub fn aggregate(dim: usize, results: &Vec<RunResult>, avg_best_obj: u64) -> (point: StatPoint)
    requires
        results@.len() >= 1,
    ensures
        point.summarizes(dim, results@, avg_best_obj),
        1 <= point.trials,
        point.successes <= point.trials,
{
    let n = results.len();
    let mut total_times: Vec<u64> = Vec::new();
    let mut stage1_times: Vec<u64> = Vec::new();
    let mut stage2_times: Vec<u64> = Vec::new();
    let mut sizes: Vec<u64> = Vec::new();
    let mut won: usize = 0;
    let mut i: usize = 0;
    while i < n
        invariant
            i <= n,
            n == results@.len(),
            total_times@ == runtimes(results@.take(i as int)),
            stage1_times@ == stage1_runtimes(results@.take(i as int)),
            stage2_times@ == stage2_runtimes(results@.take(i as int)),
            sizes@ == solution_set_sizes(results@.take(i as int)),
            won == successes(results@.take(i as int)),
        decreases n - i,
    {
        let result = &results[i];
        proof {
            let before = results@.take(i as int);
            let upto = results@.take(i + 1);
            assert(upto.drop_last() =~= before);
            assert(upto.last() == results@[i as int]);
            assert(runtimes(upto) =~= runtimes(before).push(result.runtime));
            assert(stage1_runtimes(upto) =~= stage1_runtimes(before).push(result.stage1_runtime));
            assert(stage2_runtimes(upto) =~= stage2_runtimes(before).push(result.stage2_runtime));
            assert(solution_set_sizes(upto) =~= solution_set_sizes(before).push(
                result.solution_set_size as u64,
            ));
            lemma_successes_at_most_trials(before);
        }
        total_times.push(result.runtime);
        stage1_times.push(result.stage1_runtime);
        stage2_times.push(result.stage2_runtime);
        sizes.push(result.solution_set_size as u64);
        if result.success {
            won = won + 1;
        }
        i += 1;
    }
    proof {
        assert(results@.take(n as int) =~= results@);
        lemma_successes_at_most_trials(results@);
    }
    StatPoint {
        dim,
        trials: n,
        successes: won,
        runtime: Moments::of(&total_times).unwrap(),
        stage1_runtime: sum_of(&stage1_times),
        stage2_runtime: sum_of(&stage2_times),
        solution_set_size: Moments::of(&sizes).unwrap(),
        avg_best_obj,
    }
}

/// Whether `results` are what `run` gave for a batch of `trials` trials in
/// dimension `dim`: one result for each trial, in the order of the trials, the
/// trial with index `i` run with the seed of `i`.
pub open spec fn is_batch<R: Fn(usize, u64) -> RunResult>(
    run: R,
    dim: usize,
    trials: usize,
    results: Seq<RunResult>,
) -> bool {
    &&& results.len() == trials
    &&& forall|i: int|
        0 <= i < trials ==> call_ensures(run, (dim, spec_trial_seed(i as u64)), #[trigger] results[i])
}

/// Runs a batch of `trials` trials in dimension `dim`: `run` is called once
/// for each trial, in the order of the trials, with the dimension and the
/// seed of the trial.
pub fn run_trials<R: Fn(usize, u64) -> RunResult>(dim: usize, trials: usize, run: &R) -> (results:
    Vec<RunResult>)
    requires
        forall|any_dim: usize, any_seed: u64| call_requires(*run, (any_dim, any_seed)),
    ensures
        is_batch(*run, dim, trials, results@),
{
    let mut results: Vec<RunResult> = Vec::new();
    let mut i: usize = 0;
    while i < trials
        invariant
            i <= trials,
            results@.len() == i,
            forall|any_dim: usize, any_seed: u64| call_requires(*run, (any_dim, any_seed)),
            forall|k: int|
                0 <= k < i ==> call_ensures(
                    *run,
                    (dim, spec_trial_seed(k as u64)),
                    #[trigger] results@[k],
                ),
        decreases trials - i,
    {
        let result = run(dim, trial_seed(i as u64));
        results.push(result);
        i += 1;
    }
    results
}

/// Whether `point` is the point of some batch that `run` gave in dimension
/// `dim`, with the mean of the best objectives that `mean` gave for that
/// batch.
pub open spec fn is_point_of<R: Fn(usize, u64) -> RunResult, M: Fn(&Vec<RunResult>) -> u64>(
    run: R,
    mean: M,
    dim: usize,
    trials: usize,
    point: StatPoint,
) -> bool {
    exists|results: Vec<RunResult>, avg_best_obj: u64|
        is_batch(run, dim, trials, results@) && call_ensures(mean, (&results,), avg_best_obj)
            && #[trigger] point.summarizes(dim, results@, avg_best_obj)
}

/// Whether `points` are what a measurement in `dims` comes to: one point for
/// each dimension, in the order of the dimensions, each the point of a batch
/// of `trials` trials.
pub open spec fn is_measurement<R: Fn(usize, u64) -> RunResult, M: Fn(&Vec<RunResult>) -> u64>(
    run: R,
    mean: M,
    dims: Seq<usize>,
    trials: usize,
    points: Seq<StatPoint>,
) -> bool {
    &&& points.len() == dims.len()
    &&& forall|k: int|
        0 <= k < dims.len() ==> is_point_of(run, mean, dims[k], trials, #[trigger] points[k])
}

/// Measures in each of `dims`, in their order: a batch of `trials` trials is
/// run and made into one point; `mean` gives the mean of the best objectives
/// of a batch, as the bit pattern of a double. The points come in the order of
/// the dimensions.
pub fn measure_problem<R: Fn(usize, u64) -> RunResult, M: Fn(&Vec<RunResult>) -> u64>(
    dims: &Vec<usize>,
    trials: usize,
    run: &R,
    mean: &M,
) -> (points: Vec<StatPoint>)
    requires
        trials >= 1,
        forall|any_dim: usize, any_seed: u64| call_requires(*run, (any_dim, any_seed)),
        forall|any: &Vec<RunResult>| call_requires(*mean, (any,)),
    ensures
        is_measurement(*run, *mean, dims@, trials, points@),
{
    let mut points: Vec<StatPoint> = Vec::new();
    let mut k: usize = 0;
    while k < dims.len()
        invariant
            k <= dims@.len(),
            trials >= 1,
            points@.len() == k,
            forall|any_dim: usize, any_seed: u64| call_requires(*run, (any_dim, any_seed)),
            forall|any: &Vec<RunResult>| call_requires(*mean, (any,)),
            forall|j: int|
                0 <= j < k ==> is_point_of(*run, *mean, dims@[j], trials, #[trigger] points@[j]),
        decreases dims@.len() - k,
    {
        let dim = dims[k];
        let results = run_trials(dim, trials, run);
        let avg_best_obj = mean(&results);
        let point = aggregate(dim, &results, avg_best_obj);
        assert(is_point_of(*run, *mean, dim, trials, point)) by {
            assert(point.summarizes(dim, results@, avg_best_obj));
        }
        points.push(point);
        k += 1;
    }
    points
}

/// Measures one problem: in the dimensions that the problem supports of
/// `default_dims`, and in the order in which it gives them.
pub fn measure_benchmark<
    B: BenchmarkFn,
    R: Fn(usize, u64) -> RunResult,
    M: Fn(&Vec<RunResult>) -> u64,
>(benchmark: &B, default_dims: &[usize], trials: usize, run: &R, mean: &M) -> (points: Vec<
    StatPoint,
>)
    requires
        trials >= 1,
        forall|any_dim: usize, any_seed: u64| call_requires(*run, (any_dim, any_seed)),
        forall|any: &Vec<RunResult>| call_requires(*mean, (any,)),
    ensures
        is_measurement(
            *run,
            *mean,
            benchmark.spec_supported_dims(default_dims@),
            trials,
            points@,
        ),
{
    let dims = benchmark.supported_dims(default_dims);
    measure_problem(&dims, trials, run, mean)
}

} // verus!
