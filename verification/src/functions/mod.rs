//! The benchmark problems and what one trial on one of them comes to.

use vstd::prelude::*;
use vstd::slice::slice_to_vec;

pub mod ackley;
pub mod cross_in_tray;
pub mod griewank;
pub mod six_hump_camel;

verus! {

/// What one run of the optimizer came to. Times are whole nanoseconds, and
/// the best objective is carried as the bit pattern of a double, which this
/// library stores and never looks into.
#[derive(Clone, Copy, Debug, PartialEq, Eq, Hash)]
pub struct RunResult {
    /// Whether the best objective was within the problem's tolerance of its
    /// known global optimum.
    pub success: bool,
    pub runtime: u64,
    pub stage1_runtime: u64,
    pub stage2_runtime: u64,
    pub best_obj: u64,
    pub solution_set_size: usize,
}

impl RunResult {
    /// The record of one run. A stage whose time was not measured counts as
    /// zero.
    pub fn new(
        success: bool,
        runtime: u64,
        stage1_runtime: Option<u64>,
        stage2_runtime: Option<u64>,
        best_obj: u64,
        solution_set_size: usize,
    ) -> (result: RunResult)
        ensures
            result == (RunResult {
                success,
                runtime,
                stage1_runtime: match stage1_runtime {
                    Some(time) => time,
                    None => 0,
                },
                stage2_runtime: match stage2_runtime {
                    Some(time) => time,
                    None => 0,
                },
                best_obj,
                solution_set_size,
            }),
    {
        RunResult {
            success,
            runtime,
            stage1_runtime: match stage1_runtime {
                Some(time) => time,
                None => 0,
            },
            stage2_runtime: match stage2_runtime {
                Some(time) => time,
                None => 0,
            },
            best_obj,
            solution_set_size,
        }
    }
}

/// A benchmark problem: its name and the dimensions in which it is measured.
pub trait BenchmarkFn: Send + Sync {
    /// The name under which the problem is selected and its statistics are
    /// kept.
    spec fn spec_name(&self) -> Seq<char>;

    /// The dimensions in which the problem is measured when `default_dims` are
    /// asked for: all of them, in their order, unless the problem says
    /// otherwise.
    open spec fn spec_supported_dims(&self, default_dims: Seq<usize>) -> Seq<usize> {
        default_dims
    }

    fn name(&self) -> (name: &str)
        ensures
            name@ == self.spec_name(),
    ;

    fn supported_dims(&self, default_dims: &[usize]) -> (dims: Vec<usize>)
        ensures
            dims@ == self.spec_supported_dims(default_dims@),
    ;
}

/// The dimensions in which a problem without a dimension of its own is
/// measured: those that were asked for.
pub fn all_dims(default_dims: &[usize]) -> (dims: Vec<usize>)
    ensures
        dims@ == default_dims@,
{
    slice_to_vec(default_dims)
}

} // verus!
