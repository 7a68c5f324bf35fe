use vstd::prelude::*;
use super::{BenchmarkFn, all_dims};

verus! {

/// The Griewank function, in any dimension.
pub struct Griewank;

impl BenchmarkFn for Griewank {
    open spec fn spec_name(&self) -> Seq<char> {
        "Griewank"@
    }

    fn name(&self) -> (name: &str) {
        "Griewank"
    }

    fn supported_dims(&self, default_dims: &[usize]) -> (dims: Vec<usize>) {
        all_dims(default_dims)
    }
}

} // verus!
