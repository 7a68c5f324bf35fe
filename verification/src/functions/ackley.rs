use vstd::prelude::*;
use super::{BenchmarkFn, all_dims};

verus! {

/// The Ackley function, in any dimension.
pub struct Ackley;

impl BenchmarkFn for Ackley {
    open spec fn spec_name(&self) -> Seq<char> {
        "Ackley"@
    }

    fn name(&self) -> (name: &str) {
        "Ackley"
    }

    fn supported_dims(&self, default_dims: &[usize]) -> (dims: Vec<usize>) {
        all_dims(default_dims)
    }
}

} // verus!
