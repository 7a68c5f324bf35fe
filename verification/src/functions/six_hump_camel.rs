use vstd::prelude::*;
use super::BenchmarkFn;

verus! {

/// The six-hump camel function, which has two variables.
pub struct SixHumpCamel;

impl BenchmarkFn for SixHumpCamel {
    open spec fn spec_name(&self) -> Seq<char> {
        "SixHumpCamel"@
    }

    open spec fn spec_supported_dims(&self, default_dims: Seq<usize>) -> Seq<usize> {
        seq![2usize]
    }

    fn name(&self) -> (name: &str) {
        "SixHumpCamel"
    }

    fn supported_dims(&self, _default_dims: &[usize]) -> (dims: Vec<usize>) {
        vec![2]
    }
}

} // verus!
