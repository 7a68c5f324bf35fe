use vstd::prelude::*;
use super::BenchmarkFn;

verus! {

/// The cross-in-tray function, which has two variables.
pub struct CrossInTray;

impl BenchmarkFn for CrossInTray {
    open spec fn spec_name(&self) -> Seq<char> {
        "CrossInTray"@
    }

    open spec fn spec_supported_dims(&self, default_dims: Seq<usize>) -> Seq<usize> {
        seq![2usize]
    }

    fn name(&self) -> (name: &str) {
        "CrossInTray"
    }

    fn supported_dims(&self, _default_dims: &[usize]) -> (dims: Vec<usize>) {
        vec![2]
    }
}

} // verus!
