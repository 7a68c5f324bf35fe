//! What a measurement runs: which problems, in which dimensions, with which
//! seeds.

use vstd::prelude::*;

verus! {

/// Distance between the seeds of two consecutive trials.
pub const SEED_STRIDE: u64 = 702983;

/// Seed of the trial with the given index: the index times the stride, as far
/// as 64 bits hold it.
pub open spec fn spec_trial_seed(index: u64) -> u64 {
    ((index * SEED_STRIDE) % 0x1_0000_0000_0000_0000) as u64
}

/// Seed of the trial with the given index: the index times the stride. Beyond
/// 64 bits the product wraps around.
pub fn trial_seed(index: u64) -> (seed: u64)
    ensures
        seed == spec_trial_seed(index),
        index * SEED_STRIDE <= u64::MAX ==> seed == index * SEED_STRIDE,
{
    index.wrapping_mul(SEED_STRIDE)
}

/// While the product fits 64 bits, the seed of a trial is its index times the
/// stride; it depends on nothing but the index.
pub proof fn seed_is_index_times_stride(index: u64)
    requires
        index * SEED_STRIDE <= u64::MAX,
    ensures
        spec_trial_seed(index) == index * 702983,
{
}

/// Two trials with different indices never share a seed, not even where the
/// product wraps around: the stride is odd.
pub proof fn distinct_trials_have_distinct_seeds(first: u64, second: u64)
    requires
        first != second,
    ensures
        spec_trial_seed(first) != spec_trial_seed(second),
{
    if spec_trial_seed(first) == spec_trial_seed(second) {
        let m = 0x1_0000_0000_0000_0000int;
        let c = SEED_STRIDE as int;
        let inverse = 11558306107514786743int;
        let a = first * c;
        let b = second * c;
        let d = first - second;
        let q = a / m - b / m;
        assert(a == m * (a / m) + a % m) by {
            vstd::arithmetic::div_mod::lemma_fundamental_div_mod(a, m);
        }
        assert(b == m * (b / m) + b % m) by {
            vstd::arithmetic::div_mod::lemma_fundamental_div_mod(b, m);
        }
        assert(d * c == q * m) by (nonlinear_arith)
            requires
                a == first * c,
                b == second * c,
                d == first - second,
                a - b == m * (a / m) - m * (b / m),
                q == a / m - b / m,
        ;
        let t = q * inverse - d * 440473;
        assert(d == m * t) by (nonlinear_arith)
            requires
                d * c == q * m,
                c == 702983,
                inverse == 11558306107514786743int,
                m == 0x1_0000_0000_0000_0000int,
                t == q * inverse - d * 440473,
        ;
        assert(t == 0) by (nonlinear_arith)
            requires
                d == m * t,
                -m < d < m,
                m > 0,
        ;
        assert(false);
    }
}

/// The seeds of a batch of `trials` trials, in the order of the trials.
pub fn trial_seeds(trials: usize) -> (seeds: Vec<u64>)
    ensures
        seeds@.len() == trials,
        forall|i: int| 0 <= i < trials ==> seeds@[i] == spec_trial_seed(i as u64),
{
    let mut seeds: Vec<u64> = Vec::new();
    let mut i: usize = 0;
    while i < trials
        invariant
            i <= trials,
            seeds@.len() == i,
            forall|k: int| 0 <= k < i ==> seeds@[k] == spec_trial_seed(k as u64),
        decreases trials - i,
    {
        seeds.push(trial_seed(i as u64));
        i += 1;
    }
    seeds
}

/// The dimensions that are measured where a problem does not choose its own:
/// the one that was asked for, or else 10, 50 and 100.
pub open spec fn spec_default_dims(dim: Option<usize>) -> Seq<usize> {
    match dim {
        Some(dim) => seq![dim],
        None => seq![10usize, 50usize, 100usize],
    }
}

/// The dimensions that are measured where a problem does not choose its own:
/// the one that was asked for, or else 10, 50 and 100.
pub fn default_dims(dim: Option<usize>) -> (dims: Vec<usize>)
    ensures
        dims@ == spec_default_dims(dim),
{
    let dims = match dim {
        Some(dim) => vec![dim],
        None => vec![10, 50, 100],
    };
    assert(dims@ =~= spec_default_dims(dim));
    dims
}

/// What `str::to_lowercase` makes of a text.
pub uninterp spec fn lowercase(text: Seq<char>) -> Seq<char>;

/// `str::to_lowercase`: the lowercase equivalent of `text`, which depends on
/// nothing but `text`.
#[verifier::external_body]
fn to_lowercase(text: &str) -> (lower: String)
    ensures
        lower@ == lowercase(text@),
{
    text.to_lowercase()
}

/// Whether a problem is picked: every problem is where none was asked for,
/// and else each whose name, in lowercase, is the one asked for.
pub open spec fn is_picked(name: Seq<char>, wanted: Option<Seq<char>>) -> bool {
    match wanted {
        Some(wanted) => name == wanted,
        None => true,
    }
}

/// Whether `picked` lists, in rising order, the places of the names that are
/// picked.
pub open spec fn picks(picked: Seq<usize>, names: Seq<Seq<char>>, wanted: Option<Seq<char>>) -> bool {
    &&& forall|k: int|
        0 <= k < picked.len() ==> (#[trigger] picked[k]) < names.len() && is_picked(
            names[picked[k] as int],
            wanted,
        )
    &&& forall|k: int, l: int| 0 <= k < l < picked.len() ==> picked[k] < picked[l]
    &&& forall|i: int|
        0 <= i < names.len() && is_picked(#[trigger] names[i], wanted) ==> picked.contains(
            i as usize,
        )
}

/// The texts of a list of strings.
pub open spec fn texts(strings: Seq<String>) -> Seq<Seq<char>> {
    strings.map_values(|string: String| string@)
}

/// The places, in rising order, of the names that are equal to the one asked
/// for; every place where none was asked for.
pub fn pick(names: &Vec<String>, wanted: &Option<String>) -> (picked: Vec<usize>)
    ensures
        picks(
            picked@,
            texts(names@),
            match wanted {
                Some(wanted) => Some(wanted@),
                None => None,
            },
        ),
{
    let ghost all = texts(names@);
    let ghost goal = match wanted {
        Some(wanted) => Some(wanted@),
        None => None,
    };
    let mut picked: Vec<usize> = Vec::new();
    let mut i: usize = 0;
    while i < names.len()
        invariant
            i <= names.len(),
            all == texts(names@),
            goal == match wanted {
                Some(wanted) => Some(wanted@),
                None => None,
            },
            forall|k: int|
                0 <= k < picked@.len() ==> (#[trigger] picked@[k]) < i && is_picked(
                    all[picked@[k] as int],
                    goal,
                ),
            forall|k: int, l: int| 0 <= k < l < picked@.len() ==> picked@[k] < picked@[l],
            forall|j: int|
                0 <= j < i && is_picked(#[trigger] all[j], goal) ==> picked@.contains(j as usize),
        decreases names.len() - i,
    {
        let taken = match wanted {
            Some(wanted) => names[i] == *wanted,
            None => true,
        };
        assert(all[i as int] == names@[i as int]@);
        assert(taken == is_picked(all[i as int], goal));
        let ghost before = picked@;
        if taken {
            picked.push(i);
            assert(picked@[picked@.len() - 1] == i);
            assert forall|k: int| 0 <= k < picked@.len() - 1 implies picked@[k] == before[k] by {}
        }
        assert forall|j: int| 0 <= j < i + 1 && is_picked(#[trigger] all[j], goal) implies picked@.contains(
            j as usize,
        ) by {
            if j < i {
                assert(before.contains(j as usize));
                let k = choose|k: int| 0 <= k < before.len() && before[k] == j as usize;
                assert(picked@[k] == j as usize);
            } else {
                assert(picked@[picked@.len() - 1] == j as usize);
            }
        }
        i += 1;
    }
    picked
}

/// The lowercase equivalents of the names, in their order.
pub open spec fn lowercased(names: Seq<&str>) -> Seq<Seq<char>> {
    names.map_values(|name: &str| lowercase(name@))
}

/// The places, in rising order, of the problems to run: every problem where
/// none was asked for, and else each whose name is the one asked for, letter
/// case set aside.
pub fn select(names: &Vec<&str>, wanted: Option<&str>) -> (picked: Vec<usize>)
    ensures
        picks(
            picked@,
            lowercased(names@),
            match wanted {
                Some(wanted) => Some(lowercase(wanted@)),
                None => None,
            },
        ),
{
    let mut lowered: Vec<String> = Vec::new();
    let mut i: usize = 0;
    while i < names.len()
        invariant
            i <= names.len(),
            lowered@.len() == i,
            forall|k: int| 0 <= k < i ==> (#[trigger] lowered@[k])@ == lowercase(names@[k]@),
        decreases names.len() - i,
    {
        let lower = to_lowercase(names[i]);
        lowered.push(lower);
        i += 1;
    }
    assert(texts(lowered@) =~= lowercased(names@));
    let goal = match wanted {
        Some(wanted) => Some(to_lowercase(wanted)),
        None => None,
    };
    pick(&lowered, &goal)
}

} // verus!
