//! Exact statistics of a batch of whole-number samples.
//!
//! The mean and the population variance of whole numbers are fractions. A
//! [`Moments`] holds their numerators, so that nothing is rounded: for `n`
//! samples with sum `S`, the mean is `S / n` and the population variance is
//! `spread / n²`, where `spread = n · Σx² − S²`. The spread of samples of 64
//! bits can take up to 256 bits, so it is held as a [`Wide`].

use vstd::prelude::*;

verus! {

/// Sum of the samples.
pub open spec fn total(samples: Seq<u64>) -> int
    decreases samples.len(),
{
    if samples.len() == 0 {
        0
    } else {
        total(samples.drop_last()) + samples.last()
    }
}

/// Sum of the squares of the samples.
pub open spec fn square_total(samples: Seq<u64>) -> int
    decreases samples.len(),
{
    if samples.len() == 0 {
        0
    } else {
        square_total(samples.drop_last()) + samples.last() * samples.last()
    }
}

/// Sum, over the samples `x`, of the squares of `scale · x − center`.
pub open spec fn scaled_deviations(samples: Seq<u64>, scale: int, center: int) -> int
    decreases samples.len(),
{
    if samples.len() == 0 {
        0
    } else {
        scaled_deviations(samples.drop_last(), scale, center) + (scale * samples.last() - center)
            * (scale * samples.last() - center)
    }
}

/// Sum of the squared deviations of the samples from their mean, times the
/// square of their number `n`: the sum of the squares of `n · x − S`, where `S`
/// is the sum of the samples. Divided by the cube of `n` it is the population
/// variance.
pub open spec fn squared_deviations(samples: Seq<u64>) -> int {
    scaled_deviations(samples, samples.len() as int, total(samples))
}

/// The spread of the samples: `n · Σx² − S²`, which is the population
/// variance times `n²`.
pub open spec fn spread_of(samples: Seq<u64>) -> int {
    samples.len() * square_total(samples) - total(samples) * total(samples)
}

/// The number above which a [`Wide`] cannot go: two to the power of 256.
pub open spec fn wide_limit() -> int {
    0x1_0000_0000_0000_0000_0000_0000_0000_0000_0000_0000_0000_0000_0000_0000_0000_0000int
}

/// A whole number of up to 256 bits, in two halves.
#[derive(Clone, Copy, Debug, PartialEq, Eq, Hash)]
pub struct Wide {
    /// The upper 128 bits.
    pub high: u128,
    /// The lower 128 bits.
    pub low: u128,
}

impl Wide {
    /// The number: `high · 2¹²⁸ + low`.
    pub open spec fn value(self) -> int {
        self.high * 0x1_0000_0000_0000_0000_0000_0000_0000_0000 + self.low
    }

    /// The number `low`.
    pub fn from_low(low: u128) -> (wide: Wide)
        ensures
            wide.value() == low,
            wide == (Wide { high: 0, low }),
    {
        Wide { high: 0, low }
    }

    /// This number and `term` together, where the sum stays below 256 bits.
    pub fn plus(self, term: u128) -> (sum: Wide)
        requires
            self.value() + term < wide_limit(),
        ensures
            sum.value() == self.value() + term,
    {
        let room = u128::MAX - self.low;
        if term <= room {
            Wide { high: self.high, low: self.low + term }
        } else {
            assert(self.high < 0xFFFF_FFFF_FFFF_FFFF_FFFF_FFFF_FFFF_FFFF) by (nonlinear_arith)
                requires
                    self.high * 0x1_0000_0000_0000_0000_0000_0000_0000_0000 + self.low + term
                        < wide_limit(),
                    self.low + term >= 0x1_0000_0000_0000_0000_0000_0000_0000_0000,
                    self.high <= 0xFFFF_FFFF_FFFF_FFFF_FFFF_FFFF_FFFF_FFFF,
                    wide_limit() == 0x1_0000_0000_0000_0000_0000_0000_0000_0000
                        * 0x1_0000_0000_0000_0000_0000_0000_0000_0000,
            ;
            Wide { high: self.high + 1, low: term - room - 1 }
        }
    }
}

/// Number, sum and spread of a batch of samples.
#[derive(Clone, Copy, Debug, PartialEq, Eq, Hash)]
pub struct Moments {
    /// Number of samples, `n`.
    pub count: usize,
    /// Sum of the samples: the mean times `n`.
    pub total: u128,
    /// The population variance times `n²`; its square root is the population
    /// standard deviation times `n`.
    pub spread: Wide,
}

impl Moments {
    /// Whether these are the moments of `samples`: the mean is the arithmetic
    /// average, and the variance is the mean of the squared deviations from it.
    pub open spec fn describes(self, samples: Seq<u64>) -> bool {
        &&& self.count == samples.len()
        &&& self.total == total(samples)
        &&& self.spread.value() * self.count == squared_deviations(samples)
        &&& self.spread.value() == spread_of(samples)
    }
}

pub proof fn lemma_total_bounds(samples: Seq<u64>)
    ensures
        0 <= total(samples) <= samples.len() * u64::MAX,
        0 <= square_total(samples),
    decreases samples.len(),
{
    if samples.len() > 0 {
        lemma_total_bounds(samples.drop_last());
        let x = samples.last() as int;
        assert(0 <= x * x) by (nonlinear_arith);
        assert((samples.len() - 1) * u64::MAX + u64::MAX == samples.len() * u64::MAX)
            by (nonlinear_arith);
    }
}

proof fn lemma_scaled_deviations_expand(samples: Seq<u64>, scale: int, center: int)
    ensures
        scaled_deviations(samples, scale, center) == scale * scale * square_total(samples) - 2
            * scale * center * total(samples) + samples.len() * center * center,
        0 <= scaled_deviations(samples, scale, center),
    decreases samples.len(),
{
    if samples.len() > 0 {
        let rest = samples.drop_last();
        lemma_scaled_deviations_expand(rest, scale, center);
        let x = samples.last() as int;
        let q = square_total(rest);
        let s = total(rest);
        let k = rest.len() as int;
        assert((scale * x - center) * (scale * x - center) == scale * scale * (x * x) - 2 * scale
            * center * x + center * center) by (nonlinear_arith);
        assert(0 <= (scale * x - center) * (scale * x - center)) by (nonlinear_arith);
        assert(scale * scale * (q + x * x) == scale * scale * q + scale * scale * (x * x))
            by (nonlinear_arith);
        assert(2 * scale * center * (s + x) == 2 * scale * center * s + 2 * scale * center * x)
            by (nonlinear_arith);
        assert((k + 1) * center * center == k * center * center + center * center)
            by (nonlinear_arith);
    }
}

/// The squared deviations are `n` times `n · Σx² − S²`; so that difference is
/// not negative.
pub proof fn lemma_spread(samples: Seq<u64>)
    ensures
        squared_deviations(samples) == samples.len() * (samples.len() * square_total(samples)
            - total(samples) * total(samples)),
        0 <= squared_deviations(samples),
        samples.len() >= 1 ==> total(samples) * total(samples) <= samples.len() * square_total(
            samples,
        ),
{
    let n = samples.len() as int;
    let s = total(samples);
    let q = square_total(samples);
    lemma_scaled_deviations_expand(samples, n, s);
    assert(n * n * q - 2 * n * s * s + n * s * s == n * (n * q - s * s)) by (nonlinear_arith);
    if n >= 1 {
        assert(s * s <= n * q) by (nonlinear_arith)
            requires
                n >= 1,
                0 <= n * (n * q - s * s),
        ;
    }
}

/// One more sample adds to the spread the squares of its distances from the
/// samples before it.
proof fn lemma_spread_push(samples: Seq<u64>, x: u64)
    ensures
        spread_of(samples.push(x)) == spread_of(samples) + scaled_deviations(samples, 1, x as int),
        0 <= scaled_deviations(samples, 1, x as int),
{
    let longer = samples.push(x);
    assert(longer.drop_last() =~= samples);
    assert(longer.last() == x);
    lemma_scaled_deviations_expand(samples, 1, x as int);
    let k = samples.len() as int;
    let q = square_total(samples);
    let t = total(samples);
    let v = x as int;
    assert(square_total(longer) == q + v * v);
    assert(total(longer) == t + v);
    assert((k + 1) * (q + v * v) - (t + v) * (t + v) == (k * q - t * t) + (1 * 1 * q - 2 * 1 * v
        * t + k * v * v)) by (nonlinear_arith);
}

/// The spread of the first `k` samples is at most that of all of them.
proof fn lemma_spread_of_prefix(samples: Seq<u64>, k: int)
    requires
        0 <= k <= samples.len(),
    ensures
        0 <= spread_of(samples.take(k)) <= spread_of(samples),
    decreases samples.len(),
{
    if k == samples.len() {
        assert(samples.take(k) =~= samples);
        lemma_spread(samples);
        if samples.len() == 0 {
            assert(spread_of(samples) == 0);
        } else {
            assert(0 <= spread_of(samples)) by (nonlinear_arith)
                requires
                    samples.len() >= 1,
                    0 <= samples.len() * spread_of(samples),
            ;
        }
    } else {
        let rest = samples.drop_last();
        lemma_spread_of_prefix(rest, k);
        assert(rest.take(k) =~= samples.take(k));
        lemma_spread_push(rest, samples.last());
        assert(rest.push(samples.last()) =~= samples);
    }
}

/// The squared distances of the first `k` samples from a value are at most
/// those of all of them.
proof fn lemma_distances_of_prefix(samples: Seq<u64>, k: int, x: int)
    requires
        0 <= k <= samples.len(),
    ensures
        0 <= scaled_deviations(samples.take(k), 1, x) <= scaled_deviations(samples, 1, x),
    decreases samples.len(),
{
    if k == samples.len() {
        assert(samples.take(k) =~= samples);
        lemma_scaled_deviations_expand(samples, 1, x);
    } else {
        let rest = samples.drop_last();
        lemma_distances_of_prefix(rest, k, x);
        assert(rest.take(k) =~= samples.take(k));
        let d = 1 * samples.last() - x;
        assert(0 <= d * d) by (nonlinear_arith);
    }
}

/// The moments of the samples by running sums, where the sum of the squares
/// times the number of samples can be held.
fn moments_by_sums(samples: &Vec<u64>) -> (moments: Option<Moments>)
    requires
        samples@.len() >= 1,
    ensures
        moments matches Some(m) ==> m.describes(samples@),
{
    let n = samples.len();
    let mut sum: u128 = 0;
    let mut squares: u128 = 0;
    let mut i: usize = 0;
    while i < n
        invariant
            i <= n,
            n == samples@.len(),
            sum == total(samples@.take(i as int)),
            squares == square_total(samples@.take(i as int)),
        decreases n - i,
    {
        let x = samples[i] as u128;
        proof {
            let upto = samples@.take(i + 1);
            assert(upto.drop_last() =~= samples@.take(i as int));
            assert(upto.last() == samples@[i as int]);
            lemma_total_bounds(upto);
            assert(upto.len() * u64::MAX <= u64::MAX * u64::MAX) by (nonlinear_arith)
                requires
                    upto.len() <= u64::MAX,
            ;
            assert(x * x <= u64::MAX * u64::MAX) by (nonlinear_arith)
                requires
                    0 <= x <= u64::MAX,
            ;
        }
        sum = sum + x;
        match squares.checked_add(x * x) {
            Some(more) => {
                squares = more;
            },
            None => {
                return None;
            },
        }
        i += 1;
    }
    proof {
        assert(samples@.take(n as int) =~= samples@);
        lemma_spread(samples@);
    }
    match (n as u128).checked_mul(squares) {
        Some(scaled) => {
            let spread = scaled - sum * sum;
            proof {
                let d = scaled as int - sum as int * sum as int;
                assert(spread * n == n * d) by (nonlinear_arith)
                    requires
                        spread == d,
                ;
            }
            Some(Moments { count: n, total: sum, spread: Wide::from_low(spread) })
        },
        None => None,
    }
}

/// No spread takes more than 256 bits.
proof fn lemma_spread_below_limit(samples: Seq<u64>)
    requires
        samples.len() <= usize::MAX,
    ensures
        0 <= spread_of(samples) < wide_limit(),
{
    let n = samples.len() as int;
    let q = square_total(samples);
    let t = total(samples);
    lemma_square_total_bound(samples);
    lemma_spread_of_prefix(samples, n);
    assert(samples.take(n) =~= samples);
    assert(0 <= t * t) by (nonlinear_arith);
    assert(n * q <= u64::MAX * (u64::MAX * (u64::MAX * u64::MAX))) by (nonlinear_arith)
        requires
            0 <= n <= u64::MAX,
            0 <= q <= n * (u64::MAX * u64::MAX),
    ;
    assert(u64::MAX * (u64::MAX * (u64::MAX * u64::MAX)) < wide_limit()) by (nonlinear_arith)
        requires
            u64::MAX == 0xFFFF_FFFF_FFFF_FFFF,
            wide_limit()
                == 0x1_0000_0000_0000_0000_0000_0000_0000_0000_0000_0000_0000_0000_0000_0000_0000_0000int,
    ;
}

proof fn lemma_square_total_bound(samples: Seq<u64>)
    ensures
        0 <= square_total(samples) <= samples.len() * (u64::MAX * u64::MAX),
    decreases samples.len(),
{
    if samples.len() > 0 {
        lemma_square_total_bound(samples.drop_last());
        let x = samples.last() as int;
        assert(0 <= x * x <= u64::MAX * u64::MAX) by (nonlinear_arith)
            requires
                0 <= x <= u64::MAX,
        ;
        assert((samples.len() - 1) * (u64::MAX * u64::MAX) + u64::MAX * u64::MAX == samples.len()
            * (u64::MAX * u64::MAX)) by (nonlinear_arith);
    }
}

/// The spread of the samples: sample by sample, the squares of its distances
/// from the samples before it. Nothing on the way is larger than the spread.
fn spread_by_distances(samples: &Vec<u64>) -> (spread: Wide)
    ensures
        spread.value() == spread_of(samples@),
{
    let n = samples.len();
    let mut spread = Wide::from_low(0);
    let mut k: usize = 0;
    proof {
        lemma_spread_below_limit(samples@);
    }
    while k < n
        invariant
            k <= n,
            n == samples@.len(),
            spread.value() == spread_of(samples@.take(k as int)),
            spread_of(samples@) < wide_limit(),
        decreases n - k,
    {
        let x = samples[k];
        let ghost before = samples@.take(k as int);
        proof {
            assert(before.push(x) =~= samples@.take(k + 1));
            lemma_spread_push(before, x);
            lemma_spread_of_prefix(samples@, k + 1);
            assert(before.take(0) =~= Seq::<u64>::empty());
        }
        let mut i: usize = 0;
        while i < k
            invariant
                i <= k < n,
                n == samples@.len(),
                x == samples@[k as int],
                before == samples@.take(k as int),
                spread.value() == spread_of(before) + scaled_deviations(
                    before.take(i as int),
                    1,
                    x as int,
                ),
                spread_of(before) + scaled_deviations(before, 1, x as int) < wide_limit(),
            decreases k - i,
        {
            let y = samples[i];
            let d: u64 = if y >= x {
                y - x
            } else {
                x - y
            };
            let wide = d as u128;
            proof {
                let next = before.take(i + 1);
                assert(next.drop_last() =~= before.take(i as int));
                assert(next.last() == y);
                assert(wide * wide == (1 * y - x) * (1 * y - x)) by (nonlinear_arith)
                    requires
                        wide == y - x || wide == x - y,
                ;
                assert(wide * wide <= u64::MAX * u64::MAX) by (nonlinear_arith)
                    requires
                        0 <= wide <= u64::MAX,
                ;
                lemma_distances_of_prefix(before, i + 1, x as int);
            }
            spread = spread.plus(wide * wide);
            i += 1;
        }
        proof {
            assert(before.take(k as int) =~= before);
        }
        k += 1;
    }
    proof {
        assert(samples@.take(n as int) =~= samples@);
    }
    spread
}

impl Moments {
    /// The moments of `samples`, where there are samples.
    pub fn of(samples: &Vec<u64>) -> (moments: Option<Moments>)
        ensures
            moments is Some <==> samples@.len() >= 1,
            moments matches Some(m) ==> m.describes(samples@),
    {
        if samples.len() == 0 {
            return None;
        }
        match moments_by_sums(samples) {
            Some(moments) => Some(moments),
            None => {
                let spread = spread_by_distances(samples);
                proof {
                    lemma_spread(samples@);
                    assert(spread.value() * samples@.len() == samples@.len() * spread_of(samples@))
                        by (nonlinear_arith)
                        requires
                            spread.value() == spread_of(samples@),
                    ;
                }
                Some(Moments { count: samples.len(), total: sum_of(samples), spread })
            },
        }
    }
}

proof fn lemma_constant_samples(samples: Seq<u64>, value: u64, scale: int)
    requires
        forall|i: int| 0 <= i < samples.len() ==> samples[i] == value,
    ensures
        total(samples) == samples.len() * value,
        scaled_deviations(samples, scale, scale * value) == 0,
    decreases samples.len(),
{
    if samples.len() > 0 {
        lemma_constant_samples(samples.drop_last(), value, scale);
        assert((samples.len() - 1) * value + value == samples.len() * value) by (nonlinear_arith);
        let d = scale * samples.last() - scale * value;
        assert(d == 0);
        assert(d * d == 0);
    }
}

proof fn lemma_no_deviation(samples: Seq<u64>, scale: int, center: int)
    requires
        scaled_deviations(samples, scale, center) == 0,
    ensures
        forall|i: int| 0 <= i < samples.len() ==> scale * #[trigger] samples[i] == center,
    decreases samples.len(),
{
    if samples.len() > 0 {
        let rest = samples.drop_last();
        let d = scale * samples.last() - center;
        lemma_scaled_deviations_expand(rest, scale, center);
        assert(0 <= d * d) by (nonlinear_arith);
        assert(d == 0) by (nonlinear_arith)
            requires
                d * d == 0,
        ;
        lemma_no_deviation(rest, scale, center);
        assert forall|i: int| 0 <= i < samples.len() implies scale * #[trigger] samples[i]
            == center by {
            if i < rest.len() {
                assert(samples[i] == rest[i]);
            }
        }
    }
}

/// Samples that are all the same have no spread, however many and however
/// large they are: their standard deviation is zero, and their sum is their
/// number times the one value.
pub proof fn identical_samples_have_no_spread(samples: Seq<u64>, value: u64)
    requires
        samples.len() >= 1,
        forall|i: int| 0 <= i < samples.len() ==> samples[i] == value,
    ensures
        spread_of(samples) == 0,
        total(samples) == samples.len() * value,
        forall|moments: Moments| #[trigger]
            moments.describes(samples) ==> moments.spread == (Wide { high: 0, low: 0 })
                && moments.total == moments.count * value,
{
    let n = samples.len() as int;
    lemma_constant_samples(samples, value, n);
    assert(n * value == total(samples));
    lemma_spread(samples);
    assert(spread_of(samples) == 0) by (nonlinear_arith)
        requires
            n * spread_of(samples) == 0,
            n >= 1,
    ;
}

/// Only samples that are all the same have no spread.
pub proof fn no_spread_means_identical_samples(samples: Seq<u64>, moments: Moments)
    requires
        samples.len() >= 1,
        moments.describes(samples),
        moments.spread.value() == 0,
    ensures
        forall|i: int, j: int|
            0 <= i < samples.len() && 0 <= j < samples.len() ==> samples[i] == samples[j],
{
    let n = samples.len() as int;
    let s = total(samples);
    assert(moments.spread.value() * n == 0) by (nonlinear_arith)
        requires
            moments.spread.value() == 0,
    ;
    lemma_no_deviation(samples, n, s);
    assert forall|i: int, j: int|
        0 <= i < samples.len() && 0 <= j < samples.len() implies samples[i] == samples[j] by {
        let a = samples[i] as int;
        let b = samples[j] as int;
        assert(n * samples[i] == s);
        assert(n * samples[j] == s);
        assert(a == b) by (nonlinear_arith)
            requires
                n * a == n * b,
                n >= 1,
        ;
    }
}

/// The sum of the samples.
pub fn sum_of(samples: &Vec<u64>) -> (sum: u128)
    ensures
        sum == total(samples@),
{
    let n = samples.len();
    let mut sum: u128 = 0;
    let mut i: usize = 0;
    while i < n
        invariant
            i <= n,
            n == samples@.len(),
            sum == total(samples@.take(i as int)),
        decreases n - i,
    {
        proof {
            let upto = samples@.take(i + 1);
            assert(upto.drop_last() =~= samples@.take(i as int));
            assert(upto.last() == samples@[i as int]);
            lemma_total_bounds(upto);
            assert(upto.len() * u64::MAX <= u64::MAX * u64::MAX) by (nonlinear_arith)
                requires
                    upto.len() <= u64::MAX,
            ;
        }
        sum = sum + samples[i] as u128;
        i += 1;
    }
    proof {
        assert(samples@.take(n as int) =~= samples@);
    }
    sum
}

} // verus!
