//! The battery gauge and the other analog probes: how one raw value is
//! made of several samples.

use vstd::prelude::*;

verus! {

/// The sum of the samples `samples`.
pub open spec fn total(samples: Seq<u16>) -> nat
    decreases samples.len(),
{
    if samples.len() == 0 {
        0
    } else {
        total(samples.drop_last()) + samples.last() as nat
    }
}

/// The raw value of a probe: the mean of the samples that were read, rounded
/// down. A sample that could not be read counts as 0.
pub fn mean_sample(samples: &Vec<u16>) -> (mean: u16)
    requires
        samples.len() > 0,
    ensures
        mean as nat == total(samples@) / samples.len() as nat,
{
    let mut sum: u128 = 0;
    let mut i: usize = 0;
    assert(samples@.subrange(0, 0) == Seq::<u16>::empty());
    while i < samples.len()
        invariant
            i <= samples.len(),
            sum as nat == total(samples@.subrange(0, i as int)),
            sum <= 0xffff * i,
        decreases samples.len() - i,
    {
        assert(samples@.subrange(0, i + 1).drop_last() == samples@.subrange(0, i as int));
        assert(samples@.subrange(0, i + 1).last() == samples@[i as int]);
        sum = sum + samples[i] as u128;
        i = i + 1;
    }
    assert(samples@.subrange(0, samples.len() as int) == samples@);
    let n: u128 = samples.len() as u128;
    let mean: u128 = sum / n;
    assert(mean <= 0xffff) by (nonlinear_arith)
        requires
            mean == sum / n,
            n > 0,
            sum <= 0xffff * n,
    ;
    mean as u16
}

} // verus!
