//! A generator of uniformly distributed samples.

use vstd::prelude::*;

verus! {

/// Holds the uniform distribution of `rand` over `u64`. The distribution's
/// own type is bounded by a trait of `rand`, so it is kept behind this
/// opaque struct; nothing of its contents is visible to proofs.
#[verifier::external_body]
pub struct UniformRange {
    inner: rand::distr::Uniform<u64>,
}

/// The thread-local generator of `rand`, carried as an opaque value.
#[verifier::external_type_specification]
#[verifier::external_body]
pub struct ExThreadRng(rand::rngs::ThreadRng);

/// The inclusive lower bound that a uniform distribution was made with.
pub uninterp spec fn uniform_lower(distribution: UniformRange) -> int;

/// The exclusive upper bound that a uniform distribution was made with.
pub uninterp spec fn uniform_upper(distribution: UniformRange) -> int;

/// Calls `rand::distr::Uniform::new(lower, upper)` and unwraps the result.
/// `rand` fails only when `lower >= upper`, which the precondition excludes;
/// the distribution made remembers both bounds.
#[verifier::external_body]
fn uniform_between(lower: u64, upper: u64) -> (distribution: UniformRange)
    requires
        lower < upper,
    ensures
        uniform_lower(distribution) == lower,
        uniform_upper(distribution) == upper,
{
    UniformRange { inner: rand::distr::Uniform::new(lower, upper).unwrap() }
}

/// Calls `rand::rng()`, the handle to the thread-local generator.
#[verifier::external_body]
fn thread_generator() -> rand::rngs::ThreadRng {
    rand::rng()
}

/// Calls `Distribution::sample` on a uniform distribution of `u64`. Which
/// value comes back is up to the generator; `rand` documents only that it
/// lies in the half-open range that the distribution was made with.
#[verifier::external_body]
fn draw_uniform(distribution: &UniformRange, rng: &mut rand::rngs::ThreadRng) -> (value: u64)
    ensures
        uniform_lower(*distribution) <= value < uniform_upper(*distribution),
{
    rand::distr::Distribution::sample(&distribution.inner, rng)
}

/// An endless source of samples drawn uniformly from `[lower, upper)`.
pub struct RandomSignal {
    distribution: UniformRange,
    rng: rand::rngs::ThreadRng,
    history: Ghost<Seq<u64>>,
}

impl RandomSignal {
    /// The inclusive lower bound of every sample.
    pub closed spec fn lower(&self) -> int {
        uniform_lower(self.distribution)
    }

    /// The exclusive upper bound of every sample.
    pub closed spec fn upper(&self) -> int {
        uniform_upper(self.distribution)
    }

    /// The samples taken from the signal so far, in the order they came.
    pub closed spec fn history(&self) -> Seq<u64> {
        self.history@
    }

    /// A signal over `[lower, upper)`, from which nothing has been taken yet.
    pub fn new(lower: u64, upper: u64) -> (signal: Self)
        requires
            lower < upper,
        ensures
            signal.lower() == lower,
            signal.upper() == upper,
            signal.history() == Seq::<u64>::empty(),
    {
        RandomSignal {
            distribution: uniform_between(lower, upper),
            rng: thread_generator(),
            history: Ghost(Seq::empty()),
        }
    }

    /// The next sample. The signal never ends, so this is always `Some`.
    pub fn next(&mut self) -> (sample: Option<u64>)
        ensures
            sample is Some,
            old(self).lower() <= sample->Some_0 < old(self).upper(),
            final(self).lower() == old(self).lower(),
            final(self).upper() == old(self).upper(),
            final(self).history() == old(self).history().push(sample->Some_0),
    {
        let sample: u64 = draw_uniform(&self.distribution, &mut self.rng);
        proof {
            self.history@ = self.history@.push(sample);
        }
        Some(sample)
    }
}

} // verus!
