//! Turning the outcome of one probe into one sample.

use vstd::prelude::*;

verus! {

/// The sample recorded when a probe gives no measurement, unless the caller
/// picks another.
pub const UNAVAILABLE_SAMPLE: u64 = 100;

/// What one probe came back with.
#[derive(Debug, Clone, Copy, PartialEq, Eq, Structural)]
pub enum ProbeOutcome {
    /// A reply arrived after this many milliseconds.
    Reply(u32),
    /// The probe failed or ran out of time.
    Unavailable,
}

/// What a probe is sent with.
#[derive(Debug, Clone, Copy)]
pub struct ProbeSettings {
    /// The four bytes of the IPv4 address to probe.
    pub address: [u8; 4],
    /// How long to wait for the reply, in milliseconds.
    pub timeout_ms: u64,
    /// The bytes sent along.
    pub payload: [u8; 4],
    /// How many hops the probe may take.
    pub ttl: u8,
    /// Whether the probe must travel in one piece.
    pub dont_fragment: bool,
}

/// The sample that stands for `outcome`: the measured time where there is
/// one, `fallback` where there is none.
pub open spec fn sample_of(outcome: ProbeOutcome, fallback: u64) -> u64 {
    match outcome {
        ProbeOutcome::Reply(rtt) => rtt as u64,
        ProbeOutcome::Unavailable => fallback,
    }
}

/// The sample to record for `outcome`. A failed probe is no error here: it
/// yields `fallback`, so that every tick records something.
pub fn sample_or_fallback(outcome: ProbeOutcome, fallback: u64) -> (sample: u64)
    ensures
        sample == sample_of(outcome, fallback),
{
    match outcome {
        ProbeOutcome::Reply(rtt) => rtt as u64,
        ProbeOutcome::Unavailable => fallback,
    }
}

/// The settings of the latency probe: a public resolver, one second of
/// patience, four bytes of payload.
pub fn latency_probe() -> (settings: ProbeSettings)
    ensures
        settings.address@ == seq![8u8, 8u8, 8u8, 8u8],
        settings.timeout_ms == 1000,
        settings.payload@ == seq![1u8, 2u8, 3u8, 4u8],
        settings.ttl == 117,
        settings.dont_fragment,
{
    let settings = ProbeSettings {
        address: [8u8, 8u8, 8u8, 8u8],
        timeout_ms: 1000,
        payload: [1u8, 2u8, 3u8, 4u8],
        ttl: 117,
        dont_fragment: true,
    };
    assert(settings.address@ =~= seq![8u8, 8u8, 8u8, 8u8]);
    assert(settings.payload@ =~= seq![1u8, 2u8, 3u8, 4u8]);
    settings
}

/// A failed probe always yields the fallback, whatever it is.
pub proof fn lemma_failure_yields_fallback(fallback: u64)
    ensures
        sample_of(ProbeOutcome::Unavailable, fallback) == fallback,
{
}

} // verus!
