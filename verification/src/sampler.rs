use vstd::prelude::*;

verus! {

/// Minimum delay between two published snapshots, in milliseconds. Polling
/// the OS CPU accounting faster than its own refresh granularity yields
/// meaningless or duplicate readings, so the sampler is never tuned below
/// this interval.
pub const MIN_SAMPLE_INTERVAL_MS: u64 = 200;

/// Whether a sampler that last published at `last` (in milliseconds, `None`
/// before the first publish) may publish again at time `now_ms`.
pub open spec fn gate_accepts(last: Option<u64>, now_ms: u64) -> bool {
    match last {
        Option::None => true,
        Option::Some(t) => now_ms >= t && now_ms - t >= MIN_SAMPLE_INTERVAL_MS,
    }
}

/// Enforces the sampling-interval lower bound: it remembers the timestamp of
/// the last accepted tick and accepts a new one only after at least
/// `MIN_SAMPLE_INTERVAL_MS` milliseconds have passed.
pub struct SamplerGate {
    last: Option<u64>,
}

impl SamplerGate {
    /// The timestamp of the last accepted tick, if any.
    pub closed spec fn view(&self) -> Option<u64> {
        self.last
    }

    /// A fresh gate that accepts its first tick at any time.
    pub fn new() -> (g: SamplerGate)
        ensures
            g@ is None,
    {
        SamplerGate { last: None }
    }

    /// Asks whether a snapshot may be published at time `now_ms`. Returns
    /// true exactly when the interval lower bound allows it, and then
    /// records `now_ms` as the new last publish time.
    pub fn try_tick(&mut self, now_ms: u64) -> (publish: bool)
        ensures
            publish == gate_accepts(old(self)@, now_ms),
            final(self)@ == (if publish {
                Option::Some(now_ms)
            } else {
                old(self)@
            }),
    {
        let accept = match self.last {
            None => true,
            Some(t) => now_ms >= t && now_ms - t >= MIN_SAMPLE_INTERVAL_MS,
        };
        if accept {
            self.last = Some(now_ms);
        }
        accept
    }
}

/// Two accepted ticks always lie at least the minimum interval apart.
pub proof fn lemma_published_ticks_spaced(t1: u64, t2: u64)
    requires
        gate_accepts(Some(t1), t2),
    ensures
        t2 >= t1,
        t2 - t1 >= MIN_SAMPLE_INTERVAL_MS,
{
}

} // verus!
