use vstd::prelude::*;

verus! {

/// True when a failure recorded at time `t` still falls inside the sliding
/// window of length `within` ending at `at` (times in milliseconds).
pub open spec fn recent(t: u64, at: u64, within: u64) -> bool {
    at <= t + within
}

/// The failures of `s` that are still inside the window of length `within`
/// ending at `at`, in their original order.
pub open spec fn retained(s: Seq<u64>, at: u64, within: u64) -> Seq<u64>
    decreases s.len(),
{
    if s.len() == 0 {
        Seq::empty()
    } else {
        let rest = retained(s.drop_first(), at, within);
        if recent(s[0], at, within) {
            seq![s[0]] + rest
        } else {
            rest
        }
    }
}

/// A sliding-window bound on failures: at most `max_failures` within any
/// window of `within` milliseconds. Exceeding the bound escalates a restart
/// into a shutdown.
#[derive(Clone, Copy, Debug)]
pub struct FrequencyPolicy {
    pub max_failures: usize,
    pub within: u64,
}

/// Per-child (or per-group) failure history under a frequency policy.
#[derive(Debug)]
pub struct FrequencyStats {
    pub max_failures: usize,
    pub within: u64,
    pub failures: Vec<u64>,
}

impl FrequencyPolicy {
    /// Fresh, empty failure statistics under this policy.
    pub fn new_stats(&self) -> (r: FrequencyStats)
        ensures
            r.max_failures == self.max_failures,
            r.within == self.within,
            r.failures@ == Seq::<u64>::empty(),
    {
        FrequencyStats { max_failures: self.max_failures, within: self.within, failures: Vec::new() }
    }
}

impl Default for FrequencyPolicy {
    /// One failure per five-second window.
    fn default() -> (r: Self)
        ensures
            r.max_failures == 1,
            r.within == 5000,
    {
        FrequencyPolicy { max_failures: 1, within: 5000 }
    }
}

impl FrequencyStats {
    /// Records a failure at time `at`, forgets failures that have slid out
    /// of the window, and reports whether the bound is now exceeded.
    pub fn report(&mut self, at: u64) -> (r: bool)
        ensures
            final(self).max_failures == old(self).max_failures,
            final(self).within == old(self).within,
            final(self).failures@ == retained(old(self).failures@, at, old(self).within).push(at),
            r == (final(self).failures@.len() > old(self).max_failures),
    {
        let within = self.within;
        let mut kept: Vec<u64> = Vec::new();
        let mut i: usize = 0;
        proof {
            assert(self.failures@.skip(0) =~= self.failures@);
            assert(Seq::<u64>::empty() + retained(self.failures@, at, within) =~= retained(
                self.failures@,
                at,
                within,
            ));
        }
        while i < self.failures.len()
            invariant
                i <= self.failures@.len(),
                self.failures@ == old(self).failures@,
                within == old(self).within,
                retained(self.failures@, at, within) == kept@ + retained(
                    self.failures@.skip(i as int),
                    at,
                    within,
                ),
            decreases self.failures@.len() - i,
        {
            let t = self.failures[i];
            let keep = if t >= at {
                true
            } else {
                at - t <= within
            };
            proof {
                let s = self.failures@;
                assert(s.skip(i as int).len() > 0);
                assert(s.skip(i as int)[0] == t);
                assert(s.skip(i as int).drop_first() =~= s.skip(i as int + 1));
                assert(keep == recent(t, at, within));
                if keep {
                    assert(kept@.push(t) + retained(s.skip(i as int + 1), at, within) =~= kept@ + (
                    seq![t] + retained(s.skip(i as int + 1), at, within)));
                }
            }
            if keep {
                kept.push(t);
            }
            i += 1;
        }
        proof {
            let s = self.failures@;
            assert(s.skip(s.len() as int).len() == 0);
            assert(kept@ + retained(s.skip(s.len() as int), at, within) =~= kept@);
        }
        kept.push(at);
        self.failures = kept;
        self.failures.len() > self.max_failures
    }
}

} // verus!
