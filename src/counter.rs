use vstd::prelude::*;

use crate::subdivision::HZ_SCALE;

verus! {

/// A phase accumulator that pulses once per cycle.
///
/// The phase runs over `0 .. period()`, where `period()` stands for a whole
/// cycle. The increment is the frequency in units of `1 / HZ_SCALE` hertz, so
/// `increment / period()` is the frequency divided by the sample rate: the
/// fraction of a cycle covered by one sample.
pub struct Counter {
    pub phase: u64,
    pub increment: u64,
    pub sample_rate: u32,
}

impl Counter {
    /// Phase units in one whole cycle.
    pub open spec fn period(self) -> nat {
        (self.sample_rate * HZ_SCALE) as nat
    }

    pub open spec fn wf(self) -> bool {
        &&& self.sample_rate > 0
        &&& self.phase < self.period()
    }

    /// Whether the next call of `update` pulses.
    pub open spec fn fires(self) -> bool {
        self.phase + self.increment >= self.period()
    }

    /// The counter after one call of `update`.
    pub open spec fn advanced(self) -> Counter {
        Counter {
            phase: if self.fires() {
                0
            } else {
                (self.phase + self.increment) as u64
            },
            ..self
        }
    }

    /// The counter after `n` calls of `update`.
    pub open spec fn after(self, n: nat) -> Counter
        decreases n,
    {
        if n == 0 {
            self
        } else {
            self.after((n - 1) as nat).advanced()
        }
    }

    /// A counter at phase zero, pulsing at `frequency` (in units of
    /// `1 / HZ_SCALE` hertz).
    pub fn new(sample_rate: u32, frequency: u64) -> (r: Self)
        requires
            sample_rate > 0,
        ensures
            r.wf(),
            r.phase == 0,
            r.increment == frequency,
            r.sample_rate == sample_rate,
    {
        Counter { phase: 0, increment: frequency, sample_rate }
    }

    /// Moves the phase back to zero; the frequency stays.
    pub fn reset(&mut self)
        ensures
            *final(self) == (Counter { phase: 0, ..*old(self) }),
    {
        self.phase = 0;
    }

    /// Advances the phase by one sample. Returns true, and moves the phase
    /// back to zero, exactly when the phase reaches a whole cycle; a cycle
    /// that the increment overshoots is not caught up.
    pub fn update(&mut self) -> (r: bool)
        requires
            old(self).wf(),
        ensures
            r == old(self).fires(),
            *final(self) == old(self).advanced(),
            final(self).wf(),
            r ==> final(self).phase == 0,
    {
        let period = self.sample_rate as u64 * HZ_SCALE;
        if self.increment >= period - self.phase {
            self.phase = 0;
            true
        } else {
            self.phase = self.phase + self.increment;
            false
        }
    }

    /// Sets the frequency (in units of `1 / HZ_SCALE` hertz) at once, without
    /// moving the phase.
    pub fn set_frequency(&mut self, freq: u64)
        ensures
            *final(self) == (Counter { increment: freq, ..*old(self) }),
    {
        self.increment = freq;
    }
}

/// The counter's phase climbs by the increment on each call until it fires.
proof fn lemma_phase_climbs(c: Counter, k: nat)
    requires
        c.wf(),
        c.phase == 0,
        k * c.increment < c.period(),
    ensures
        c.after(k).phase == k * c.increment,
        c.after(k).increment == c.increment,
        c.after(k).sample_rate == c.sample_rate,
    decreases k,
{
    if k == 0 {
        assert(0 * c.increment == 0);
    } else {
        let j = (k - 1) as nat;
        assert(j * c.increment <= k * c.increment) by (nonlinear_arith)
            requires
                j + 1 == k,
        ;
        lemma_phase_climbs(c, j);
        assert(j * c.increment + c.increment == k * c.increment) by (nonlinear_arith)
            requires
                j + 1 == k,
        ;
        assert(!c.after(j).fires());
    }
}

/// A counter that starts at phase zero with a positive increment pulses for
/// the first time on call number `ceil(period / increment)` (the calls before
/// it return false) and is back at phase zero after that call, so it pulses
/// exactly once in every such run of calls. After a pulse the phase is zero,
/// which lies below the increment.
pub proof fn lemma_pulse_period(c: Counter)
    requires
        c.wf(),
        c.phase == 0,
        c.increment > 0,
    ensures
        ({
            let n = ((c.period() + c.increment - 1) as int / c.increment as int) as nat;
            &&& n >= 1
            &&& forall|k: nat| k + 1 < n ==> !#[trigger] c.after(k).fires()
            &&& c.after((n - 1) as nat).fires()
            &&& c.after(n) == c
            &&& c.after(n).phase < c.increment
        }),
{
    let p = c.period() as int;
    let i = c.increment as int;
    let n = ((p + i - 1) / i) as nat;
    assert(p > 0) by (nonlinear_arith)
        requires
            p == c.sample_rate * 720,
            c.sample_rate > 0,
    ;
    assert(n * i <= p + i - 1 && p + i - 1 < n * i + i) by (nonlinear_arith)
        requires
            n == (p + i - 1) / i,
            i > 0,
            p > 0,
    ;
    assert(n >= 1) by (nonlinear_arith)
        requires
            p + i - 1 < n * i + i,
            p > 0,
            i > 0,
    ;
    let m = (n - 1) as nat;
    assert(m * i < p) by (nonlinear_arith)
        requires
            n * i <= p + i - 1,
            m + 1 == n,
    ;
    lemma_phase_climbs(c, m);
    assert forall|k: nat| k + 1 < n implies !#[trigger] c.after(k).fires() by {
        assert(k * i + i < p) by (nonlinear_arith)
            requires
                k + 1 < n,
                m * i < p,
                m + 1 == n,
                i > 0,
        ;
        assert(k * i < p) by (nonlinear_arith)
            requires
                k * i + i < p,
                i > 0,
        ;
        lemma_phase_climbs(c, k);
    }
    assert(m * i + i >= p) by (nonlinear_arith)
        requires
            p + i - 1 < n * i + i,
            m + 1 == n,
    ;
    assert(c.after(n) == c.after(m).advanced());
}

} // verus!
