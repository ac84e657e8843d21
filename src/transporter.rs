use vstd::prelude::*;

use crate::counter::Counter;
use crate::subdivision::Subdivision;
use crate::INIT_BPM;

verus! {

/// The shared musical clock: sixteenths, quarters and bars, each counting
/// 0 to 3, driven by one counter at sixteenth-note rate. Its update returns
/// the apply pulse that lets gated changes commit, once per sixteenth or once
/// per quarter depending on the quantisation.
pub struct Transporter {
    pub bar: u8,
    pub quater: u8,
    pub sixteenth: u8,
    pub counter: Counter,
    pub quantisation: Subdivision,
}

impl Transporter {
    pub open spec fn wf(self) -> bool {
        &&& self.bar < 4
        &&& self.quater < 4
        &&& self.sixteenth < 4
        &&& self.counter.wf()
        &&& (self.quantisation == Subdivision::Quarter || self.quantisation
            == Subdivision::Sixteenth)
    }

    /// Whether the next update returns the apply pulse.
    pub open spec fn applies(self) -> bool {
        &&& self.counter.fires()
        &&& (self.quantisation == Subdivision::Sixteenth || (self.quantisation
            == Subdivision::Quarter && self.sixteenth == 3))
    }

    /// The transporter after one update.
    pub open spec fn advanced(self) -> Transporter {
        if !self.counter.fires() {
            Transporter { counter: self.counter.advanced(), ..self }
        } else {
            let s = self.sixteenth + 1;
            let q = if s == 4 {
                self.quater + 1
            } else {
                self.quater as int
            };
            let b = if q == 4 {
                (self.bar + 1) % 4
            } else {
                self.bar as int
            };
            Transporter {
                bar: b as u8,
                quater: (q % 4) as u8,
                sixteenth: (s % 4) as u8,
                counter: self.counter.advanced(),
                ..self
            }
        }
    }

    /// A transporter at position zero, clocked at the start-up tempo, that
    /// applies changes on quarter notes.
    pub fn new(sample_rate: u32) -> (r: Self)
        requires
            sample_rate > 0,
        ensures
            r.wf(),
            r.bar == 0 && r.quater == 0 && r.sixteenth == 0,
            r.quantisation == Subdivision::Quarter,
            r.counter == (Counter {
                phase: 0,
                increment: Subdivision::Sixteenth.hz_spec(INIT_BPM as nat) as u64,
                sample_rate,
            }),
    {
        Self::with_quantisation(sample_rate, Subdivision::Quarter)
    }

    /// A transporter at position zero, clocked at the start-up tempo, that
    /// applies changes at the given granularity (a quarter or a sixteenth).
    pub fn with_quantisation(sample_rate: u32, quantisation: Subdivision) -> (r: Self)
        requires
            sample_rate > 0,
            quantisation == Subdivision::Quarter || quantisation == Subdivision::Sixteenth,
        ensures
            r.wf(),
            r.bar == 0 && r.quater == 0 && r.sixteenth == 0,
            r.quantisation == quantisation,
            r.counter == (Counter {
                phase: 0,
                increment: Subdivision::Sixteenth.hz_spec(INIT_BPM as nat) as u64,
                sample_rate,
            }),
    {
        let freq = Subdivision::Sixteenth.to_hz(INIT_BPM);
        Transporter {
            quater: 0,
            bar: 0,
            sixteenth: 0,
            counter: Counter::new(sample_rate, freq),
            quantisation,
        }
    }

    /// Advances the clock by one sample and returns the apply pulse: with
    /// sixteenth quantisation on every sixteenth boundary, with quarter
    /// quantisation only when the sixteenths wrap to a new quarter.
    pub fn update(&mut self) -> (r: bool)
        requires
            old(self).wf(),
        ensures
            r == old(self).applies(),
            *final(self) == old(self).advanced(),
            final(self).wf(),
            old(self).quantisation == Subdivision::Sixteenth ==> r == old(self).counter.fires(),
            old(self).quantisation == Subdivision::Quarter ==> r == (old(self).counter.fires()
                && old(self).sixteenth == 3),
    {
        let mut ret: bool = false;
        if self.counter.update() {
            self.sixteenth += 1;
            if self.quantisation == Subdivision::Sixteenth {
                ret = true;
            }
            if self.sixteenth >= 4 {
                self.sixteenth = 0;
                self.quater += 1;
                if self.quantisation == Subdivision::Quarter {
                    ret = true;
                }
            }
            if self.quater >= 4 {
                self.quater = 0;
                self.bar += 1;
            }
            if self.bar >= 4 {
                self.bar = 0;
            }
        }
        ret
    }

    /// Sets the clock's rate to sixteenth notes at `bpm`, keeping its phase.
    pub fn set_bpm(&mut self, bpm: u32)
        ensures
            *final(self) == (Transporter {
                counter: Counter {
                    increment: Subdivision::Sixteenth.hz_spec(bpm as nat) as u64,
                    ..old(self).counter
                },
                ..*old(self)
            }),
    {
        self.counter.set_frequency(Subdivision::Sixteenth.to_hz(bpm))
    }
}

/// The apply pulse follows the sixteenth-note clock: each pulse of the clock
/// moves the sixteenth count on by one (wrapping after four) and nothing else
/// moves it. With sixteenth quantisation every clock pulse applies; with
/// quarter quantisation a clock pulse applies exactly when it wraps the
/// sixteenth count to zero, so one in every four does.
pub proof fn lemma_apply_follows_sixteenths(t: Transporter)
    requires
        t.wf(),
    ensures
        t.counter.fires() ==> t.advanced().sixteenth == (t.sixteenth + 1) % 4,
        !t.counter.fires() ==> t.advanced().sixteenth == t.sixteenth && !t.applies(),
        t.quantisation == Subdivision::Sixteenth ==> t.applies() == t.counter.fires(),
        t.quantisation == Subdivision::Quarter ==> t.applies() == (t.counter.fires()
            && t.advanced().sixteenth == 0),
{
}

} // verus!
