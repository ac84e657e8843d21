use vstd::prelude::*;

use vstd::arithmetic::div_mod::{lemma_fundamental_div_mod, lemma_fundamental_div_mod_converse};

use crate::counter::Counter;
use crate::subdivision::Subdivision;

verus! {

/// Whether a sequence runs. `Resume` is a start that waits for the next
/// apply pulse of the transporter.
#[derive(Debug, Clone, Copy, PartialEq, Eq, Structural)]
pub enum PlayState {
    Playing,
    Stopped,
    Resume,
}

/// Direction in which a sequence walks its range. `BackAndForth` carries its
/// phase: zero while walking up, anything else while walking down.
#[derive(Debug, Clone, Copy, PartialEq, Eq, Structural)]
pub enum PlayMode {
    Forwards,
    Backwards,
    BackAndForth(u8),
}

impl PlayMode {
    /// Display symbol of the mode.
    pub open spec fn symbol(self) -> Seq<char> {
        match self {
            PlayMode::Forwards => ">>"@,
            PlayMode::Backwards => "<<"@,
            PlayMode::BackAndForth(_) => "<>"@,
        }
    }

    /// Display symbol of the mode.
    pub fn get_symbol(&self) -> (r: &'static str)
        ensures
            r@ == self.symbol(),
    {
        match self {
            PlayMode::Forwards => ">>",
            PlayMode::Backwards => "<<",
            PlayMode::BackAndForth(_) => "<>",
        }
    }

    /// The following mode in the cycle Forwards, Backwards, BackAndForth; a
    /// back-and-forth mode starts walking up.
    pub fn next(&self) -> (r: Self)
        ensures
            r == match *self {
                PlayMode::Forwards => PlayMode::Backwards,
                PlayMode::Backwards => PlayMode::BackAndForth(0),
                PlayMode::BackAndForth(_) => PlayMode::Forwards,
            },
    {
        match self {
            PlayMode::Forwards => PlayMode::Backwards,
            PlayMode::Backwards => PlayMode::BackAndForth(0),
            PlayMode::BackAndForth(_) => PlayMode::Forwards,
        }
    }

    /// The preceding mode in the cycle Forwards, Backwards, BackAndForth.
    pub fn prev(&self) -> (r: Self)
        ensures
            r == match *self {
                PlayMode::Forwards => PlayMode::BackAndForth(0),
                PlayMode::Backwards => PlayMode::Forwards,
                PlayMode::BackAndForth(_) => PlayMode::Backwards,
            },
    {
        match self {
            PlayMode::Forwards => PlayMode::BackAndForth(0),
            PlayMode::Backwards => PlayMode::Forwards,
            PlayMode::BackAndForth(_) => PlayMode::Backwards,
        }
    }
}

/// The step, and the mode, that a sequence moves to on a pulse of its clock.
/// A step outside the range re-enters it at the boundary that the walk heads
/// for. A back-and-forth walk stays on a boundary step for one more pulse
/// when it turns.
pub open spec fn next_position(current: u8, mode: PlayMode, range: (u8, u8)) -> (u8, PlayMode) {
    let (start, end) = range;
    match mode {
        PlayMode::Forwards => {
            if current >= end || current < start {
                (start, mode)
            } else {
                ((current + 1) as u8, mode)
            }
        },
        PlayMode::Backwards => {
            if current <= start || current > end {
                (end, mode)
            } else {
                ((current - 1) as u8, mode)
            }
        },
        PlayMode::BackAndForth(phase) => {
            if phase == 0 {
                if current < start {
                    (start, mode)
                } else if current >= end {
                    (end, PlayMode::BackAndForth(1))
                } else {
                    ((current + 1) as u8, mode)
                }
            } else {
                if current > end {
                    (end, mode)
                } else if current <= start {
                    (start, PlayMode::BackAndForth(0))
                } else {
                    ((current - 1) as u8, mode)
                }
            }
        },
    }
}

/// A step-selection state machine: it walks a range of steps in a direction,
/// one step per pulse of its own clock, and asks for each step it lands on to
/// be played at its pitch and gain.
///
/// `pitch` is a playback-speed ratio in Q16.16 (`PITCH_ONE` is 1.0); `gain`
/// is in hundredths. A subdivision change waits in `next_subdivision` until
/// the transporter's apply pulse.
pub struct Sequence {
    pub subdivision: Subdivision,
    pub next_subdivision: Option<Subdivision>,
    pub counter: Counter,
    pub current_step: u8,
    pub pitch: u32,
    pub play_state: PlayState,
    pub play_mode: PlayMode,
    pub play_range: (u8, u8),
    pub gain: u16,
}

impl Sequence {
    pub open spec fn wf(self) -> bool {
        &&& self.counter.wf()
        &&& self.play_range.0 <= self.play_range.1
    }

    /// The sequence after the gated part of an update: on an apply pulse a
    /// pending start becomes playing and a pending subdivision commits, with
    /// its clock rate at `bpm` and its phase at zero.
    pub open spec fn gated(self, apply: bool, bpm: nat) -> Sequence {
        if !apply {
            self
        } else {
            let state = if self.play_state == PlayState::Resume {
                PlayState::Playing
            } else {
                self.play_state
            };
            match self.next_subdivision {
                Some(s) => Sequence {
                    play_state: state,
                    subdivision: s,
                    next_subdivision: None,
                    counter: Counter {
                        phase: 0,
                        increment: s.hz_spec(bpm) as u64,
                        ..self.counter
                    },
                    ..self
                },
                None => Sequence { play_state: state, ..self },
            }
        }
    }

    /// The sequence after an update, and the step it asks to play. The clock
    /// runs while the sequence plays or waits to resume (it stays at rest while
    /// stopped); the sequence steps only when it plays and its clock pulses.
    pub open spec fn updated(self, apply: bool, bpm: nat) -> (Sequence, Option<(u8, u32, u16)>) {
        let g = self.gated(apply, bpm);
        if g.play_state == PlayState::Stopped {
            (g, None)
        } else if g.play_state != PlayState::Playing || !g.counter.fires() {
            (Sequence { counter: g.counter.advanced(), ..g }, None)
        } else {
            let (step, mode) = next_position(g.current_step, g.play_mode, g.play_range);
            (
                Sequence {
                    counter: g.counter.advanced(),
                    current_step: step,
                    play_mode: mode,
                    ..g
                },
                Some((step, g.pitch, g.gain)),
            )
        }
    }

    /// A stopped sequence on the first step of its range, at gain 0.8, with
    /// its clock at the rate of `subdivision` at `bpm`.
    pub open spec fn new_spec(
        sample_rate: u32,
        bpm: u32,
        subdivision: Subdivision,
        pitch: u32,
        play_range: (u8, u8),
        play_mode: PlayMode,
    ) -> Sequence {
        Sequence {
            subdivision,
            next_subdivision: None,
            counter: Counter {
                phase: 0,
                increment: subdivision.hz_spec(bpm as nat) as u64,
                sample_rate,
            },
            current_step: play_range.0,
            pitch,
            play_state: PlayState::Stopped,
            play_mode,
            play_range,
            gain: 80,
        }
    }

    /// A stopped sequence on the first step of its range, at gain 0.8, with
    /// its clock at the rate of `subdivision` at `bpm`.
    pub fn new(
        sample_rate: u32,
        bpm: u32,
        subdivision: Subdivision,
        pitch: u32,
        play_range: (u8, u8),
        play_mode: PlayMode,
    ) -> (r: Self)
        requires
            sample_rate > 0,
            play_range.0 <= play_range.1,
        ensures
            r.wf(),
            r == Sequence::new_spec(sample_rate, bpm, subdivision, pitch, play_range, play_mode),
            r == (Sequence {
                subdivision,
                next_subdivision: None,
                counter: Counter {
                    phase: 0,
                    increment: subdivision.hz_spec(bpm as nat) as u64,
                    sample_rate,
                },
                current_step: play_range.0,
                pitch,
                play_state: PlayState::Stopped,
                play_mode,
                play_range,
                gain: 80,
            }),
    {
        Sequence {
            subdivision,
            next_subdivision: None,
            counter: Counter::new(sample_rate, subdivision.to_hz(bpm)),
            current_step: play_range.0,
            pitch,
            play_state: PlayState::Stopped,
            play_mode,
            play_range,
            gain: 80,
        }
    }

    /// Moves the start of the range; an end below it is dragged along.
    pub fn set_range_start(&mut self, pos: u8)
        ensures
            final(self).play_range == (pos, if pos > old(self).play_range.1 {
                pos
            } else {
                old(self).play_range.1
            }),
            final(self).play_range.0 <= final(self).play_range.1,
            *final(self) == (Sequence { play_range: final(self).play_range, ..*old(self) }),
    {
        self.play_range.0 = pos;
        if self.play_range.0 > self.play_range.1 {
            self.play_range.1 = pos;
        }
    }

    /// Moves the end of the range; a start above it is dragged along.
    pub fn set_range_end(&mut self, pos: u8)
        ensures
            final(self).play_range == (if pos < old(self).play_range.0 {
                pos
            } else {
                old(self).play_range.0
            }, pos),
            final(self).play_range.0 <= final(self).play_range.1,
            *final(self) == (Sequence { play_range: final(self).play_range, ..*old(self) }),
    {
        self.play_range.1 = pos;
        if self.play_range.1 < self.play_range.0 {
            self.play_range.0 = pos;
        }
    }

    /// Playing stops (and the clock goes back to phase zero, for a
    /// deterministic restart); stopped asks to resume on the next apply pulse;
    /// a pending resume is cancelled.
    pub fn toggle(&mut self)
        ensures
            *final(self) == match old(self).play_state {
                PlayState::Playing => Sequence {
                    play_state: PlayState::Stopped,
                    counter: Counter { phase: 0, ..old(self).counter },
                    ..*old(self)
                },
                PlayState::Stopped => Sequence { play_state: PlayState::Resume, ..*old(self) },
                PlayState::Resume => Sequence { play_state: PlayState::Stopped, ..*old(self) },
            },
    {
        match self.play_state {
            PlayState::Playing => {
                self.play_state = PlayState::Stopped;
                self.counter.reset();
            },
            PlayState::Stopped => self.play_state = PlayState::Resume,
            PlayState::Resume => self.play_state = PlayState::Stopped,
        }
    }

    /// Runs the sequence for one sample. On an apply pulse a pending start and
    /// a pending subdivision commit first; a change is never committed without
    /// one. Then its clock advances, unless it is stopped; when it plays and
    /// the clock pulses, it moves to its next step and returns that step with
    /// its pitch and gain.
    pub fn update(&mut self, apply_change: bool, current_bpm: u32) -> (r: Option<(u8, u32, u16)>)
        requires
            old(self).wf(),
        ensures
            (*final(self), r) == old(self).updated(apply_change, current_bpm as nat),
            final(self).wf(),
            !apply_change ==> final(self).subdivision == old(self).subdivision
                && final(self).next_subdivision == old(self).next_subdivision,
            r matches Some((step, _, _)) ==> final(self).play_range.0 <= step
                <= final(self).play_range.1,
    {
        if apply_change {
            if self.play_state == PlayState::Resume {
                self.play_state = PlayState::Playing;
            }
            self.apply_subdivision(current_bpm);
        }
        let pulse = if self.play_state == PlayState::Stopped {
            false
        } else {
            self.counter.update()
        };
        if self.play_state != PlayState::Playing || !pulse {
            None
        } else {
            let start = self.play_range.0;
            let end = self.play_range.1;
            let current = self.current_step;
            match self.play_mode {
                PlayMode::Forwards => {
                    if current >= end || current < start {
                        self.current_step = start;
                    } else {
                        self.current_step = current + 1;
                    }
                },
                PlayMode::Backwards => {
                    if current <= start || current > end {
                        self.current_step = end;
                    } else {
                        self.current_step = current - 1;
                    }
                },
                PlayMode::BackAndForth(phase) => {
                    if phase == 0 {
                        if current < start {
                            self.current_step = start;
                        } else if current >= end {
                            self.current_step = end;
                            self.play_mode = PlayMode::BackAndForth(1);
                        } else {
                            self.current_step = current + 1;
                        }
                    } else {
                        if current > end {
                            self.current_step = end;
                        } else if current <= start {
                            self.current_step = start;
                            self.play_mode = PlayMode::BackAndForth(0);
                        } else {
                            self.current_step = current - 1;
                        }
                    }
                },
            }
            Some((self.current_step, self.pitch, self.gain))
        }
    }

    /// Sets the clock's rate for the current subdivision at `bpm` at once,
    /// without waiting for an apply pulse and without moving the phase.
    pub fn set_bpm(&mut self, bpm: u32)
        ensures
            *final(self) == (Sequence {
                counter: Counter {
                    increment: old(self).subdivision.hz_spec(bpm as nat) as u64,
                    ..old(self).counter
                },
                ..*old(self)
            }),
    {
        self.counter.set_frequency(self.subdivision.to_hz(bpm));
    }

    /// Commits a pending subdivision: the clock takes its rate at
    /// `current_bpm` and restarts at phase zero.
    pub fn apply_subdivision(&mut self, current_bpm: u32)
        ensures
            *final(self) == match old(self).next_subdivision {
                Some(s) => Sequence {
                    subdivision: s,
                    next_subdivision: None,
                    counter: Counter {
                        phase: 0,
                        increment: s.hz_spec(current_bpm as nat) as u64,
                        ..old(self).counter
                    },
                    ..*old(self)
                },
                None => *old(self),
            },
    {
        if let Some(subdivision) = self.next_subdivision {
            self.subdivision = subdivision;
            self.set_bpm(current_bpm);
            self.counter.reset();
            self.next_subdivision = None;
        }
    }

    /// Asks for a subdivision change, to commit on the next apply pulse.
    pub fn set_subdivision(&mut self, subdivision: Subdivision)
        ensures
            *final(self) == (Sequence { next_subdivision: Some(subdivision), ..*old(self) }),
    {
        self.next_subdivision = Some(subdivision);
    }
}

/// The position after `n` pulses of a walk from `current` in `mode`.
pub open spec fn walk(current: u8, mode: PlayMode, range: (u8, u8), n: nat) -> (u8, PlayMode)
    decreases n,
{
    if n == 0 {
        (current, mode)
    } else {
        let (c, m) = walk(current, mode, range, (n - 1) as nat);
        next_position(c, m, range)
    }
}

/// Counting on by one modulo `l`: the count wraps to zero after `l - 1`.
proof fn lemma_mod_step(n: nat, l: nat)
    requires
        l > 0,
        n > 0,
    ensures
        (n - 1) as nat % l == l - 1 ==> n % l == 0,
        (n - 1) as nat % l != l - 1 ==> n % l == (n - 1) as nat % l + 1,
{
    let p = (n - 1) as int;
    lemma_fundamental_div_mod(p, l as int);
    let q = p / l as int;
    let r = p % l as int;
    if r == l - 1 {
        assert(n == (q + 1) * l + 0) by (nonlinear_arith)
            requires
                p == l * q + r,
                r == l - 1,
                n == p + 1,
        ;
        lemma_fundamental_div_mod_converse(n as int, l as int, q + 1, 0);
    } else {
        assert(n == q * l + (r + 1)) by (nonlinear_arith)
            requires
                p == l * q + r,
                n == p + 1,
        ;
        lemma_fundamental_div_mod_converse(n as int, l as int, q, r + 1);
    }
}

/// Forwards from the start of a range the walk visits every step of the
/// range in turn and wraps from the end back to the start, with no skip and
/// no repeat: after `n` pulses it stands on `start + n mod (end - start + 1)`.
pub proof fn lemma_forwards_walk(range: (u8, u8), n: nat)
    requires
        range.0 <= range.1,
    ensures
        walk(range.0, PlayMode::Forwards, range, n) == (
            (range.0 + n % (range.1 - range.0 + 1) as nat) as u8,
            PlayMode::Forwards,
        ),
    decreases n,
{
    let l = (range.1 - range.0 + 1) as nat;
    if n == 0 {
        assert(0nat % l == 0) by (nonlinear_arith)
            requires
                l > 0,
        ;
    } else {
        lemma_forwards_walk(range, (n - 1) as nat);
        lemma_mod_step(n, l);
        lemma_fundamental_div_mod(((n - 1) as nat) as int, l as int);
        lemma_fundamental_div_mod(n as int, l as int);
    }
}

/// Back and forth from the start of a range, walking up, the walk climbs to
/// the end, stays on it for one more pulse as it turns, descends to the start,
/// stays on it for one more pulse as it turns, and so on: with
/// `L = end - start + 1` and `m = n mod 2L`, after `n` pulses it stands on
/// `start + m` walking up while `m < L`, and on `start + 2L - 1 - m` walking
/// down after that.
pub proof fn lemma_back_and_forth_walk(range: (u8, u8), n: nat)
    requires
        range.0 <= range.1,
    ensures
        ({
            let l = (range.1 - range.0 + 1) as nat;
            let m = n % (2 * l);
            walk(range.0, PlayMode::BackAndForth(0), range, n) == if m < l {
                ((range.0 + m) as u8, PlayMode::BackAndForth(0))
            } else {
                ((range.0 + 2 * l - 1 - m) as u8, PlayMode::BackAndForth(1))
            }
        }),
    decreases n,
{
    let l = (range.1 - range.0 + 1) as nat;
    let l2 = 2 * l;
    if n == 0 {
        assert(0nat % l2 == 0) by (nonlinear_arith)
            requires
                l2 > 0,
        ;
    } else {
        lemma_back_and_forth_walk(range, (n - 1) as nat);
        lemma_mod_step(n, l2);
        lemma_fundamental_div_mod(((n - 1) as nat) as int, l2 as int);
        lemma_fundamental_div_mod(n as int, l2 as int);
    }
}

} // verus!
