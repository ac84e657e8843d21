use vstd::prelude::*;

use vstd::arithmetic::div_mod::{lemma_div_denominator, lemma_div_multiples_vanish};

verus! {

/// 1.0 as a Q16.16 playback-speed ratio.
pub const PITCH_ONE: u32 = 65536;

/// One sample step of the play head; the head counts in these fractions.
pub const POS_ONE: u64 = 65536;

/// Full level of the envelope.
pub const ENV_ONE: u64 = 16777216;

/// Level at which the envelope saturates: 65536 times the full level. An
/// attack normally overshoots the full level by less than one increment and
/// turns to release; only a voice retriggered again and again while its head
/// wraps at once can keep climbing, and there the level is held here so that
/// it, and the mix it scales, stay within their integer types.
pub const ENV_LIMIT: u64 = 1099511627776;

/// Largest buffer, in samples, that a voice plays from.
pub const MAX_BUFFER_LEN: u64 = 1099511627776;

/// Envelope increment per sample for a ramp of `ms` milliseconds played at
/// `pitch` (Q16.16): one full level over `sample_rate * (ms / 1000) / pitch`
/// samples, so that a faster playback runs its envelope faster. A zero length
/// (or sample rate) gives the full level in one sample.
pub open spec fn env_increment(sample_rate: nat, ms: nat, pitch: nat) -> nat {
    if sample_rate * ms == 0 {
        ENV_ONE as nat
    } else {
        ((pitch * ENV_ONE * 1000) as int / (PITCH_ONE * sample_rate * ms) as int) as nat
    }
}

/// Envelope increment per sample; see `env_increment`.
fn compute_env_increment(sample_rate: u32, ms: u32, pitch: u32) -> (r: u64)
    ensures
        r == env_increment(sample_rate as nat, ms as nat, pitch as nat),
{
    assert(sample_rate as u64 * ms as u64 <= 0xffff_ffff_u64 * 0xffff_ffff_u64) by (nonlinear_arith)
        requires
            sample_rate <= 0xffff_ffff,
            ms <= 0xffff_ffff,
    ;
    let den = sample_rate as u64 * ms as u64;
    if den == 0 {
        ENV_ONE
    } else {
        let num = pitch as u64 * 256000;
        proof {
            let p = pitch as int;
            let d = den as int;
            assert((pitch * ENV_ONE * 1000) == 65536 * (p * 256000));
            lemma_div_multiples_vanish(p * 256000, 65536);
            lemma_div_denominator(65536 * (p * 256000), 65536, d);
            assert(PITCH_ONE * sample_rate * ms == 65536 * d) by (nonlinear_arith)
                requires
                    d == sample_rate * ms,
            ;
        }
        num / den
    }
}

#[derive(Debug, Clone, Copy, PartialEq, Eq, Structural)]
pub enum EnvState {
    Attack,
    Release,
}

/// One playback of a step's buffer at a speed ratio, shaped by an
/// attack/release envelope with no sustain.
///
/// `play_head` counts in `1 / POS_ONE` samples, `pitch` is Q16.16, `env` is
/// in units of `1 / ENV_ONE` of the full level (an attack may overshoot it),
/// and `gain` is in hundredths. A voice that is not
/// playing has its head at zero.
#[derive(Clone, Copy)]
pub struct Voice {
    pub play_head: u64,
    pub is_playing: bool,
    pub gain: u16,
    pub env: u64,
    pub env_inc_attack: u64,
    pub env_inc_release: u64,
    pub env_state: EnvState,
    pub buffer_size: usize,
    pub pitch: u32,
    pub sample_rate: u32,
}

impl Voice {
    pub open spec fn wf(self) -> bool {
        &&& 0 < self.buffer_size <= MAX_BUFFER_LEN
        &&& self.play_head < self.buffer_size * POS_ONE
        &&& self.env <= ENV_LIMIT
    }

    /// The envelope level after one sample: the attack adds its increment
    /// (past the full level too, up to `ENV_LIMIT`); the release subtracts
    /// its increment and rests at zero.
    pub open spec fn next_env(self) -> u64 {
        match self.env_state {
            EnvState::Attack => if self.env + self.env_inc_attack >= ENV_LIMIT {
                ENV_LIMIT
            } else {
                (self.env + self.env_inc_attack) as u64
            },
            EnvState::Release => if self.env > self.env_inc_release {
                (self.env - self.env_inc_release) as u64
            } else {
                0
            },
        }
    }

    /// The voice after one sample: the envelope moves (turning to release at
    /// the full level, resting at zero once released) and the head advances by
    /// the pitch; a head that passes the end of the buffer stops the voice and
    /// rewinds it.
    pub open spec fn rendered(self) -> Voice {
        let env = self.next_env();
        let head = self.play_head + self.pitch;
        if head >= self.buffer_size * POS_ONE {
            Voice {
                env,
                env_state: EnvState::Attack,
                is_playing: false,
                play_head: 0,
                ..self
            }
        } else {
            Voice {
                env,
                env_state: if env >= ENV_ONE {
                    EnvState::Release
                } else {
                    self.env_state
                },
                play_head: head as u64,
                ..self
            }
        }
    }

    /// An idle voice for a buffer of `buffer_size` samples, at speed 1.0, with
    /// a 10 ms attack and a 1 s release.
    pub open spec fn new_spec(sample_rate: u32, buffer_size: usize) -> Voice {
        Voice {
            play_head: 0,
            is_playing: false,
            gain: 0,
            env: 0,
            env_inc_attack: env_increment(sample_rate as nat, 10, PITCH_ONE as nat) as u64,
            env_inc_release: env_increment(sample_rate as nat, 1000, PITCH_ONE as nat) as u64,
            env_state: EnvState::Attack,
            buffer_size,
            pitch: PITCH_ONE,
            sample_rate,
        }
    }

    /// An idle voice for a buffer of `buffer_size` samples, at speed 1.0, with
    /// a 10 ms attack and a 1 s release.
    pub fn new(sample_rate: u32, buffer_size: usize) -> (r: Self)
        requires
            0 < buffer_size <= MAX_BUFFER_LEN,
        ensures
            r.wf(),
            r == Voice::new_spec(sample_rate, buffer_size),
            r == (Voice {
                play_head: 0,
                is_playing: false,
                gain: 0,
                env: 0,
                env_inc_attack: env_increment(sample_rate as nat, 10, PITCH_ONE as nat) as u64,
                env_inc_release: env_increment(sample_rate as nat, 1000, PITCH_ONE as nat) as u64,
                env_state: EnvState::Attack,
                buffer_size,
                pitch: PITCH_ONE,
                sample_rate,
            }),
    {
        Voice {
            play_head: 0,
            is_playing: false,
            gain: 0,
            env: 0,
            env_inc_attack: compute_env_increment(sample_rate, 10, PITCH_ONE),
            env_inc_release: compute_env_increment(sample_rate, 1000, PITCH_ONE),
            env_state: EnvState::Attack,
            buffer_size,
            pitch: PITCH_ONE,
            sample_rate,
        }
    }

    /// Advances the voice by one sample and returns its head position,
    /// envelope level and gain.
    pub fn render(&mut self) -> (r: (u64, u64, u16))
        requires
            old(self).wf(),
        ensures
            *final(self) == old(self).rendered(),
            final(self).wf(),
            r == (final(self).play_head, final(self).env, final(self).gain),
    {
        match self.env_state {
            EnvState::Attack => {
                if self.env_inc_attack >= ENV_LIMIT - self.env {
                    self.env = ENV_LIMIT;
                } else {
                    self.env = self.env + self.env_inc_attack;
                }
            },
            EnvState::Release => {
                if self.env > self.env_inc_release {
                    self.env = self.env - self.env_inc_release;
                } else {
                    self.env = 0;
                }
            },
        }
        if self.env >= ENV_ONE {
            self.env_state = EnvState::Release;
        }
        let end = self.buffer_size as u64 * POS_ONE;
        if self.pitch as u64 >= end - self.play_head {
            self.is_playing = false;
            self.play_head = 0;
            self.env_state = EnvState::Attack;
        } else {
            self.play_head = self.play_head + self.pitch as u64;
        }
        (self.play_head, self.env, self.gain)
    }

    /// Sets the attack to `ms` milliseconds at the voice's current pitch.
    pub fn set_attack(&mut self, ms: u32)
        ensures
            *final(self) == (Voice {
                env_inc_attack: env_increment(
                    old(self).sample_rate as nat,
                    ms as nat,
                    old(self).pitch as nat,
                ) as u64,
                ..*old(self)
            }),
    {
        self.env_inc_attack = compute_env_increment(self.sample_rate, ms, self.pitch);
    }

    /// Sets the release to `ms` milliseconds at the voice's current pitch.
    pub fn set_release(&mut self, ms: u32)
        ensures
            *final(self) == (Voice {
                env_inc_release: env_increment(
                    old(self).sample_rate as nat,
                    ms as nat,
                    old(self).pitch as nat,
                ) as u64,
                ..*old(self)
            }),
    {
        self.env_inc_release = compute_env_increment(self.sample_rate, ms, self.pitch);
    }
}

} // verus!
