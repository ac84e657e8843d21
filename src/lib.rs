//! A sample-accurate step sequencer and looper engine in exact integer
//! arithmetic: phase-accumulator clocks, a hierarchical musical transport,
//! step-selection state machines and recorded steps played back by
//! pitch-shifted voices.
use vstd::prelude::*;

pub mod counter;
pub mod pitch;
pub mod sequence;
pub mod sequencer;
pub mod snapshot;
pub mod step;
pub mod subdivision;
pub mod transporter;
pub mod voice;

pub use counter::Counter;
pub use pitch::semitone_to_pitch;
pub use sequence::{PlayMode, PlayState, Sequence};
pub use sequencer::{Sequencer, MIX_SCALE};
pub use snapshot::DrawData;
pub use step::{Step, StepState};
pub use subdivision::{Subdivision, HZ_SCALE};
pub use transporter::Transporter;
pub use triple_buffer::{Input, Output};
pub use voice::{EnvState, Voice, ENV_ONE, PITCH_ONE, POS_ONE};

verus! {

/// Number of sequences that the engine runs.
pub const SEQUENCES: usize = 3;

/// Number of record steps.
pub const STEP_NUM: u8 = 8;

/// Tempo at start-up, in quarter notes per minute.
pub const INIT_BPM: u32 = 100;

/// Length of each step's record buffer, in seconds.
pub const AUDIO_BUFFER_SIZE_SEC: u32 = 5;

/// Number of voices that each step can play at once.
pub const VOICE_NUM: u8 = 32;

} // verus!
