use vstd::prelude::*;

use triple_buffer::{Input, Output};
use vstd::arithmetic::div_mod::{lemma_fundamental_div_mod, lemma_fundamental_div_mod_converse};

use crate::counter::Counter;
use crate::pitch::{semitone_ratio, semitone_to_pitch};
use crate::sequence::{PlayMode, PlayState, Sequence};
use crate::snapshot::{latest_of, new_exchange, publish, reader_value_of, writer_slot, DrawData};
use crate::step::{
    lemma_full_record_pass, lemma_record_prefix, with_attack, with_release, RecordModel, Step,
    StepState, StepView, VOICE_OUTPUT_BOUND,
};
use crate::subdivision::Subdivision;
use crate::transporter::Transporter;
use crate::voice::{Voice, PITCH_ONE};
use crate::{AUDIO_BUFFER_SIZE_SEC, INIT_BPM, SEQUENCES, STEP_NUM, VOICE_NUM};

verus! {

/// Units of a step's mix in one output sample value: head fraction times
/// envelope level times gain hundredths.
pub const MIX_SCALE: u64 = 109951162777600;

/// Attack at start-up, in milliseconds.
pub const INIT_ATTACK_MS: u32 = 10;

/// Release at start-up, in milliseconds.
pub const INIT_RELEASE_MS: u32 = 1000;

/// A step trigger: the step index, pitch and gain that a sequence asks for.
pub type Trigger = Option<(u8, u32, u16)>;

/// The steps after one trigger; a trigger for a step that does not exist is
/// dropped.
pub open spec fn apply_trigger(steps: Seq<StepView>, t: Trigger, attack: u32, release: u32) -> Seq<StepView> {
    match t {
        Some((s, pitch, gain)) => if s < steps.len() {
            steps.update(s as int, steps[s as int].played(pitch, gain, attack, release))
        } else {
            steps
        },
        None => steps,
    }
}

/// The steps after the triggers, in order.
pub open spec fn apply_triggers(steps: Seq<StepView>, ts: Seq<Trigger>, attack: u32, release: u32) -> Seq<StepView>
    decreases ts.len(),
{
    if ts.len() == 0 {
        steps
    } else {
        apply_trigger(apply_triggers(steps, ts.drop_last(), attack, release), ts.last(), attack, release)
    }
}

/// The sum of what the first `n` steps add to the mix.
pub open spec fn total_output(steps: Seq<StepView>, n: nat) -> int
    decreases n,
{
    if n == 0 {
        0
    } else {
        total_output(steps, (n - 1) as nat) + steps[n - 1].output()
    }
}

/// An output sample from a mix total: rounded down to whole sample values and
/// held within the range of an `i32`.
pub open spec fn output_sample(total: int) -> i32 {
    let q = total / (MIX_SCALE as int);
    if q > i32::MAX {
        i32::MAX
    } else if q < i32::MIN {
        i32::MIN
    } else {
        q as i32
    }
}

/// Rounds a mix total down to an output sample, held within `i32`.
fn to_sample(total: i128) -> (r: i32)
    requires
        total > i128::MIN,
    ensures
        r == output_sample(total as int),
{
    let s = MIX_SCALE as u128;
    let q: i128 = if total >= 0 {
        (total as u128 / s) as i128
    } else {
        let y = (-(total + 1)) as u128;
        let qy = y / s;
        proof {
            let yi = y as int;
            let si = s as int;
            lemma_fundamental_div_mod(yi, si);
            let ry = yi % si;
            assert(0 <= ry < si);
            assert(total as int == (-(qy as int) - 1) * si + (si - 1 - ry)) by (nonlinear_arith)
                requires
                    yi == si * (qy as int) + ry,
                    yi == -(total as int + 1),
            ;
            lemma_fundamental_div_mod_converse(total as int, si, -(qy as int) - 1, si - 1 - ry);
        }
        -(qy as i128) - 1
    };
    if q > i32::MAX as i128 {
        i32::MAX
    } else if q < i32::MIN as i128 {
        i32::MIN
    } else {
        q as i32
    }
}

/// The engine: it records input into steps, runs the transport and the
/// sequences, triggers and mixes the steps' voices, and publishes a snapshot
/// of its state for the interface. Attack and release are in milliseconds.
pub struct Sequencer {
    pub bpm: u32,
    pub sequences: Vec<Sequence>,
    pub draw_data: Input<DrawData>,
    pub steps: Vec<Step>,
    pub transporter: Transporter,
    pub attack: u32,
    pub release: u32,
}

impl Sequencer {
    pub open spec fn wf(self) -> bool {
        &&& self.sequences.len() == SEQUENCES
        &&& forall|i: int| 0 <= i < self.sequences.len() ==> (#[trigger] self.sequences[i]).wf()
        &&& self.steps.len() == STEP_NUM
        &&& forall|i: int| 0 <= i < self.steps.len() ==> (#[trigger] self.steps[i]).wf()
        &&& self.transporter.wf()
    }

    /// The mathematical value of the steps.
    pub open spec fn steps_view(self) -> Seq<StepView> {
        Seq::new(self.steps.len() as nat, |i: int| self.steps[i]@)
    }

    /// The apply pulse of the next render.
    pub open spec fn applies(self) -> bool {
        self.transporter.applies()
    }

    /// The sequences after the next render.
    pub open spec fn next_sequences(self) -> Seq<Sequence> {
        Seq::new(
            self.sequences.len() as nat,
            |i: int| self.sequences[i].updated(self.applies(), self.bpm as nat).0,
        )
    }

    /// The triggers that the sequences give in the next render, in order.
    pub open spec fn next_triggers(self) -> Seq<Trigger> {
        Seq::new(
            self.sequences.len() as nat,
            |i: int| self.sequences[i].updated(self.applies(), self.bpm as nat).1,
        )
    }

    /// The steps after the next render has recorded `input` and applied the
    /// triggers, before the voices advance.
    pub open spec fn played_steps(self, input: i32) -> Seq<StepView> {
        let recorded = Seq::new(
            self.steps.len() as nat,
            |i: int| self.steps_view()[i].after_input(input),
        );
        apply_triggers(recorded, self.next_triggers(), self.attack, self.release)
    }

    /// The engine at `sample_rate` hertz with its fixed set of sequences and
    /// empty steps, and the reader end of its snapshot exchange.
    pub fn new(sample_rate: u32) -> (r: (Self, Output<DrawData>))
        requires
            sample_rate > 0,
            sample_rate * AUDIO_BUFFER_SIZE_SEC <= usize::MAX,
        ensures
            r.0.wf(),
            latest_of(r.0.draw_data).is_initial(),
            reader_value_of(r.1).is_initial(),
            r.0.bpm == INIT_BPM,
            r.0.attack == INIT_ATTACK_MS,
            r.0.release == INIT_RELEASE_MS,
            r.0.transporter.bar == 0 && r.0.transporter.quater == 0 && r.0.transporter.sixteenth
                == 0,
            r.0.transporter.quantisation == Subdivision::Quarter,
            r.0.transporter.counter.phase == 0,
            r.0.transporter.counter.increment == Subdivision::Sixteenth.hz_spec(INIT_BPM as nat),
            r.0.transporter.counter.sample_rate == sample_rate,
            r.0.sequences@ == seq![
                Sequence::new_spec(sample_rate, INIT_BPM, Subdivision::Quarter, PITCH_ONE, (0, 4), PlayMode::Forwards),
                Sequence::new_spec(sample_rate, INIT_BPM, Subdivision::Eighth, PITCH_ONE, (3, 6), PlayMode::Backwards),
                Sequence::new_spec(sample_rate, INIT_BPM, Subdivision::Sixteenth, PITCH_ONE, (4, 7), PlayMode::BackAndForth(0)),
            ],
            forall|i: int|
                0 <= i < r.0.steps.len() ==> {
                    let s = #[trigger] r.0.steps[i];
                    &&& s.state == StepState::Empty
                    &&& s.record_head == 0
                    &&& s.buffer.len() == sample_rate * AUDIO_BUFFER_SIZE_SEC
                    &&& forall|j: int| 0 <= j < s.buffer.len() ==> s.buffer[j] == 0
                    &&& s.voices.len() == VOICE_NUM
                    &&& forall|j: int|
                        0 <= j < s.voices.len() ==> #[trigger] s.voices[j] == Voice::new_spec(
                            sample_rate,
                            s.buffer.len(),
                        )
                },
    {
        let initial = DrawData::new();
        let (buf_input, buf_output) = new_exchange(&initial);
        let bpm = INIT_BPM;
        let mut sequences: Vec<Sequence> = Vec::with_capacity(SEQUENCES);
        sequences.push(
            Sequence::new(sample_rate, bpm, Subdivision::Quarter, PITCH_ONE, (0, 4), PlayMode::Forwards),
        );
        sequences.push(
            Sequence::new(sample_rate, bpm, Subdivision::Eighth, PITCH_ONE, (3, 6), PlayMode::Backwards),
        );
        sequences.push(
            Sequence::new(
                sample_rate,
                bpm,
                Subdivision::Sixteenth,
                PITCH_ONE,
                (4, 7),
                PlayMode::BackAndForth(0),
            ),
        );
        let mut steps: Vec<Step> = Vec::with_capacity(STEP_NUM as usize);
        let mut k: u8 = 0;
        while k < STEP_NUM
            invariant
                0 <= k <= STEP_NUM,
                steps.len() == k,
                sample_rate > 0,
                sample_rate * AUDIO_BUFFER_SIZE_SEC <= usize::MAX,
                forall|i: int|
                    0 <= i < steps.len() ==> {
                        let s = #[trigger] steps[i];
                        &&& s.wf()
                        &&& s.state == StepState::Empty
                        &&& s.record_head == 0
                        &&& s.buffer.len() == sample_rate * AUDIO_BUFFER_SIZE_SEC
                        &&& forall|j: int| 0 <= j < s.buffer.len() ==> s.buffer[j] == 0
                        &&& forall|j: int|
                            0 <= j < s.voices.len() ==> #[trigger] s.voices[j] == Voice::new_spec(
                                sample_rate,
                                s.buffer.len(),
                            )
                    },
            decreases STEP_NUM - k,
        {
            let s = Step::new(sample_rate);
            steps.push(s);
            k += 1;
        }
        let r = Sequencer {
            bpm,
            draw_data: buf_input,
            sequences,
            steps,
            transporter: Transporter::new(sample_rate),
            attack: INIT_ATTACK_MS,
            release: INIT_RELEASE_MS,
        };
        assert(r.sequences@ =~= seq![
            Sequence::new_spec(sample_rate, INIT_BPM, Subdivision::Quarter, PITCH_ONE, (0, 4), PlayMode::Forwards),
            Sequence::new_spec(sample_rate, INIT_BPM, Subdivision::Eighth, PITCH_ONE, (3, 6), PlayMode::Backwards),
            Sequence::new_spec(sample_rate, INIT_BPM, Subdivision::Sixteenth, PITCH_ONE, (4, 7), PlayMode::BackAndForth(0)),
        ]);
        (r, buf_output)
    }

    /// Runs the engine for one sample, in a fixed order: every recording
    /// step records the input; the transporter advances and gives the apply
    /// pulse; each sequence, in order, updates with that pulse and may
    /// trigger a step; the snapshot is published; every step's playing
    /// voices advance and their sum becomes the output sample.
    pub fn render(&mut self, sample: &mut i32)
        requires
            old(self).wf(),
        ensures
            final(self).wf(),
            final(self).bpm == old(self).bpm,
            final(self).attack == old(self).attack,
            final(self).release == old(self).release,
            final(self).transporter == old(self).transporter.advanced(),
            final(self).sequences@ == old(self).next_sequences(),
            final(self).steps_view() == Seq::new(
                STEP_NUM as nat,
                |i: int| old(self).played_steps(*old(sample))[i].advanced(),
            ),
            *final(sample) == output_sample(
                total_output(old(self).played_steps(*old(sample)), STEP_NUM as nat),
            ),
            latest_of(final(self).draw_data).shows(
                final(self).sequences@,
                final(self).steps@,
                final(self).transporter,
                final(self).bpm,
            ),
    {
        let input = *sample;
        let ghost old_steps = self.steps_view();
        let ghost recorded = Seq::new(
            self.steps.len() as nat,
            |i: int| old_steps[i].after_input(input),
        );
        let n_steps = self.steps.len();
        let mut i: usize = 0;
        while i < n_steps
            invariant
                0 <= i <= n_steps,
                n_steps == self.steps.len(),
                n_steps == old(self).steps.len(),
                old(self).wf(),
                old_steps == old(self).steps_view(),
                recorded == Seq::new(n_steps as nat, |j: int| old_steps[j].after_input(input)),
                self.sequences == old(self).sequences,
                self.transporter == old(self).transporter,
                self.bpm == old(self).bpm,
                self.attack == old(self).attack,
                self.release == old(self).release,
                forall|j: int| 0 <= j < n_steps ==> (#[trigger] self.steps[j]).wf(),
                forall|j: int| 0 <= j < i ==> (#[trigger] self.steps[j])@ == recorded[j],
                forall|j: int| i <= j < n_steps ==> (#[trigger] self.steps[j]) == old(self).steps[j],
            decreases n_steps - i,
        {
            if self.steps[i].state == StepState::Recording {
                self.steps[i].record(input);
            }
            i += 1;
        }
        assert(self.steps_view() =~= recorded);

        let apply = self.transporter.update();
        let ghost triggers = old(self).next_triggers();
        let n_seq = self.sequences.len();
        let mut k: usize = 0;
        while k < n_seq
            invariant
                0 <= k <= n_seq,
                n_seq == self.sequences.len(),
                n_seq == old(self).sequences.len(),
                n_steps == self.steps.len(),
                old(self).wf(),
                apply == old(self).applies(),
                triggers == old(self).next_triggers(),
                self.bpm == old(self).bpm,
                self.attack == old(self).attack,
                self.release == old(self).release,
                self.transporter == old(self).transporter.advanced(),
                self.transporter.wf(),
                forall|j: int| 0 <= j < n_steps ==> (#[trigger] self.steps[j]).wf(),
                forall|j: int| 0 <= j < n_seq ==> (#[trigger] self.sequences[j]).wf(),
                forall|j: int|
                    0 <= j < k ==> (#[trigger] self.sequences[j]) == old(self).next_sequences()[j],
                forall|j: int| k <= j < n_seq ==> (#[trigger] self.sequences[j]) == old(self).sequences[j],
                self.steps_view() == apply_triggers(
                    recorded,
                    triggers.take(k as int),
                    self.attack,
                    self.release,
                ),
            decreases n_seq - k,
        {
            let ghost before = self.steps_view();
            let t = self.sequences[k].update(apply, self.bpm);
            assert(t == triggers[k as int]);
            match t {
                Some((step, pitch, gain)) => {
                    if (step as usize) < self.steps.len() {
                        let attack = self.attack;
                        let release = self.release;
                        self.steps[step as usize].play(pitch, gain, attack, release);
                    }
                },
                None => {},
            }
            assert(triggers.take(k + 1).drop_last() =~= triggers.take(k as int));
            assert(self.steps_view() =~= apply_trigger(before, t, self.attack, self.release));
            k += 1;
        }
        assert(triggers.take(n_seq as int) =~= triggers);
        assert(self.sequences@ =~= old(self).next_sequences());
        let ghost played = self.steps_view();
        assert(played == old(self).played_steps(input));

        let slot = writer_slot(&mut self.draw_data);
        slot.fill(&self.sequences, &self.steps, &self.transporter, self.bpm);
        publish(&mut self.draw_data);
        let ghost published = latest_of(self.draw_data);
        let ghost old_steps_before_mix = self.steps@;
        assert(published.shows(self.sequences@, self.steps@, self.transporter, self.bpm));

        let mut total: i128 = 0;
        let mut m: usize = 0;
        while m < n_steps
            invariant
                0 <= m <= n_steps,
                n_steps == self.steps.len(),
                n_steps == STEP_NUM,
                old(self).wf(),
                played.len() == n_steps,
                self.bpm == old(self).bpm,
                self.attack == old(self).attack,
                self.release == old(self).release,
                self.transporter == old(self).transporter.advanced(),
                self.transporter.wf(),
                self.sequences@ == old(self).next_sequences(),
                forall|j: int| 0 <= j < n_seq ==> (#[trigger] self.sequences[j]).wf(),
                n_seq == self.sequences.len(),
                forall|j: int| 0 <= j < n_steps ==> (#[trigger] self.steps[j]).wf(),
                forall|j: int| 0 <= j < m ==> (#[trigger] self.steps[j])@ == played[j].advanced(),
                forall|j: int| m <= j < n_steps ==> (#[trigger] self.steps[j])@ == played[j],
                total == total_output(played, m as nat),
                latest_of(self.draw_data) == published,
                published.shows(self.sequences@, old_steps_before_mix, self.transporter, self.bpm),
                forall|j: int| 0 <= j < n_steps ==> (#[trigger] old_steps_before_mix[j])@ == played[j],
                -m * (VOICE_NUM * VOICE_OUTPUT_BOUND) <= total <= m * (VOICE_NUM * VOICE_OUTPUT_BOUND),
            decreases n_steps - m,
        {
            let out = self.steps[m].render();
            let ghost b = VOICE_NUM * VOICE_OUTPUT_BOUND;
            assert(b == 0x1000_0000_0000_0000_0000_0000_0000);
            assert(-(m + 1) * b <= total + out <= (m + 1) * b) by (nonlinear_arith)
                requires
                    -m * b <= total <= m * b,
                    -b <= out <= b,
            ;
            assert((m + 1) * b <= 8 * 0x1000_0000_0000_0000_0000_0000_0000) by (nonlinear_arith)
                requires
                    m < 8,
                    b == 0x1000_0000_0000_0000_0000_0000_0000,
            ;
            total = total + out;
            m += 1;
        }
        assert(self.steps_view() =~= Seq::new(STEP_NUM as nat, |i: int| played[i].advanced()));
        assert(published.step_states@ =~= Seq::new(self.steps.len() as nat, |i: int| self.steps[i].state)) by {
            assert forall|i: int| 0 <= i < self.steps.len() implies #[trigger] self.steps[i].state
                == published.step_states@[i] by {
                assert(self.steps[i]@ == played[i].advanced());
                assert(old_steps_before_mix[i]@ == played[i]);
                assert(old_steps_before_mix[i].state == published.step_states@[i]);
            }
        }
        *sample = to_sample(total);
    }

    /// Starts a recording pass on step `step_idx`: the step is recording and
    /// its head is at the start. An index without a step is ignored.
    pub fn record(&mut self, step_idx: usize)
        requires
            old(self).wf(),
        ensures
            final(self).wf(),
            step_idx < old(self).steps.len() ==> final(self).steps_view() == old(self).steps_view().update(
                step_idx as int,
                StepView {
                    state: StepState::Recording,
                    record_head: 0,
                    ..old(self).steps_view()[step_idx as int]
                },
            ),
            step_idx >= old(self).steps.len() ==> final(self).steps == old(self).steps,
            final(self).sequences == old(self).sequences,
            final(self).transporter == old(self).transporter,
            final(self).bpm == old(self).bpm,
            final(self).attack == old(self).attack,
            final(self).release == old(self).release,
            final(self).draw_data == old(self).draw_data,
    {
        if step_idx < self.steps.len() {
            self.steps[step_idx].state = StepState::Recording;
            self.steps[step_idx].record_head = 0;
            assert(self.steps_view() =~= old(self).steps_view().update(
                step_idx as int,
                StepView {
                    state: StepState::Recording,
                    record_head: 0,
                    ..old(self).steps_view()[step_idx as int]
                },
            ));
        }
    }

    /// Erases step `step_idx`: a silent buffer, empty, head at the start. An
    /// index without a step is ignored.
    pub fn erase(&mut self, step_idx: usize)
        requires
            old(self).wf(),
        ensures
            final(self).wf(),
            step_idx < old(self).steps.len() ==> {
                let s = final(self).steps[step_idx as int];
                &&& s.state == StepState::Empty
                &&& s.record_head == 0
                &&& s.buffer.len() == old(self).steps[step_idx as int].buffer.len()
                &&& forall|j: int| 0 <= j < s.buffer.len() ==> s.buffer[j] == 0
                &&& s.voices == old(self).steps[step_idx as int].voices
            },
            forall|i: int|
                0 <= i < final(self).steps.len() && i != step_idx ==> final(self).steps[i]
                    == old(self).steps[i],
            final(self).steps.len() == old(self).steps.len(),
            final(self).sequences == old(self).sequences,
            final(self).transporter == old(self).transporter,
            final(self).bpm == old(self).bpm,
            final(self).attack == old(self).attack,
            final(self).release == old(self).release,
            final(self).draw_data == old(self).draw_data,
    {
        if step_idx < self.steps.len() {
            self.steps[step_idx].erase();
        }
    }

    /// Sets the pitch of sequence `idx` to `2^(semitone/12)`, unclamped. An
    /// index without a sequence is ignored.
    pub fn set_pitch(&mut self, idx: usize, semitone: i8)
        requires
            old(self).wf(),
        ensures
            final(self).wf(),
            idx < old(self).sequences.len() ==> final(self).sequences@ == old(self).sequences@.update(
                idx as int,
                Sequence {
                    pitch: semitone_ratio(semitone as int) as u32,
                    ..old(self).sequences[idx as int]
                },
            ),
            idx >= old(self).sequences.len() ==> final(self).sequences == old(self).sequences,
            final(self).steps == old(self).steps,
            final(self).transporter == old(self).transporter,
            final(self).bpm == old(self).bpm,
            final(self).attack == old(self).attack,
            final(self).release == old(self).release,
            final(self).draw_data == old(self).draw_data,
    {
        let pitch = semitone_to_pitch(semitone);
        if idx < self.sequences.len() {
            self.sequences[idx].pitch = pitch;
        }
    }

    /// Moves the start of the range of sequence `idx` (see
    /// `Sequence::set_range_start`). An index without a sequence is ignored.
    pub fn set_range_start(&mut self, idx: usize, start: u8)
        requires
            old(self).wf(),
        ensures
            final(self).wf(),
            idx < old(self).sequences.len() ==> {
                let o = old(self).sequences[idx as int];
                final(self).sequences@ == old(self).sequences@.update(
                    idx as int,
                    Sequence {
                        play_range: (start, if start > o.play_range.1 {
                            start
                        } else {
                            o.play_range.1
                        }),
                        ..o
                    },
                )
            },
            idx >= old(self).sequences.len() ==> final(self).sequences == old(self).sequences,
            final(self).steps == old(self).steps,
            final(self).transporter == old(self).transporter,
            final(self).bpm == old(self).bpm,
            final(self).attack == old(self).attack,
            final(self).release == old(self).release,
            final(self).draw_data == old(self).draw_data,
    {
        if idx < self.sequences.len() {
            self.sequences[idx].set_range_start(start);
        }
    }

    /// Moves the end of the range of sequence `idx` (see
    /// `Sequence::set_range_end`). An index without a sequence is ignored.
    pub fn set_range_end(&mut self, idx: usize, end: u8)
        requires
            old(self).wf(),
        ensures
            final(self).wf(),
            idx < old(self).sequences.len() ==> {
                let o = old(self).sequences[idx as int];
                final(self).sequences@ == old(self).sequences@.update(
                    idx as int,
                    Sequence {
                        play_range: (if end < o.play_range.0 {
                            end
                        } else {
                            o.play_range.0
                        }, end),
                        ..o
                    },
                )
            },
            idx >= old(self).sequences.len() ==> final(self).sequences == old(self).sequences,
            final(self).steps == old(self).steps,
            final(self).transporter == old(self).transporter,
            final(self).bpm == old(self).bpm,
            final(self).attack == old(self).attack,
            final(self).release == old(self).release,
            final(self).draw_data == old(self).draw_data,
    {
        if idx < self.sequences.len() {
            self.sequences[idx].set_range_end(end);
        }
    }

    /// Sets the direction of sequence `idx`; it applies from the next step.
    /// An index without a sequence is ignored.
    pub fn set_play_mode(&mut self, idx: usize, playmode: PlayMode)
        requires
            old(self).wf(),
        ensures
            final(self).wf(),
            idx < old(self).sequences.len() ==> final(self).sequences@ == old(self).sequences@.update(
                idx as int,
                Sequence { play_mode: playmode, ..old(self).sequences[idx as int] },
            ),
            idx >= old(self).sequences.len() ==> final(self).sequences == old(self).sequences,
            final(self).steps == old(self).steps,
            final(self).transporter == old(self).transporter,
            final(self).bpm == old(self).bpm,
            final(self).attack == old(self).attack,
            final(self).release == old(self).release,
            final(self).draw_data == old(self).draw_data,
    {
        if idx < self.sequences.len() {
            self.sequences[idx].play_mode = playmode;
        }
    }

    /// Sets the attack, in milliseconds, for the voices of every step and for
    /// every later trigger.
    pub fn set_attack(&mut self, val: u32)
        requires
            old(self).wf(),
        ensures
            final(self).wf(),
            final(self).attack == val,
            final(self).steps_view() == Seq::new(
                old(self).steps.len() as nat,
                |i: int|
                    StepView {
                        voices: with_attack(old(self).steps_view()[i].voices, val),
                        ..old(self).steps_view()[i]
                    },
            ),
            final(self).sequences == old(self).sequences,
            final(self).transporter == old(self).transporter,
            final(self).bpm == old(self).bpm,
            final(self).release == old(self).release,
            final(self).draw_data == old(self).draw_data,
    {
        self.attack = val;
        let n = self.steps.len();
        let mut i: usize = 0;
        while i < n
            invariant
                self.draw_data == old(self).draw_data,
                0 <= i <= n,
                n == self.steps.len(),
                n == old(self).steps.len(),
                old(self).wf(),
                self.attack == val,
                self.sequences == old(self).sequences,
                self.transporter == old(self).transporter,
                self.bpm == old(self).bpm,
                self.release == old(self).release,
                forall|j: int| 0 <= j < n ==> (#[trigger] self.steps[j]).wf(),
                forall|j: int|
                    0 <= j < i ==> (#[trigger] self.steps[j])@ == (StepView {
                        voices: with_attack(old(self).steps[j]@.voices, val),
                        ..old(self).steps[j]@
                    }),
                forall|j: int| i <= j < n ==> (#[trigger] self.steps[j]) == old(self).steps[j],
            decreases n - i,
        {
            self.steps[i].set_attack(val);
            i += 1;
        }
        assert(self.steps_view() =~= Seq::new(
            old(self).steps.len() as nat,
            |i: int|
                StepView {
                    voices: with_attack(old(self).steps_view()[i].voices, val),
                    ..old(self).steps_view()[i]
                },
        ));
    }

    /// Sets the gain (in hundredths) of sequence `sequence`; it applies from
    /// the next trigger. An index without a sequence is ignored.
    pub fn set_gain(&mut self, val: u16, sequence: usize)
        requires
            old(self).wf(),
        ensures
            final(self).wf(),
            sequence < old(self).sequences.len() ==> final(self).sequences@
                == old(self).sequences@.update(
                sequence as int,
                Sequence { gain: val, ..old(self).sequences[sequence as int] },
            ),
            sequence >= old(self).sequences.len() ==> final(self).sequences == old(self).sequences,
            final(self).steps == old(self).steps,
            final(self).transporter == old(self).transporter,
            final(self).bpm == old(self).bpm,
            final(self).attack == old(self).attack,
            final(self).release == old(self).release,
            final(self).draw_data == old(self).draw_data,
    {
        if sequence < self.sequences.len() {
            self.sequences[sequence].gain = val;
        }
    }

    /// Sets the release, in milliseconds, for the voices of every step and
    /// for every later trigger.
    pub fn set_release(&mut self, val: u32)
        requires
            old(self).wf(),
        ensures
            final(self).wf(),
            final(self).release == val,
            final(self).steps_view() == Seq::new(
                old(self).steps.len() as nat,
                |i: int|
                    StepView {
                        voices: with_release(old(self).steps_view()[i].voices, val),
                        ..old(self).steps_view()[i]
                    },
            ),
            final(self).sequences == old(self).sequences,
            final(self).transporter == old(self).transporter,
            final(self).bpm == old(self).bpm,
            final(self).attack == old(self).attack,
            final(self).draw_data == old(self).draw_data,
    {
        self.release = val;
        let n = self.steps.len();
        let mut i: usize = 0;
        while i < n
            invariant
                self.draw_data == old(self).draw_data,
                0 <= i <= n,
                n == self.steps.len(),
                n == old(self).steps.len(),
                old(self).wf(),
                self.release == val,
                self.sequences == old(self).sequences,
                self.transporter == old(self).transporter,
                self.bpm == old(self).bpm,
                self.attack == old(self).attack,
                forall|j: int| 0 <= j < n ==> (#[trigger] self.steps[j]).wf(),
                forall|j: int|
                    0 <= j < i ==> (#[trigger] self.steps[j])@ == (StepView {
                        voices: with_release(old(self).steps[j]@.voices, val),
                        ..old(self).steps[j]@
                    }),
                forall|j: int| i <= j < n ==> (#[trigger] self.steps[j]) == old(self).steps[j],
            decreases n - i,
        {
            self.steps[i].set_release(val);
            i += 1;
        }
        assert(self.steps_view() =~= Seq::new(
            old(self).steps.len() as nat,
            |i: int|
                StepView {
                    voices: with_release(old(self).steps_view()[i].voices, val),
                    ..old(self).steps_view()[i]
                },
        ));
    }

    /// Starts or stops sequence `idx` (see `Sequence::toggle`). An index
    /// without a sequence is ignored.
    pub fn toggle(&mut self, idx: usize)
        requires
            old(self).wf(),
        ensures
            final(self).wf(),
            idx < old(self).sequences.len() ==> {
                let o = old(self).sequences[idx as int];
                final(self).sequences@ == old(self).sequences@.update(
                    idx as int,
                    match o.play_state {
                        PlayState::Playing => Sequence {
                            play_state: PlayState::Stopped,
                            counter: Counter { phase: 0, ..o.counter },
                            ..o
                        },
                        PlayState::Stopped => Sequence { play_state: PlayState::Resume, ..o },
                        PlayState::Resume => Sequence { play_state: PlayState::Stopped, ..o },
                    },
                )
            },
            idx >= old(self).sequences.len() ==> final(self).sequences == old(self).sequences,
            final(self).steps == old(self).steps,
            final(self).transporter == old(self).transporter,
            final(self).bpm == old(self).bpm,
            final(self).attack == old(self).attack,
            final(self).release == old(self).release,
            final(self).draw_data == old(self).draw_data,
    {
        if idx < self.sequences.len() {
            self.sequences[idx].toggle();
        }
    }

    /// Sets the tempo at once, without waiting for an apply pulse: the
    /// transporter's clock and every sequence's clock take the new rate and
    /// keep their phase.
    pub fn set_bpm(&mut self, bpm: u32)
        requires
            old(self).wf(),
        ensures
            final(self).wf(),
            final(self).bpm == bpm,
            final(self).transporter == (Transporter {
                counter: Counter {
                    increment: Subdivision::Sixteenth.hz_spec(bpm as nat) as u64,
                    ..old(self).transporter.counter
                },
                ..old(self).transporter
            }),
            final(self).sequences@ == Seq::new(
                old(self).sequences.len() as nat,
                |i: int|
                    Sequence {
                        counter: Counter {
                            increment: old(self).sequences[i].subdivision.hz_spec(bpm as nat) as u64,
                            ..old(self).sequences[i].counter
                        },
                        ..old(self).sequences[i]
                    },
            ),
            final(self).steps == old(self).steps,
            final(self).attack == old(self).attack,
            final(self).release == old(self).release,
            final(self).draw_data == old(self).draw_data,
    {
        self.bpm = bpm;
        self.transporter.set_bpm(bpm);
        let n = self.sequences.len();
        let mut i: usize = 0;
        while i < n
            invariant
                self.draw_data == old(self).draw_data,
                0 <= i <= n,
                n == self.sequences.len(),
                n == old(self).sequences.len(),
                old(self).wf(),
                self.bpm == bpm,
                self.transporter == (Transporter {
                    counter: Counter {
                        increment: Subdivision::Sixteenth.hz_spec(bpm as nat) as u64,
                        ..old(self).transporter.counter
                    },
                    ..old(self).transporter
                }),
                self.steps == old(self).steps,
                self.attack == old(self).attack,
                self.release == old(self).release,
                forall|j: int|
                    0 <= j < i ==> #[trigger] self.sequences[j] == (Sequence {
                        counter: Counter {
                            increment: old(self).sequences[j].subdivision.hz_spec(bpm as nat) as u64,
                            ..old(self).sequences[j].counter
                        },
                        ..old(self).sequences[j]
                    }),
                forall|j: int| i <= j < n ==> #[trigger] self.sequences[j] == old(self).sequences[j],
            decreases n - i,
        {
            self.sequences[i].set_bpm(bpm);
            i += 1;
        }
        assert(self.sequences@ =~= Seq::new(
            old(self).sequences.len() as nat,
            |i: int|
                Sequence {
                    counter: Counter {
                        increment: old(self).sequences[i].subdivision.hz_spec(bpm as nat) as u64,
                        ..old(self).sequences[i].counter
                    },
                    ..old(self).sequences[i]
                },
        ));
    }

    /// Asks sequence `index` to change its subdivision on the next apply
    /// pulse. An index without a sequence is ignored.
    pub fn set_subdivision(&mut self, index: usize, subdivision: Subdivision)
        requires
            old(self).wf(),
        ensures
            final(self).wf(),
            index < old(self).sequences.len() ==> final(self).sequences@
                == old(self).sequences@.update(
                index as int,
                Sequence { next_subdivision: Some(subdivision), ..old(self).sequences[index as int] },
            ),
            index >= old(self).sequences.len() ==> final(self).sequences == old(self).sequences,
            final(self).steps == old(self).steps,
            final(self).transporter == old(self).transporter,
            final(self).bpm == old(self).bpm,
            final(self).attack == old(self).attack,
            final(self).release == old(self).release,
            final(self).draw_data == old(self).draw_data,
    {
        if index < self.sequences.len() {
            self.sequences[index].set_subdivision(subdivision);
        }
    }
}

/// A subdivision change that a sequence holds pending commits in a render
/// exactly when the transporter gives the apply pulse in that render, which
/// happens only on a pulse of its clock that matches its quantisation (every
/// sixteenth, or the last sixteenth of a quarter). Without the pulse the
/// current subdivision and the pending one both stay.
pub proof fn lemma_subdivision_waits_for_apply(s: Sequencer, i: int)
    requires
        s.wf(),
        0 <= i < s.sequences.len(),
        s.sequences[i].next_subdivision is Some,
    ensures
        s.applies() == (s.transporter.counter.fires() && (s.transporter.quantisation
            == Subdivision::Sixteenth || s.transporter.sixteenth == 3)),
        !s.applies() ==> s.next_sequences()[i].subdivision == s.sequences[i].subdivision
            && s.next_sequences()[i].next_subdivision == s.sequences[i].next_subdivision,
        s.applies() ==> s.next_sequences()[i].subdivision == s.sequences[i].next_subdivision->0
            && s.next_sequences()[i].next_subdivision is None,
{
}

/// Triggers change only the voices of the steps: the buffers, record heads
/// and states stay.
proof fn lemma_triggers_keep_recordings(
    steps: Seq<StepView>,
    ts: Seq<Trigger>,
    attack: u32,
    release: u32,
)
    ensures
        apply_triggers(steps, ts, attack, release).len() == steps.len(),
        forall|i: int|
            0 <= i < steps.len() ==> {
                let r = #[trigger] apply_triggers(steps, ts, attack, release)[i];
                &&& r.buffer == steps[i].buffer
                &&& r.record_head == steps[i].record_head
                &&& r.state == steps[i].state
            },
    decreases ts.len(),
{
    if ts.len() > 0 {
        lemma_triggers_keep_recordings(steps, ts.drop_last(), attack, release);
    }
}

/// The recording side of a step of the engine.
pub open spec fn step_record(s: Sequencer, j: int) -> RecordModel {
    s.steps[j].record_model()
}

/// A render records its input into every recording step, and changes no
/// step's recording otherwise.
pub open spec fn rendered_from(s: Sequencer, input: i32, t: Sequencer) -> bool {
    &&& t.steps.len() == s.steps.len()
    &&& t.steps_view() == Seq::new(
        STEP_NUM as nat,
        |i: int| s.played_steps(input)[i].advanced(),
    )
}

/// After `record(j)` a run of renders records a full pass into step `j`: as
/// many renders as its buffer holds samples leave it recorded, holding their
/// inputs in order, with its head back at the start; after `k` renders of the
/// pass, fewer than the buffer length, it is still recording with its head at
/// `k`. `states[k + 1]` is the engine after the render of `inputs[k]` on
/// `states[k]`, as `render` ensures.
pub proof fn lemma_record_pass_over_renders(states: Seq<Sequencer>, inputs: Seq<i32>, j: int)
    requires
        states.len() == inputs.len() + 1,
        forall|k: int| 0 <= k < inputs.len() ==> (#[trigger] states[k]).wf(),
        forall|k: int|
            0 <= k < inputs.len() ==> rendered_from(states[k], inputs[k], #[trigger] states[k + 1]),
        0 <= j < STEP_NUM,
        states[0].wf(),
        states[0].steps[j].state == StepState::Recording,
        states[0].steps[j].record_head == 0,
        inputs.len() == states[0].steps[j].buffer.len(),
    ensures
        forall|k: int|
            0 <= k < inputs.len() ==> (#[trigger] states[k]).steps[j].state == StepState::Recording
                && states[k].steps[j].record_head == k,
        states[inputs.len() as int].steps[j].state == StepState::Recorded,
        states[inputs.len() as int].steps[j].record_head == 0,
        states[inputs.len() as int].steps[j].buffer@ == inputs,
{
    let n = inputs.len();
    let m = step_record(states[0], j);
    assert forall|k: int| 0 <= k <= n implies #[trigger] step_record(states[k], j) == m.recorded_all(
        inputs.take(k),
    ) by {
        lemma_pass_prefix(states, inputs, j, k as nat);
    }
    lemma_full_record_pass(m, inputs);
    assert(inputs.take(n as int) =~= inputs);
    assert forall|k: int|
        0 <= k < n implies (#[trigger] states[k]).steps[j].state == StepState::Recording
        && states[k].steps[j].record_head == k by {
        lemma_record_prefix(m, inputs, k as nat);
        lemma_pass_prefix(states, inputs, j, k as nat);
    }
    lemma_pass_prefix(states, inputs, j, n as nat);
}

proof fn lemma_pass_prefix(states: Seq<Sequencer>, inputs: Seq<i32>, j: int, k: nat)
    requires
        states.len() == inputs.len() + 1,
        forall|k: int| 0 <= k < inputs.len() ==> (#[trigger] states[k]).wf(),
        forall|k: int|
            0 <= k < inputs.len() ==> rendered_from(states[k], inputs[k], #[trigger] states[k + 1]),
        0 <= j < STEP_NUM,
        states[0].wf(),
        states[0].steps[j].state == StepState::Recording,
        states[0].steps[j].record_head == 0,
        inputs.len() == states[0].steps[j].buffer.len(),
        k <= inputs.len(),
    ensures
        step_record(states[k as int], j) == step_record(states[0], j).recorded_all(inputs.take(k as int)),
    decreases k,
{
    let m = step_record(states[0], j);
    if k == 0 {
        assert(inputs.take(0) =~= Seq::<i32>::empty());
    } else {
        let p = (k - 1) as nat;
        lemma_pass_prefix(states, inputs, j, p);
        lemma_record_prefix(m, inputs, p);
        let s = states[p as int];
        let t = states[k as int];
        assert(rendered_from(s, inputs[p as int], t));
        let recorded = Seq::new(
            s.steps.len() as nat,
            |i: int| s.steps_view()[i].after_input(inputs[p as int]),
        );
        lemma_triggers_keep_recordings(recorded, s.next_triggers(), s.attack, s.release);
        assert(t.steps_view()[j] == s.played_steps(inputs[p as int])[j].advanced());
        assert(inputs.take(k as int).drop_last() =~= inputs.take(p as int));
        assert(t.steps[j].buffer@ == t.steps_view()[j].buffer);
        assert(step_record(t, j) == step_record(s, j).recorded(inputs[p as int]));
    }
}

} // verus!
