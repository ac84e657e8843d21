use vstd::prelude::*;

use triple_buffer::{Input, Output};

use crate::sequence::{PlayMode, Sequence};
use crate::step::{Step, StepState};
use crate::subdivision::Subdivision;
use crate::transporter::Transporter;
use crate::voice::PITCH_ONE;
use crate::{INIT_BPM, SEQUENCES, STEP_NUM};

verus! {

#[verifier::external_type_specification]
#[verifier::external_body]
#[verifier::reject_recursive_types(T)]
pub struct ExInput<T: Send>(Input<T>);

#[verifier::external_type_specification]
#[verifier::external_body]
#[verifier::reject_recursive_types(T)]
pub struct ExOutput<T: Send>(Output<T>);

/// The contents of the writer's private slot of a snapshot exchange.
pub uninterp spec fn writer_slot_of(input: Input<DrawData>) -> DrawData;

/// The value most recently published through a snapshot exchange: what its
/// reader sees on its next read.
pub uninterp spec fn latest_of(input: Input<DrawData>) -> DrawData;

/// The value that the reader end of a snapshot exchange holds.
pub uninterp spec fn reader_value_of(output: Output<DrawData>) -> DrawData;

/// Relies on `triple_buffer::triple_buffer`: a latest-value exchange whose
/// three slots all start as clones of `initial`, split into its writer and
/// reader ends.
#[verifier::external_body]
pub(crate) fn new_exchange(initial: &DrawData) -> (r: (Input<DrawData>, Output<DrawData>))
    ensures
        writer_slot_of(r.0).same_view(*initial),
        latest_of(r.0).same_view(*initial),
        reader_value_of(r.1).same_view(*initial),
{
    triple_buffer::triple_buffer(initial)
}

/// Relies on `triple_buffer::Input::input_buffer_mut`: the writer's private
/// slot, to fill in place. What is written through it stays in the slot; the
/// published value does not change.
#[verifier::external_body]
pub(crate) fn writer_slot(input: &mut Input<DrawData>) -> (r: &mut DrawData)
    ensures
        *r == writer_slot_of(*old(input)),
        writer_slot_of(*final(input)) == *final(r),
        latest_of(*final(input)) == latest_of(*old(input)),
{
    input.input_buffer_mut()
}

/// Relies on `triple_buffer::Input::publish`: the writer's slot becomes the
/// latest value that the reader sees. Returns whether an unread value was
/// overwritten.
#[verifier::external_body]
pub(crate) fn publish(input: &mut Input<DrawData>) -> (r: bool)
    ensures
        latest_of(*final(input)) == writer_slot_of(*old(input)),
{
    input.publish()
}

/// The subdivision that the interface shows for a sequence: the pending one
/// if a change waits, else the current one.
pub open spec fn shown_subdivision(s: Sequence) -> Subdivision {
    match s.next_subdivision {
        Some(n) => n,
        None => s.subdivision,
    }
}

/// What the interface shows of the engine: per sequence its position,
/// subdivision, pitch, range, direction and gain; per step its state; the
/// tempo and the transport position (bar, quarter, sixteenth).
pub struct DrawData {
    pub positions: Vec<u8>,
    pub subdivisions: Vec<Subdivision>,
    pub pitches: Vec<u32>,
    pub ranges: Vec<(u8, u8)>,
    pub dirs: Vec<PlayMode>,
    pub step_states: Vec<StepState>,
    pub bpm: u32,
    pub transporter: (u8, u8, u8),
    pub gains: Vec<u16>,
}

impl Clone for DrawData {
    fn clone(&self) -> (r: Self)
        ensures
            r.positions@ == self.positions@,
            r.subdivisions@ == self.subdivisions@,
            r.pitches@ == self.pitches@,
            r.ranges@ == self.ranges@,
            r.dirs@ == self.dirs@,
            r.step_states@ == self.step_states@,
            r.gains@ == self.gains@,
            r.bpm == self.bpm,
            r.transporter == self.transporter,
    {
        let mut ranges: Vec<(u8, u8)> = Vec::with_capacity(self.ranges.len());
        let mut i: usize = 0;
        while i < self.ranges.len()
            invariant
                0 <= i <= self.ranges.len(),
                ranges@ == self.ranges@.take(i as int),
            decreases self.ranges.len() - i,
        {
            ranges.push(self.ranges[i]);
            i += 1;
            assert(ranges@ =~= self.ranges@.take(i as int));
        }
        assert(self.ranges@.take(self.ranges.len() as int) =~= self.ranges@);
        DrawData {
            positions: self.positions.clone(),
            subdivisions: self.subdivisions.clone(),
            pitches: self.pitches.clone(),
            ranges,
            dirs: self.dirs.clone(),
            step_states: self.step_states.clone(),
            bpm: self.bpm,
            transporter: self.transporter,
            gains: self.gains.clone(),
        }
    }
}

impl DrawData {
    /// Whether two snapshots hold the same values.
    pub open spec fn same_view(self, other: DrawData) -> bool {
        &&& self.positions@ == other.positions@
        &&& self.subdivisions@ == other.subdivisions@
        &&& self.pitches@ == other.pitches@
        &&& self.ranges@ == other.ranges@
        &&& self.dirs@ == other.dirs@
        &&& self.step_states@ == other.step_states@
        &&& self.gains@ == other.gains@
        &&& self.bpm == other.bpm
        &&& self.transporter == other.transporter
    }

    /// Whether the snapshot is the one shown before the engine first
    /// publishes (see `new`).
    pub open spec fn is_initial(self) -> bool {
        &&& self.positions@ == Seq::new(SEQUENCES as nat, |i: int| 0u8)
        &&& self.subdivisions@ == Seq::new(SEQUENCES as nat, |i: int| Subdivision::Quarter)
        &&& self.pitches@ == Seq::new(SEQUENCES as nat, |i: int| PITCH_ONE)
        &&& self.ranges@ == Seq::new(SEQUENCES as nat, |i: int| (0u8, 0u8))
        &&& self.dirs@ == Seq::new(SEQUENCES as nat, |i: int| PlayMode::Forwards)
        &&& self.gains@ == Seq::new(SEQUENCES as nat, |i: int| 80u16)
        &&& self.step_states@ == Seq::new(STEP_NUM as nat, |i: int| StepState::Empty)
        &&& self.bpm == INIT_BPM
        &&& self.transporter == (0u8, 0u8, 0u8)
    }

    /// Whether the snapshot shows exactly the given engine state.
    pub open spec fn shows(
        self,
        sequences: Seq<Sequence>,
        steps: Seq<Step>,
        transporter: Transporter,
        bpm: u32,
    ) -> bool {
        let n = sequences.len();
        &&& self.positions@ == Seq::new(n, |i: int| sequences[i].current_step)
        &&& self.subdivisions@ == Seq::new(n, |i: int| shown_subdivision(sequences[i]))
        &&& self.pitches@ == Seq::new(n, |i: int| sequences[i].pitch)
        &&& self.ranges@ == Seq::new(n, |i: int| sequences[i].play_range)
        &&& self.dirs@ == Seq::new(n, |i: int| sequences[i].play_mode)
        &&& self.gains@ == Seq::new(n, |i: int| sequences[i].gain)
        &&& self.step_states@ == Seq::new(steps.len(), |i: int| steps[i].state)
        &&& self.bpm == bpm
        &&& self.transporter == (transporter.bar, transporter.quater, transporter.sixteenth)
    }

    /// The snapshot before the engine first publishes: every sequence at
    /// step 0 on quarters at pitch 1.0, range (0, 0), forwards, gain 0.8;
    /// every step empty; the start-up tempo; the transport at its start.
    pub fn new() -> (r: Self)
        ensures
            r.is_initial(),
            r.positions@ == Seq::new(SEQUENCES as nat, |i: int| 0u8),
            r.subdivisions@ == Seq::new(SEQUENCES as nat, |i: int| Subdivision::Quarter),
            r.pitches@ == Seq::new(SEQUENCES as nat, |i: int| PITCH_ONE),
            r.ranges@ == Seq::new(SEQUENCES as nat, |i: int| (0u8, 0u8)),
            r.dirs@ == Seq::new(SEQUENCES as nat, |i: int| PlayMode::Forwards),
            r.gains@ == Seq::new(SEQUENCES as nat, |i: int| 80u16),
            r.step_states@ == Seq::new(STEP_NUM as nat, |i: int| StepState::Empty),
            r.bpm == INIT_BPM,
            r.transporter == (0u8, 0u8, 0u8),
    {
        let mut r = DrawData {
            positions: Vec::new(),
            subdivisions: Vec::new(),
            pitches: Vec::new(),
            ranges: Vec::new(),
            dirs: Vec::new(),
            step_states: Vec::new(),
            bpm: INIT_BPM,
            transporter: (0, 0, 0),
            gains: Vec::new(),
        };
        let mut i: usize = 0;
        while i < SEQUENCES
            invariant
                0 <= i <= SEQUENCES,
                r.positions@ == Seq::new(i as nat, |j: int| 0u8),
                r.subdivisions@ == Seq::new(i as nat, |j: int| Subdivision::Quarter),
                r.pitches@ == Seq::new(i as nat, |j: int| PITCH_ONE),
                r.ranges@ == Seq::new(i as nat, |j: int| (0u8, 0u8)),
                r.dirs@ == Seq::new(i as nat, |j: int| PlayMode::Forwards),
                r.gains@ == Seq::new(i as nat, |j: int| 80u16),
                r.step_states@ == Seq::<StepState>::empty(),
                r.bpm == INIT_BPM,
                r.transporter == (0u8, 0u8, 0u8),
            decreases SEQUENCES - i,
        {
            r.positions.push(0);
            r.subdivisions.push(Subdivision::Quarter);
            r.pitches.push(PITCH_ONE);
            r.ranges.push((0, 0));
            r.dirs.push(PlayMode::Forwards);
            r.gains.push(80);
            i += 1;
            assert(r.positions@ =~= Seq::new(i as nat, |j: int| 0u8));
            assert(r.subdivisions@ =~= Seq::new(i as nat, |j: int| Subdivision::Quarter));
            assert(r.pitches@ =~= Seq::new(i as nat, |j: int| PITCH_ONE));
            assert(r.ranges@ =~= Seq::new(i as nat, |j: int| (0u8, 0u8)));
            assert(r.dirs@ =~= Seq::new(i as nat, |j: int| PlayMode::Forwards));
            assert(r.gains@ =~= Seq::new(i as nat, |j: int| 80u16));
        }
        let mut k: u8 = 0;
        while k < STEP_NUM
            invariant
                0 <= k <= STEP_NUM,
                r.positions@ == Seq::new(SEQUENCES as nat, |j: int| 0u8),
                r.subdivisions@ == Seq::new(SEQUENCES as nat, |j: int| Subdivision::Quarter),
                r.pitches@ == Seq::new(SEQUENCES as nat, |j: int| PITCH_ONE),
                r.ranges@ == Seq::new(SEQUENCES as nat, |j: int| (0u8, 0u8)),
                r.dirs@ == Seq::new(SEQUENCES as nat, |j: int| PlayMode::Forwards),
                r.gains@ == Seq::new(SEQUENCES as nat, |j: int| 80u16),
                r.step_states@ == Seq::new(k as nat, |j: int| StepState::Empty),
                r.bpm == INIT_BPM,
                r.transporter == (0u8, 0u8, 0u8),
            decreases STEP_NUM - k,
        {
            r.step_states.push(StepState::Empty);
            k += 1;
            assert(r.step_states@ =~= Seq::new(k as nat, |j: int| StepState::Empty));
        }
        r
    }

    /// Overwrites the snapshot, in place, with the given engine state.
    pub fn fill(
        &mut self,
        sequences: &Vec<Sequence>,
        steps: &Vec<Step>,
        transporter: &Transporter,
        bpm: u32,
    )
        ensures
            final(self).shows(sequences@, steps@, *transporter, bpm),
    {
        self.positions.clear();
        self.subdivisions.clear();
        self.pitches.clear();
        self.ranges.clear();
        self.dirs.clear();
        self.gains.clear();
        self.step_states.clear();
        let n = sequences.len();
        let mut i: usize = 0;
        while i < n
            invariant
                0 <= i <= n,
                n == sequences.len(),
                self.positions@ == Seq::new(i as nat, |j: int| sequences[j].current_step),
                self.subdivisions@ == Seq::new(i as nat, |j: int| shown_subdivision(sequences[j])),
                self.pitches@ == Seq::new(i as nat, |j: int| sequences[j].pitch),
                self.ranges@ == Seq::new(i as nat, |j: int| sequences[j].play_range),
                self.dirs@ == Seq::new(i as nat, |j: int| sequences[j].play_mode),
                self.gains@ == Seq::new(i as nat, |j: int| sequences[j].gain),
                self.step_states@ == Seq::<StepState>::empty(),
            decreases n - i,
        {
            let s = &sequences[i];
            self.positions.push(s.current_step);
            let shown = match s.next_subdivision {
                Some(next) => next,
                None => s.subdivision,
            };
            self.subdivisions.push(shown);
            self.pitches.push(s.pitch);
            self.ranges.push(s.play_range);
            self.dirs.push(s.play_mode);
            self.gains.push(s.gain);
            i += 1;
            assert(self.positions@ =~= Seq::new(i as nat, |j: int| sequences[j].current_step));
            assert(self.subdivisions@ =~= Seq::new(
                i as nat,
                |j: int| shown_subdivision(sequences[j]),
            ));
            assert(self.pitches@ =~= Seq::new(i as nat, |j: int| sequences[j].pitch));
            assert(self.ranges@ =~= Seq::new(i as nat, |j: int| sequences[j].play_range));
            assert(self.dirs@ =~= Seq::new(i as nat, |j: int| sequences[j].play_mode));
            assert(self.gains@ =~= Seq::new(i as nat, |j: int| sequences[j].gain));
        }
        let m = steps.len();
        let mut k: usize = 0;
        while k < m
            invariant
                0 <= k <= m,
                m == steps.len(),
                n == sequences.len(),
                self.positions@ == Seq::new(n as nat, |j: int| sequences[j].current_step),
                self.subdivisions@ == Seq::new(n as nat, |j: int| shown_subdivision(sequences[j])),
                self.pitches@ == Seq::new(n as nat, |j: int| sequences[j].pitch),
                self.ranges@ == Seq::new(n as nat, |j: int| sequences[j].play_range),
                self.dirs@ == Seq::new(n as nat, |j: int| sequences[j].play_mode),
                self.gains@ == Seq::new(n as nat, |j: int| sequences[j].gain),
                self.step_states@ == Seq::new(k as nat, |j: int| steps[j].state),
            decreases m - k,
        {
            self.step_states.push(steps[k].state);
            k += 1;
            assert(self.step_states@ =~= Seq::new(k as nat, |j: int| steps[j].state));
        }
        self.bpm = bpm;
        self.transporter = (transporter.bar, transporter.quater, transporter.sixteenth);
    }
}

} // verus!
