use vstd::prelude::*;

use vstd::arithmetic::div_mod::lemma_multiply_divide_lt;

use crate::voice::{env_increment, Voice, ENV_LIMIT, MAX_BUFFER_LEN, POS_ONE};
use crate::{AUDIO_BUFFER_SIZE_SEC, VOICE_NUM};

verus! {

/// Lifecycle of a step's recording.
#[derive(Debug, Clone, Copy, PartialEq, Eq, Structural)]
pub enum StepState {
    Recording,
    Recorded,
    Empty,
}

impl StepState {
    /// Display symbol of the state.
    pub open spec fn symbol(self) -> Seq<char> {
        match self {
            StepState::Recording => "  ●  "@,
            StepState::Recorded => "  ○  "@,
            StepState::Empty => "  -  "@,
        }
    }

    /// Display symbol of the state.
    pub fn get_symbol(&self) -> (r: &'static str)
        ensures
            r@ == self.symbol(),
    {
        match self {
            StepState::Recording => "  ●  ",
            StepState::Recorded => "  ○  ",
            StepState::Empty => "  -  ",
        }
    }
}

/// The recording side of a step: its buffer, write head and state.
pub struct RecordModel {
    pub buffer: Seq<i32>,
    pub head: nat,
    pub state: StepState,
}

impl RecordModel {
    /// The model after one recorded sample: the sample lands under the head,
    /// which moves on; at the end of the buffer the recording is complete and
    /// the head wraps to the start.
    pub open spec fn recorded(self, sample: i32) -> RecordModel {
        let head = self.head + 1;
        if head >= self.buffer.len() {
            RecordModel {
                buffer: self.buffer.update(self.head as int, sample),
                head: 0,
                state: StepState::Recorded,
            }
        } else {
            RecordModel {
                buffer: self.buffer.update(self.head as int, sample),
                head,
                state: self.state,
            }
        }
    }

    /// The model after recording `samples` in turn.
    pub open spec fn recorded_all(self, samples: Seq<i32>) -> RecordModel
        decreases samples.len(),
    {
        if samples.len() == 0 {
            self
        } else {
            self.recorded_all(samples.drop_last()).recorded(samples.last())
        }
    }
}

/// A buffer sample at a fractional head position, linearly interpolated with
/// the sample after it (wrapping at the end of the buffer), in units of
/// `1 / POS_ONE` sample values.
pub open spec fn interpolated(buffer: Seq<i32>, head: u64) -> int {
    let p = head / POS_ONE;
    let frac = head % POS_ONE;
    let next = (p + 1) % (buffer.len() as int);
    buffer[p as int] * (POS_ONE - frac) + buffer[next as int] * frac
}

/// What a voice adds to the mix once it has advanced: the interpolated
/// sample, scaled by its envelope and gain.
pub open spec fn voice_output(buffer: Seq<i32>, v: Voice) -> int {
    interpolated(buffer, v.play_head) * v.env * v.gain
}

/// The mix of the first `n` voices: each voice that was playing contributes
/// after its advance.
pub open spec fn mix(buffer: Seq<i32>, voices: Seq<Voice>, n: nat) -> int
    decreases n,
{
    if n == 0 {
        0
    } else {
        mix(buffer, voices, (n - 1) as nat) + if voices[n - 1].is_playing {
            voice_output(buffer, voices[n - 1].rendered())
        } else {
            0
        }
    }
}

/// The first voice at or after `i` that is not playing, or the pool size.
pub open spec fn first_idle(voices: Seq<Voice>, i: nat) -> nat
    decreases voices.len() - i,
{
    if i >= voices.len() {
        voices.len()
    } else if !voices[i as int].is_playing {
        i
    } else {
        first_idle(voices, i + 1)
    }
}

/// A voice with its envelope ramps set from attack and release lengths.
pub open spec fn with_envelope(v: Voice, attack: u32, release: u32) -> Voice {
    Voice {
        env_inc_attack: env_increment(v.sample_rate as nat, attack as nat, v.pitch as nat) as u64,
        env_inc_release: env_increment(v.sample_rate as nat, release as nat, v.pitch as nat) as u64,
        ..v
    }
}

/// Largest magnitude of one voice's output (see `voice_output`).
pub const VOICE_OUTPUT_BOUND: i128 = 0x80_0000_0000_0000_0000_0000_0000;

/// The voices after a trigger: every voice takes the attack and release
/// lengths, then the first idle voice, if any, starts at `pitch` and `gain`.
pub open spec fn triggered(voices: Seq<Voice>, pitch: u32, gain: u16, attack: u32, release: u32) -> Seq<Voice> {
    let k = first_idle(voices, 0);
    Seq::new(
        voices.len(),
        |i: int|
            if i == k {
                Voice { pitch, gain, is_playing: true, ..with_envelope(voices[i], attack, release) }
            } else {
                with_envelope(voices[i], attack, release)
            },
    )
}

/// The voices after one sample: those that were playing advance.
pub open spec fn advanced_voices(voices: Seq<Voice>) -> Seq<Voice> {
    Seq::new(
        voices.len(),
        |i: int|
            if voices[i].is_playing {
                voices[i].rendered()
            } else {
                voices[i]
            },
    )
}

/// The voices after their attack is set to `ms` milliseconds.
pub open spec fn with_attack(voices: Seq<Voice>, ms: u32) -> Seq<Voice> {
    Seq::new(
        voices.len(),
        |i: int|
            Voice {
                env_inc_attack: env_increment(
                    voices[i].sample_rate as nat,
                    ms as nat,
                    voices[i].pitch as nat,
                ) as u64,
                ..voices[i]
            },
    )
}

/// The voices after their release is set to `ms` milliseconds.
pub open spec fn with_release(voices: Seq<Voice>, ms: u32) -> Seq<Voice> {
    Seq::new(
        voices.len(),
        |i: int|
            Voice {
                env_inc_release: env_increment(
                    voices[i].sample_rate as nat,
                    ms as nat,
                    voices[i].pitch as nat,
                ) as u64,
                ..voices[i]
            },
    )
}

/// The mathematical value of a step.
pub struct StepView {
    pub buffer: Seq<i32>,
    pub record_head: nat,
    pub voices: Seq<Voice>,
    pub state: StepState,
}

impl StepView {
    /// The step after it has taken one input sample: a recording step records
    /// it, any other step ignores it.
    pub open spec fn after_input(self, sample: i32) -> StepView {
        if self.state == StepState::Recording {
            let m = RecordModel {
                buffer: self.buffer,
                head: self.record_head,
                state: self.state,
            }.recorded(sample);
            StepView { buffer: m.buffer, record_head: m.head, state: m.state, voices: self.voices }
        } else {
            self
        }
    }

    /// The step after a trigger (see `triggered`).
    pub open spec fn played(self, pitch: u32, gain: u16, attack: u32, release: u32) -> StepView {
        StepView { voices: triggered(self.voices, pitch, gain, attack, release), ..self }
    }

    /// The step after its playing voices advance by one sample.
    pub open spec fn advanced(self) -> StepView {
        StepView { voices: advanced_voices(self.voices), ..self }
    }

    /// What the step adds to the mix as its voices advance by one sample.
    pub open spec fn output(self) -> int {
        mix(self.buffer, self.voices, self.voices.len())
    }
}

/// A record slot: a circular buffer of fixed length, a fixed pool of voices
/// that play it back, and the state of its recording.
pub struct Step {
    pub buffer: Vec<i32>,
    pub record_head: usize,
    pub voices: Vec<Voice>,
    pub state: StepState,
}

impl View for Step {
    type V = StepView;

    open spec fn view(&self) -> StepView {
        StepView {
            buffer: self.buffer@,
            record_head: self.record_head as nat,
            voices: self.voices@,
            state: self.state,
        }
    }
}

impl Step {
    pub open spec fn wf(self) -> bool {
        &&& 0 < self.buffer.len() <= MAX_BUFFER_LEN
        &&& self.record_head < self.buffer.len()
        &&& self.voices.len() == VOICE_NUM
        &&& forall|i: int|
            0 <= i < self.voices.len() ==> (#[trigger] self.voices[i]).wf()
                && self.voices[i].buffer_size == self.buffer.len()
    }

    pub open spec fn record_model(self) -> RecordModel {
        RecordModel { buffer: self.buffer@, head: self.record_head as nat, state: self.state }
    }

    /// An empty step with a silent buffer of `AUDIO_BUFFER_SIZE_SEC` seconds
    /// and an idle voice pool.
    pub fn new(sample_rate: u32) -> (r: Self)
        requires
            sample_rate > 0,
            sample_rate * AUDIO_BUFFER_SIZE_SEC <= usize::MAX,
        ensures
            r.wf(),
            r.buffer.len() == sample_rate * AUDIO_BUFFER_SIZE_SEC,
            forall|i: int| 0 <= i < r.buffer.len() ==> r.buffer[i] == 0,
            r.record_head == 0,
            r.state == StepState::Empty,
            forall|i: int|
                0 <= i < r.voices.len() ==> r.voices[i] == Voice::new_spec(
                    sample_rate,
                    r.buffer.len(),
                ),
    {
        let buffer_size = sample_rate as usize * AUDIO_BUFFER_SIZE_SEC as usize;
        let buffer: Vec<i32> = vec![0; buffer_size];
        let mut voices: Vec<Voice> = Vec::with_capacity(VOICE_NUM as usize);
        let mut k: u8 = 0;
        while k < VOICE_NUM
            invariant
                0 <= k <= VOICE_NUM,
                voices.len() == k,
                0 < buffer_size <= MAX_BUFFER_LEN,
                forall|i: int|
                    0 <= i < k ==> voices[i] == Voice::new_spec(sample_rate, buffer_size),
            decreases VOICE_NUM - k,
        {
            voices.push(Voice::new(sample_rate, buffer_size));
            k += 1;
        }
        Step { buffer, record_head: 0, voices, state: StepState::Empty }
    }

    /// Sets the attack of every voice to `ms` milliseconds.
    pub fn set_attack(&mut self, ms: u32)
        requires
            old(self).wf(),
        ensures
            final(self).wf(),
            final(self).buffer == old(self).buffer,
            final(self).record_head == old(self).record_head,
            final(self).state == old(self).state,
            final(self).voices.len() == old(self).voices.len(),
            forall|i: int|
                0 <= i < final(self).voices.len() ==> final(self).voices[i] == (Voice {
                    env_inc_attack: env_increment(
                        old(self).voices[i].sample_rate as nat,
                        ms as nat,
                        old(self).voices[i].pitch as nat,
                    ) as u64,
                    ..old(self).voices[i]
                }),
            final(self).voices@ == with_attack(old(self).voices@, ms),
    {
        let n = self.voices.len();
        let mut i: usize = 0;
        while i < n
            invariant
                0 <= i <= n,
                n == self.voices.len(),
                self.buffer == old(self).buffer,
                self.record_head == old(self).record_head,
                self.state == old(self).state,
                old(self).wf(),
                self.voices.len() == old(self).voices.len(),
                forall|j: int|
                    0 <= j < i ==> self.voices[j] == (Voice {
                        env_inc_attack: env_increment(
                            old(self).voices[j].sample_rate as nat,
                            ms as nat,
                            old(self).voices[j].pitch as nat,
                        ) as u64,
                        ..old(self).voices[j]
                    }),
                forall|j: int| i <= j < n ==> self.voices[j] == old(self).voices[j],
            decreases n - i,
        {
            self.voices[i].set_attack(ms);
            i += 1;
        }
        assert(self.voices@ =~= with_attack(old(self).voices@, ms));
    }

    /// Sets the release of every voice to `ms` milliseconds.
    pub fn set_release(&mut self, ms: u32)
        requires
            old(self).wf(),
        ensures
            final(self).wf(),
            final(self).buffer == old(self).buffer,
            final(self).record_head == old(self).record_head,
            final(self).state == old(self).state,
            final(self).voices.len() == old(self).voices.len(),
            forall|i: int|
                0 <= i < final(self).voices.len() ==> final(self).voices[i] == (Voice {
                    env_inc_release: env_increment(
                        old(self).voices[i].sample_rate as nat,
                        ms as nat,
                        old(self).voices[i].pitch as nat,
                    ) as u64,
                    ..old(self).voices[i]
                }),
            final(self).voices@ == with_release(old(self).voices@, ms),
    {
        let n = self.voices.len();
        let mut i: usize = 0;
        while i < n
            invariant
                0 <= i <= n,
                n == self.voices.len(),
                self.buffer == old(self).buffer,
                self.record_head == old(self).record_head,
                self.state == old(self).state,
                old(self).wf(),
                self.voices.len() == old(self).voices.len(),
                forall|j: int|
                    0 <= j < i ==> self.voices[j] == (Voice {
                        env_inc_release: env_increment(
                            old(self).voices[j].sample_rate as nat,
                            ms as nat,
                            old(self).voices[j].pitch as nat,
                        ) as u64,
                        ..old(self).voices[j]
                    }),
                forall|j: int| i <= j < n ==> self.voices[j] == old(self).voices[j],
            decreases n - i,
        {
            self.voices[i].set_release(ms);
            i += 1;
        }
        assert(self.voices@ =~= with_release(old(self).voices@, ms));
    }

    /// Writes one sample under the record head and moves the head on; at the
    /// end of the buffer the step becomes recorded and the head wraps.
    pub fn record(&mut self, sample: i32)
        requires
            old(self).wf(),
        ensures
            final(self).wf(),
            final(self).record_model() == old(self).record_model().recorded(sample),
            final(self).voices == old(self).voices,
    {
        let head = self.record_head;
        self.buffer.set(head, sample);
        self.record_head = head + 1;
        if self.record_head >= self.buffer.len() {
            self.state = StepState::Recorded;
            self.record_head = 0;
        }
        assert(self.buffer@ == old(self).buffer@.update(head as int, sample));
    }

    /// Silences the whole buffer and returns the step to empty, whatever its
    /// state was.
    pub fn erase(&mut self)
        requires
            old(self).wf(),
        ensures
            final(self).wf(),
            final(self).buffer.len() == old(self).buffer.len(),
            forall|i: int| 0 <= i < final(self).buffer.len() ==> final(self).buffer[i] == 0,
            final(self).state == StepState::Empty,
            final(self).record_head == 0,
            final(self).voices == old(self).voices,
    {
        let n = self.buffer.len();
        let mut i: usize = 0;
        while i < n
            invariant
                0 <= i <= n,
                n == self.buffer.len(),
                n == old(self).buffer.len(),
                self.voices == old(self).voices,
                self.record_head == old(self).record_head,
                self.state == old(self).state,
                old(self).wf(),
                forall|j: int| 0 <= j < i ==> self.buffer[j] == 0,
            decreases n - i,
        {
            self.buffer.set(i, 0);
            i += 1;
        }
        self.state = StepState::Empty;
        self.record_head = 0;
    }

    /// Gives every voice the attack and release lengths (in milliseconds),
    /// then starts the first idle voice at `pitch` and `gain`. With every
    /// voice busy the trigger is dropped.
    pub fn play(&mut self, pitch: u32, gain: u16, attack: u32, release: u32)
        requires
            old(self).wf(),
        ensures
            final(self).wf(),
            final(self).buffer == old(self).buffer,
            final(self).record_head == old(self).record_head,
            final(self).state == old(self).state,
            final(self).voices@ == triggered(old(self).voices@, pitch, gain, attack, release),
    {
        self.set_attack(attack);
        self.set_release(release);
        let n = self.voices.len();
        let mut k: usize = 0;
        while k < n && self.voices[k].is_playing
            invariant
                0 <= k <= n,
                n == self.voices.len(),
                n == old(self).voices.len(),
                forall|j: int| 0 <= j < n ==> self.voices[j].is_playing == old(self).voices[j].is_playing,
                first_idle(old(self).voices@, 0) == first_idle(old(self).voices@, k as nat),
            decreases n - k,
        {
            k += 1;
        }
        if k < n {
            let mut v = self.voices[k];
            v.pitch = pitch;
            v.gain = gain;
            v.is_playing = true;
            self.voices.set(k, v);
        }
        assert(self.voices@ =~= triggered(old(self).voices@, pitch, gain, attack, release));
    }

    /// Advances every playing voice by one sample and returns the sum of
    /// their outputs: each reads the buffer at its new head, interpolated,
    /// and scales it by its envelope and gain. The sum is in units of
    /// `1 / (POS_ONE * ENV_ONE * 100)` sample values.
    pub fn render(&mut self) -> (r: i128)
        requires
            old(self).wf(),
        ensures
            final(self).wf(),
            final(self).buffer == old(self).buffer,
            final(self).record_head == old(self).record_head,
            final(self).state == old(self).state,
            final(self).voices@ == advanced_voices(old(self).voices@),
            r == mix(old(self).buffer@, old(self).voices@, old(self).voices.len() as nat),
            -VOICE_NUM * VOICE_OUTPUT_BOUND <= r <= VOICE_NUM * VOICE_OUTPUT_BOUND,
    {
        let n = self.voices.len();
        let len = self.buffer.len();
        let mut sum: i128 = 0;
        let mut i: usize = 0;
        while i < n
            invariant
                0 <= i <= n,
                n == self.voices.len(),
                n == VOICE_NUM,
                len == self.buffer.len(),
                old(self).wf(),
                self.buffer == old(self).buffer,
                self.record_head == old(self).record_head,
                self.state == old(self).state,
                self.voices.len() == old(self).voices.len(),
                forall|j: int| 0 <= j < i ==> self.voices[j] == advanced_voices(old(self).voices@)[j],
                forall|j: int| i <= j < n ==> self.voices[j] == old(self).voices[j],
                sum == mix(old(self).buffer@, old(self).voices@, i as nat),
                -i * VOICE_OUTPUT_BOUND <= sum <= i * VOICE_OUTPUT_BOUND,
            decreases n - i,
        {
            if self.voices[i].is_playing {
                let (pos, env, gain) = self.voices[i].render();
                proof {
                    lemma_multiply_divide_lt(pos as int, POS_ONE as int, len as int);
                }
                let p = (pos / POS_ONE) as usize;
                let frac = pos % POS_ONE;
                let next = (p + 1) % len;
                let a = self.buffer[p] as i128;
                let b = self.buffer[next] as i128;
                let wa = (POS_ONE - frac) as i128;
                let wb = frac as i128;
                assert(-0x8000_0000 * 65536 <= a * wa + b * wb <= 0x8000_0000 * 65536) by (nonlinear_arith)
                    requires
                        -0x8000_0000 <= a <= 0x8000_0000,
                        -0x8000_0000 <= b <= 0x8000_0000,
                        0 <= wa,
                        0 <= wb,
                        wa + wb == 65536,
                ;
                assert(-0x8000_0000 * 65536 <= a * wa <= 0x8000_0000 * 65536) by (nonlinear_arith)
                    requires
                        -0x8000_0000 <= a <= 0x8000_0000,
                        0 <= wa <= 65536,
                ;
                assert(-0x8000_0000 * 65536 <= b * wb <= 0x8000_0000 * 65536) by (nonlinear_arith)
                    requires
                        -0x8000_0000 <= b <= 0x8000_0000,
                        0 <= wb <= 65536,
                ;
                let interp = a * wa + b * wb;
                let e = env as i128;
                let g = gain as i128;
                assert(-VOICE_OUTPUT_BOUND <= interp * e * g <= VOICE_OUTPUT_BOUND) by (nonlinear_arith)
                    requires
                        -0x8000_0000 * 65536 <= interp <= 0x8000_0000 * 65536,
                        0 <= e <= ENV_LIMIT,
                        0 <= g < 65536,
                ;
                assert(-0x8000_0000 * 65536 * ENV_LIMIT <= interp * e <= 0x8000_0000 * 65536 * ENV_LIMIT) by (nonlinear_arith)
                    requires
                        -0x8000_0000 * 65536 <= interp <= 0x8000_0000 * 65536,
                        0 <= e <= ENV_LIMIT,
                ;
                let out = interp * e * g;
                sum = sum + out;
            }
            i += 1;
        }
        assert(self.voices@ =~= advanced_voices(old(self).voices@));
        sum
    }
}

/// Recording into a step that is recording from the start of its buffer: after
/// `k` samples of a pass the buffer holds them in front of what was there and
/// the step is still recording.
pub proof fn lemma_record_prefix(m: RecordModel, samples: Seq<i32>, k: nat)
    requires
        m.state == StepState::Recording,
        m.head == 0,
        samples.len() == m.buffer.len(),
        k < samples.len(),
    ensures
        m.recorded_all(samples.take(k as int)) == (RecordModel {
            buffer: samples.take(k as int) + m.buffer.skip(k as int),
            head: k,
            state: StepState::Recording,
        }),
    decreases k,
{
    if k == 0 {
        assert(samples.take(0) =~= Seq::<i32>::empty());
        assert(samples.take(0) + m.buffer.skip(0) =~= m.buffer);
    } else {
        let j = (k - 1) as nat;
        lemma_record_prefix(m, samples, j);
        assert(samples.take(k as int).drop_last() =~= samples.take(j as int));
        assert((samples.take(j as int) + m.buffer.skip(j as int)).update(j as int, samples[j as int])
            =~= samples.take(k as int) + m.buffer.skip(k as int));
    }
}

/// A full record pass (as many samples as the buffer holds) into a step that
/// is recording from the start leaves it recorded, holding exactly those
/// samples, with its head back at the start; before the last sample of the
/// pass it is still recording.
pub proof fn lemma_full_record_pass(m: RecordModel, samples: Seq<i32>)
    requires
        m.state == StepState::Recording,
        m.head == 0,
        samples.len() == m.buffer.len(),
        samples.len() > 0,
    ensures
        m.recorded_all(samples) == (RecordModel {
            buffer: samples,
            head: 0,
            state: StepState::Recorded,
        }),
        forall|k: nat| k < samples.len() ==> #[trigger] m.recorded_all(samples.take(k as int)).state
            == StepState::Recording,
{
    let n = samples.len();
    let j = (n - 1) as nat;
    lemma_record_prefix(m, samples, j);
    assert(samples.drop_last() =~= samples.take(j as int));
    assert((samples.take(j as int) + m.buffer.skip(j as int)).update(j as int, samples[j as int])
        =~= samples);
    assert forall|k: nat| k < samples.len() implies #[trigger] m.recorded_all(samples.take(k as int)).state
        == StepState::Recording by {
        lemma_record_prefix(m, samples, k);
    }
}

/// Voices that play a silent buffer add nothing to the mix, whatever their
/// state, pitch or gain: a step that was never recorded, or was erased, plays
/// silence.
pub proof fn lemma_silent_buffer_mix(buffer: Seq<i32>, voices: Seq<Voice>, n: nat)
    requires
        forall|i: int| 0 <= i < buffer.len() ==> buffer[i] == 0,
        buffer.len() > 0,
        n <= voices.len(),
        forall|i: int| 0 <= i < voices.len() ==> (#[trigger] voices[i]).wf()
            && voices[i].buffer_size == buffer.len(),
    ensures
        mix(buffer, voices, n) == 0,
    decreases n,
{
    if n > 0 {
        lemma_silent_buffer_mix(buffer, voices, (n - 1) as nat);
        let v = voices[n - 1];
        if v.is_playing {
            let w = v.rendered();
            let len = buffer.len() as int;
            let p = w.play_head / POS_ONE;
            assert(w.play_head < w.buffer_size * POS_ONE);
            lemma_multiply_divide_lt(w.play_head as int, POS_ONE as int, len);
            let next = (p + 1) % len;
            assert(0 <= next < len);
            assert(interpolated(buffer, w.play_head) == 0);
            assert(voice_output(buffer, w) == 0) by (nonlinear_arith)
                requires
                    voice_output(buffer, w) == interpolated(buffer, w.play_head) * w.env * w.gain,
                    interpolated(buffer, w.play_head) == 0,
            ;
        }
    }
}

} // verus!
