use scrambler_core::{
    semitone_to_pitch, PlayMode, PlayState, Sequencer, StepState, Subdivision, PITCH_ONE,
};

#[test]
fn quarter_sequence_starts_on_the_beat_and_steps_once_per_beat() {
    let (mut seq, mut reader) = Sequencer::new(48000);
    assert_eq!(seq.bpm, 100);
    assert_eq!(seq.sequences[0].subdivision, Subdivision::Quarter);
    assert_eq!(seq.sequences[0].play_range, (0, 4));
    assert_eq!(seq.sequences[0].play_mode, PlayMode::Forwards);
    seq.toggle(0);
    let beat = 48000 * 60 / 100;
    let mut positions = vec![seq.sequences[0].current_step];
    let mut sample = 0;
    for _ in 0..beat {
        sample = 0;
        seq.render(&mut sample);
        if seq.sequences[0].current_step != *positions.last().unwrap() {
            positions.push(seq.sequences[0].current_step);
        }
    }
    // The sequence's clock runs while it waits to start; its first pulse
    // falls on the first apply boundary, at the end of the beat, where the
    // sequence starts and steps once.
    assert_eq!(seq.sequences[0].play_state, PlayState::Playing);
    assert_eq!(positions, vec![0, 1]);
    assert_eq!(seq.sequences[0].current_step, 1);
    assert_eq!(reader.read().positions[0], 1);
    assert_eq!(sample, 0);
    // The next step comes one beat later.
    for n in 1..=beat {
        seq.render(&mut 0);
        assert_eq!(seq.sequences[0].current_step, if n < beat { 1 } else { 2 });
    }
}

#[test]
fn pitch_of_an_octave_is_two() {
    let (mut seq, _reader) = Sequencer::new(48000);
    seq.set_pitch(0, 12);
    let ratio = seq.sequences[0].pitch as f64 / PITCH_ONE as f64;
    assert!((ratio - 2.0).abs() < 1e-5);
    assert_eq!(seq.sequences[0].pitch, 131072);
}

#[test]
fn semitone_ratios() {
    assert_eq!(semitone_to_pitch(0), 65536);
    assert_eq!(semitone_to_pitch(-12), 32768);
    assert_eq!(semitone_to_pitch(24), 262144);
    assert_eq!(semitone_to_pitch(7), 98193);
    assert_eq!(semitone_to_pitch(-5), 49096);
    assert_eq!(semitone_to_pitch(127), 98193 * 1024);
    assert_eq!(semitone_to_pitch(-128), 82570 / 2048);
    for s in -128i16..=127 {
        let expected = 2f64.powf(s as f64 / 12.0);
        let got = semitone_to_pitch(s as i8) as f64 / 65536.0;
        assert!((got - expected).abs() <= 1.0 / 65536.0 + expected * 1e-5);
    }
}

#[test]
fn recorded_step_plays_when_its_sequence_reaches_it() {
    // At a 1 Hz sample rate the transport pulses a sixteenth on every
    // sample and each step holds five samples.
    let (mut seq, _reader) = Sequencer::new(1);
    seq.record(1);
    assert_eq!(seq.steps[1].state, StepState::Recording);
    for _ in 0..5 {
        let mut sample = 1000;
        seq.render(&mut sample);
        assert_eq!(sample, 0);
    }
    assert_eq!(seq.steps[1].state, StepState::Recorded);
    assert_eq!(seq.steps[1].buffer, vec![1000; 5]);
    seq.toggle(0);
    let mut outputs = Vec::new();
    for _ in 0..3 {
        let mut sample = 0;
        seq.render(&mut sample);
        outputs.push(sample);
    }
    // The third render holds the quarter's apply pulse: sequence 0 starts,
    // steps to 1 and plays it at gain 0.8. At 1 Hz the 10 ms attack adds a
    // hundred full levels in its first sample: 1000 * 100 * 0.8.
    assert_eq!(outputs, vec![0, 0, 80000]);
    assert_eq!(seq.sequences[0].current_step, 1);
}

#[test]
fn snapshot_shows_the_engine_after_each_render() {
    let (mut seq, mut reader) = Sequencer::new(1);
    assert_eq!(reader.read().bpm, 100);
    assert_eq!(reader.read().positions, vec![0, 0, 0]);
    seq.set_subdivision(2, Subdivision::DottedEighth);
    seq.set_gain(55, 1);
    seq.record(3);
    let mut sample = 0;
    seq.render(&mut sample);
    let shown = reader.read();
    assert_eq!(shown.positions, vec![0, 3, 4]);
    assert_eq!(
        shown.subdivisions,
        vec![Subdivision::Quarter, Subdivision::Eighth, Subdivision::DottedEighth]
    );
    assert_eq!(shown.ranges, vec![(0, 4), (3, 6), (4, 7)]);
    assert_eq!(
        shown.dirs,
        vec![PlayMode::Forwards, PlayMode::Backwards, PlayMode::BackAndForth(0)]
    );
    assert_eq!(shown.gains, vec![80, 55, 80]);
    assert_eq!(shown.pitches, vec![PITCH_ONE; 3]);
    assert_eq!(shown.step_states[3], StepState::Recording);
    assert_eq!(shown.step_states[0], StepState::Empty);
    assert_eq!(shown.transporter, (0, 0, 1));
    assert_eq!(shown.bpm, 100);
}

#[test]
fn out_of_range_indices_are_ignored() {
    let (mut seq, _reader) = Sequencer::new(1);
    seq.record(8);
    seq.erase(99);
    seq.set_pitch(3, 5);
    seq.set_range_start(3, 1);
    seq.set_range_end(7, 1);
    seq.set_play_mode(3, PlayMode::Backwards);
    seq.set_gain(10, 3);
    seq.toggle(3);
    seq.set_subdivision(3, Subdivision::Eighth);
    assert!(seq.steps.iter().all(|s| s.state == StepState::Empty));
    for (i, s) in seq.sequences.iter().enumerate() {
        assert_eq!(s.pitch, PITCH_ONE);
        assert_eq!(s.gain, 80);
        assert_eq!(s.play_state, PlayState::Stopped);
        assert_eq!(s.next_subdivision, None);
        assert_eq!(s.play_range, [(0, 4), (3, 6), (4, 7)][i]);
    }
}

#[test]
fn sequencer_setters_reach_their_sequence() {
    let (mut seq, _reader) = Sequencer::new(48000);
    seq.set_range_start(1, 7);
    assert_eq!(seq.sequences[1].play_range, (7, 7));
    seq.set_range_end(1, 2);
    assert_eq!(seq.sequences[1].play_range, (2, 2));
    seq.set_play_mode(2, PlayMode::Forwards);
    assert_eq!(seq.sequences[2].play_mode, PlayMode::Forwards);
    seq.set_gain(120, 0);
    assert_eq!(seq.sequences[0].gain, 120);
    seq.set_subdivision(0, Subdivision::Eighth);
    assert_eq!(seq.sequences[0].next_subdivision, Some(Subdivision::Eighth));
    assert_eq!(seq.sequences[0].subdivision, Subdivision::Quarter);
}

#[test]
fn tempo_changes_apply_at_once_to_every_clock() {
    let (mut seq, _reader) = Sequencer::new(48000);
    seq.set_bpm(120);
    assert_eq!(seq.bpm, 120);
    assert_eq!(seq.transporter.counter.increment, 5760);
    assert_eq!(seq.sequences[0].counter.increment, 1440);
    assert_eq!(seq.sequences[1].counter.increment, 2880);
    assert_eq!(seq.sequences[2].counter.increment, 5760);
}

#[test]
fn attack_and_release_reach_every_voice() {
    let (mut seq, _reader) = Sequencer::new(48000);
    seq.set_attack(20);
    seq.set_release(500);
    assert_eq!((seq.attack, seq.release), (20, 500));
    for s in &seq.steps {
        for v in &s.voices {
            assert_eq!(v.env_inc_attack, 17476);
            assert_eq!(v.env_inc_release, 699);
        }
    }
}

#[test]
fn erase_through_the_engine() {
    let (mut seq, _reader) = Sequencer::new(1);
    seq.record(0);
    for _ in 0..5 {
        let mut sample = 42;
        seq.render(&mut sample);
    }
    assert_eq!(seq.steps[0].state, StepState::Recorded);
    seq.erase(0);
    assert_eq!(seq.steps[0].state, StepState::Empty);
    assert_eq!(seq.steps[0].record_head, 0);
    assert!(seq.steps[0].buffer.iter().all(|&x| x == 0));
}
