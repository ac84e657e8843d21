use scrambler_core::{Step, StepState, Voice, ENV_ONE, MIX_SCALE, PITCH_ONE, POS_ONE};

// At a 1 Hz sample rate a step's buffer holds five samples.
fn recorded_step(samples: [i32; 5]) -> Step {
    let mut s = Step::new(1);
    s.state = StepState::Recording;
    s.record_head = 0;
    for x in samples {
        s.record(x);
    }
    s
}

fn playing_voices(s: &Step) -> usize {
    s.voices.iter().filter(|v| v.is_playing).count()
}

#[test]
fn new_step_is_empty_and_silent() {
    let s = Step::new(48000);
    assert_eq!(s.buffer.len(), 240000);
    assert!(s.buffer.iter().all(|&x| x == 0));
    assert_eq!(s.voices.len(), 32);
    assert_eq!(s.state, StepState::Empty);
    assert_eq!(s.record_head, 0);
    assert_eq!(playing_voices(&s), 0);
}

#[test]
fn full_record_pass_ends_recorded() {
    let mut s = Step::new(1);
    assert_eq!(s.state, StepState::Empty);
    s.state = StepState::Recording;
    s.record_head = 0;
    for (i, x) in [5, -6, 7, -8].into_iter().enumerate() {
        s.record(x);
        assert_eq!(s.state, StepState::Recording);
        assert_eq!(s.record_head, i + 1);
    }
    s.record(9);
    assert_eq!(s.state, StepState::Recorded);
    assert_eq!(s.record_head, 0);
    assert_eq!(s.buffer, vec![5, -6, 7, -8, 9]);
}

#[test]
fn erase_returns_to_empty_from_any_state() {
    let mut s = recorded_step([1, 2, 3, 4, 5]);
    s.erase();
    assert_eq!(s.state, StepState::Empty);
    assert_eq!(s.record_head, 0);
    assert_eq!(s.buffer, vec![0; 5]);

    let mut r = Step::new(1);
    r.state = StepState::Recording;
    r.record(3);
    r.record(4);
    r.erase();
    assert_eq!(r.state, StepState::Empty);
    assert_eq!(r.record_head, 0);
    assert_eq!(r.buffer, vec![0; 5]);
}

#[test]
fn playing_an_empty_step_is_silent() {
    let mut s = Step::new(1);
    s.play(PITCH_ONE, 100, 0, 1000);
    s.play(PITCH_ONE * 2, 500, 10, 10);
    assert_eq!(playing_voices(&s), 2);
    for _ in 0..8 {
        assert_eq!(s.render(), 0);
    }
}

#[test]
fn playing_a_recording_step_reads_silence_ahead() {
    let mut s = Step::new(1);
    s.state = StepState::Recording;
    s.record(0);
    s.play(PITCH_ONE, 100, 0, 1000);
    assert_eq!(s.render(), 0);
}

#[test]
fn render_mixes_the_sample_under_the_head() {
    let mut s = recorded_step([100, 200, 300, 400, 500]);
    s.play(PITCH_ONE, 100, 0, 1000);
    // Attack of zero: full level at once; the head reads sample 1.
    assert_eq!(s.render(), 200 * MIX_SCALE as i128);
    // The release of one second at 1 Hz takes the envelope to zero.
    assert_eq!(s.render(), 0);
}

#[test]
fn render_interpolates_between_samples() {
    let mut s = recorded_step([100, 200, 300, 400, 500]);
    // Speed 1.5; a release so long that its increment is 3 per sample.
    s.play(PITCH_ONE * 3 / 2, 100, 0, u32::MAX);
    let scale = (POS_ONE as i128) * 100;
    // Head 1.5: halfway between 200 and 300.
    assert_eq!(s.render(), 250 * scale * ENV_ONE as i128);
    // Head 3.0.
    assert_eq!(s.render(), 400 * scale * (ENV_ONE as i128 - 3));
    // Head 4.5: halfway between the last sample and the first.
    assert_eq!(s.render(), 300 * scale * (ENV_ONE as i128 - 6));
    // Head 6.0 passes the end: the voice stops.
    s.render();
    assert_eq!(playing_voices(&s), 0);
    assert_eq!(s.voices[0].play_head, 0);
}

#[test]
fn triggers_beyond_the_voice_pool_are_dropped() {
    let mut s = Step::new(48000);
    for _ in 0..40 {
        s.play(PITCH_ONE, 80, 10, 1000);
    }
    assert_eq!(playing_voices(&s), 32);
}

#[test]
fn play_takes_the_first_idle_voice() {
    let mut s = Step::new(48000);
    s.play(PITCH_ONE, 10, 10, 1000);
    s.play(PITCH_ONE * 2, 20, 10, 1000);
    assert!(s.voices[0].is_playing && s.voices[1].is_playing);
    assert_eq!((s.voices[1].pitch, s.voices[1].gain), (PITCH_ONE * 2, 20));
    s.voices[0].is_playing = false;
    s.play(PITCH_ONE / 2, 30, 10, 1000);
    assert_eq!((s.voices[0].pitch, s.voices[0].gain), (PITCH_ONE / 2, 30));
    assert!(!s.voices[2].is_playing);
}

#[test]
fn envelope_increments_scale_with_pitch() {
    let mut v = Voice::new(48000, 240000);
    // 10 ms at 48 kHz is 480 samples: 2^24 / 480.
    assert_eq!(v.env_inc_attack, 34952);
    // 1 s is 48000 samples.
    assert_eq!(v.env_inc_release, 349);
    v.pitch = PITCH_ONE * 2;
    v.set_attack(10);
    v.set_release(1000);
    assert_eq!(v.env_inc_attack, 69905);
    assert_eq!(v.env_inc_release, 699);
    v.set_attack(0);
    assert_eq!(v.env_inc_attack, ENV_ONE);
}

#[test]
fn voice_envelope_rises_then_falls() {
    let mut v = Voice::new(1, 5);
    v.set_attack(2000);
    v.set_release(4000);
    v.is_playing = true;
    v.gain = 100;
    let (head, env, gain) = v.render();
    assert_eq!((head, env, gain), (POS_ONE, ENV_ONE / 2, 100));
    let (_, env, _) = v.render();
    assert_eq!(env, ENV_ONE);
    let (_, env, _) = v.render();
    assert_eq!(env, ENV_ONE - ENV_ONE / 4);
    let (_, env, _) = v.render();
    assert_eq!(env, ENV_ONE / 2);
    let (head, _, _) = v.render();
    assert_eq!(head, 0);
    assert!(!v.is_playing);
}

#[test]
fn step_symbols() {
    assert_eq!(StepState::Recording.get_symbol(), "  ●  ");
    assert_eq!(StepState::Recorded.get_symbol(), "  ○  ");
    assert_eq!(StepState::Empty.get_symbol(), "  -  ");
}

#[test]
fn attack_overshoots_full_level_then_releases() {
    let mut v = Voice::new(1, 5);
    // An attack of 1600 ms at 1 Hz adds 0.625 of the full level per sample.
    v.set_attack(1600);
    v.set_release(4000);
    v.is_playing = true;
    let (_, env, _) = v.render();
    assert_eq!(env, ENV_ONE * 5 / 8);
    let (_, env, _) = v.render();
    assert_eq!(env, ENV_ONE * 5 / 4);
    let (_, env, _) = v.render();
    assert_eq!(env, ENV_ONE * 5 / 4 - ENV_ONE / 4);
}
