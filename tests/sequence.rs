use scrambler_core::{PlayMode, PlayState, Sequence, Subdivision};

// At a 1 Hz sample rate every subdivision's clock pulses on every sample, so
// each playing update moves one step.
fn playing(range: (u8, u8), mode: PlayMode) -> Sequence {
    let mut s = Sequence::new(1, 100, Subdivision::Quarter, 65536, range, mode);
    s.toggle();
    assert_eq!(s.play_state, PlayState::Resume);
    s
}

fn walk(s: &mut Sequence, n: usize) -> Vec<u8> {
    let mut visited = vec![s.current_step];
    for i in 0..n {
        let t = s.update(i == 0, 100);
        let (step, _, _) = t.expect("a pulse on every sample");
        assert_eq!(step, s.current_step);
        visited.push(step);
    }
    visited
}

#[test]
fn forwards_walks_the_range_and_wraps() {
    let mut s = playing((0, 4), PlayMode::Forwards);
    assert_eq!(walk(&mut s, 10), vec![0, 1, 2, 3, 4, 0, 1, 2, 3, 4, 0]);
}

#[test]
fn backwards_walks_the_range_and_wraps() {
    let mut s = playing((3, 6), PlayMode::Backwards);
    assert_eq!(walk(&mut s, 8), vec![3, 6, 5, 4, 3, 6, 5, 4, 3]);
}

#[test]
fn back_and_forth_repeats_each_boundary_step() {
    let mut s = playing((0, 3), PlayMode::BackAndForth(0));
    assert_eq!(walk(&mut s, 9), vec![0, 1, 2, 3, 3, 2, 1, 0, 0, 1]);
    assert_eq!(s.play_mode, PlayMode::BackAndForth(0));
}

#[test]
fn single_step_range_stays_on_its_step() {
    let mut s = playing((5, 5), PlayMode::Forwards);
    assert_eq!(walk(&mut s, 3), vec![5, 5, 5, 5]);
}

#[test]
fn steps_outside_a_moved_range_reenter_it() {
    let mut s = playing((0, 7), PlayMode::Forwards);
    walk(&mut s, 6);
    assert_eq!(s.current_step, 6);
    s.set_range_end(3);
    assert_eq!(s.play_range, (0, 3));
    assert_eq!(s.update(false, 100), Some((0, 65536, 80)));
}

#[test]
fn range_setters_keep_start_at_most_end() {
    let mut s = Sequence::new(48000, 100, Subdivision::Quarter, 65536, (2, 5), PlayMode::Forwards);
    s.set_range_start(7);
    assert_eq!(s.play_range, (7, 7));
    s.set_range_end(3);
    assert_eq!(s.play_range, (3, 3));
    s.set_range_end(6);
    assert_eq!(s.play_range, (3, 6));
    s.set_range_start(1);
    assert_eq!(s.play_range, (1, 6));
    let moves: [(bool, u8); 8] = [
        (true, 200),
        (false, 10),
        (true, 0),
        (false, 255),
        (true, 255),
        (false, 0),
        (true, 9),
        (false, 9),
    ];
    for (is_start, pos) in moves {
        if is_start {
            s.set_range_start(pos);
        } else {
            s.set_range_end(pos);
        }
        assert!(s.play_range.0 <= s.play_range.1);
    }
}

#[test]
fn toggle_cycles_through_play_states() {
    let mut s = Sequence::new(1, 100, Subdivision::Quarter, 65536, (0, 4), PlayMode::Forwards);
    assert_eq!(s.play_state, PlayState::Stopped);
    s.toggle();
    assert_eq!(s.play_state, PlayState::Resume);
    s.toggle();
    assert_eq!(s.play_state, PlayState::Stopped);
    s.toggle();
    assert_eq!(s.update(false, 100), None);
    assert_eq!(s.play_state, PlayState::Resume);
    assert!(s.update(true, 100).is_some());
    assert_eq!(s.play_state, PlayState::Playing);
    s.toggle();
    assert_eq!(s.play_state, PlayState::Stopped);
    assert_eq!(s.counter.phase, 0);
}

#[test]
fn stopped_sequence_does_not_run_its_clock() {
    let mut s = Sequence::new(48000, 100, Subdivision::Quarter, 65536, (0, 4), PlayMode::Forwards);
    for _ in 0..1000 {
        assert_eq!(s.update(true, 100), None);
    }
    assert_eq!(s.counter.phase, 0);
}

#[test]
fn subdivision_change_waits_for_apply() {
    let mut s = Sequence::new(48000, 100, Subdivision::Quarter, 65536, (0, 4), PlayMode::Forwards);
    s.toggle();
    s.update(true, 100);
    for _ in 0..500 {
        s.update(false, 100);
    }
    s.set_subdivision(Subdivision::Sixteenth);
    for _ in 0..1000 {
        s.update(false, 100);
        assert_eq!(s.subdivision, Subdivision::Quarter);
        assert_eq!(s.next_subdivision, Some(Subdivision::Sixteenth));
        assert_eq!(s.counter.increment, 1200);
    }
    s.update(true, 100);
    assert_eq!(s.subdivision, Subdivision::Sixteenth);
    assert_eq!(s.next_subdivision, None);
    assert_eq!(s.counter.increment, 4800);
    // The committed clock restarts at phase zero before this sample's advance.
    assert_eq!(s.counter.phase, 4800);
}

#[test]
fn sequence_set_bpm_is_immediate() {
    let mut s = Sequence::new(48000, 100, Subdivision::Eighth, 65536, (0, 4), PlayMode::Forwards);
    s.set_bpm(150);
    assert_eq!(s.counter.increment, 3600);
    s.apply_subdivision(150);
    assert_eq!(s.subdivision, Subdivision::Eighth);
    assert_eq!(s.counter.increment, 3600);
}

#[test]
fn play_mode_cycle_and_symbols() {
    assert_eq!(PlayMode::Forwards.next(), PlayMode::Backwards);
    assert_eq!(PlayMode::Backwards.next(), PlayMode::BackAndForth(0));
    assert_eq!(PlayMode::BackAndForth(1).next(), PlayMode::Forwards);
    assert_eq!(PlayMode::Forwards.prev(), PlayMode::BackAndForth(0));
    assert_eq!(PlayMode::Backwards.prev(), PlayMode::Forwards);
    assert_eq!(PlayMode::BackAndForth(0).prev(), PlayMode::Backwards);
    assert_eq!(PlayMode::Forwards.get_symbol(), ">>");
    assert_eq!(PlayMode::Backwards.get_symbol(), "<<");
    assert_eq!(PlayMode::BackAndForth(1).get_symbol(), "<>");
}

#[test]
fn start_waits_for_the_sequence_clock() {
    // Quarter at 48 kHz and 100 bpm: the clock pulses on every 28800th update.
    let mut s = Sequence::new(48000, 100, Subdivision::Quarter, 65536, (0, 4), PlayMode::Forwards);
    s.toggle();
    assert_eq!(s.update(true, 100), None);
    assert_eq!(s.play_state, PlayState::Playing);
    assert_eq!(s.current_step, 0);
    assert_eq!(s.counter.phase, 1200);
}

#[test]
fn clock_runs_while_waiting_to_resume() {
    let mut s = Sequence::new(48000, 100, Subdivision::Quarter, 65536, (0, 4), PlayMode::Forwards);
    s.toggle();
    for _ in 0..28799 {
        assert_eq!(s.update(false, 100), None);
    }
    assert_eq!(s.play_state, PlayState::Resume);
    assert_eq!(s.counter.phase, 28799 * 1200);
    // The apply pulse and the clock's pulse meet: the sequence starts and steps.
    assert_eq!(s.update(true, 100), Some((1, 65536, 80)));
    assert_eq!(s.counter.phase, 0);
}
