use scrambler_core::{Counter, Subdivision, Transporter, HZ_SCALE};

#[test]
fn counter_pulses_once_per_ceil_period() {
    // 48 kHz, sixteenth notes at 100 bpm: 6.67 Hz, one pulse every 7200 samples.
    let mut c = Counter::new(48000, 4800);
    for _ in 0..3 {
        for _ in 0..7199 {
            assert!(!c.update());
        }
        assert!(c.update());
        assert_eq!(c.phase, 0);
    }
}

#[test]
fn counter_rounds_a_partial_cycle_up() {
    // period 720, increment 300: ceil(720 / 300) = 3 calls per pulse.
    let mut c = Counter::new(1, 300);
    let pulses: Vec<bool> = (0..9).map(|_| c.update()).collect();
    assert_eq!(
        pulses,
        vec![false, false, true, false, false, true, false, false, true]
    );
    assert!(c.phase < c.increment);
}

#[test]
fn counter_at_zero_frequency_never_fires() {
    let mut c = Counter::new(48000, 0);
    for _ in 0..100_000 {
        assert!(!c.update());
    }
}

#[test]
fn counter_reset_and_set_frequency() {
    let mut c = Counter::new(10, 1000);
    assert!(!c.update());
    assert_eq!(c.phase, 1000);
    c.set_frequency(2000);
    assert_eq!(c.phase, 1000);
    assert_eq!(c.increment, 2000);
    c.reset();
    assert_eq!(c.phase, 0);
    assert_eq!(c.increment, 2000);
}

#[test]
fn subdivision_rates_are_exact() {
    // (bpm / 60) / factor hertz, in units of 1 / HZ_SCALE hertz.
    assert_eq!(HZ_SCALE, 720);
    assert_eq!(Subdivision::Quarter.to_hz(100), 1200);
    assert_eq!(Subdivision::Eighth.to_hz(100), 2400);
    assert_eq!(Subdivision::Sixteenth.to_hz(100), 4800);
    assert_eq!(Subdivision::TripletQuarter.to_hz(100), 1800);
    assert_eq!(Subdivision::TripletEighth.to_hz(100), 3600);
    assert_eq!(Subdivision::TripletSixteenth.to_hz(100), 7200);
    assert_eq!(Subdivision::DottedQuarter.to_hz(100), 800);
    assert_eq!(Subdivision::DottedEighth.to_hz(100), 1600);
    assert_eq!(Subdivision::DottedSixteenth.to_hz(100), 3200);
    assert_eq!(Subdivision::Quarter.to_hz(60), 720);
    assert_eq!(Subdivision::Quarter.to_hz(0), 0);
}

#[test]
fn subdivision_cycle_and_symbols() {
    let mut s = Subdivision::Quarter;
    let mut symbols = Vec::new();
    for _ in 0..9 {
        symbols.push(s.get_symbol().to_string());
        assert_eq!(s.next().prev(), s);
        s = s.next();
    }
    assert_eq!(s, Subdivision::Quarter);
    assert_eq!(
        symbols,
        vec!["1/4", "1/8", "1/16", "1/4t", "1/8t", "1/16t", "1/4.", "1/8.", "1/16."]
    );
    assert_eq!(Subdivision::Quarter.prev(), Subdivision::DottedSixteenth);
}

#[test]
fn transporter_quarter_quantisation_applies_every_fourth_sixteenth() {
    let mut t = Transporter::new(48000);
    let mut applies = Vec::new();
    for n in 1..=(7200 * 16) {
        if t.update() {
            applies.push(n);
        }
    }
    assert_eq!(applies, vec![28800, 57600, 86400, 115200]);
    assert_eq!((t.bar, t.quater, t.sixteenth), (1, 0, 0));
}

#[test]
fn transporter_sixteenth_quantisation_applies_every_sixteenth() {
    let mut t = Transporter::with_quantisation(48000, Subdivision::Sixteenth);
    let mut applies = Vec::new();
    for n in 1..=(7200 * 5) {
        if t.update() {
            applies.push(n);
        }
    }
    assert_eq!(applies, vec![7200, 14400, 21600, 28800, 36000]);
    assert_eq!((t.bar, t.quater, t.sixteenth), (0, 1, 1));
}

#[test]
fn transporter_counts_bars_and_wraps() {
    // At 1 Hz sample rate the sixteenth clock pulses on every call.
    let mut t = Transporter::new(1);
    for _ in 0..63 {
        t.update();
    }
    assert_eq!((t.bar, t.quater, t.sixteenth), (3, 3, 3));
    assert!(t.update());
    assert_eq!((t.bar, t.quater, t.sixteenth), (0, 0, 0));
}

#[test]
fn transporter_set_bpm_changes_rate_only() {
    let mut t = Transporter::new(48000);
    for _ in 0..100 {
        t.update();
    }
    let phase = t.counter.phase;
    t.set_bpm(120);
    assert_eq!(t.counter.increment, Subdivision::Sixteenth.to_hz(120));
    assert_eq!(t.counter.increment, 5760);
    assert_eq!(t.counter.phase, phase);
}
