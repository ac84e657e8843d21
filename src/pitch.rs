use vstd::prelude::*;

verus! {

/// `2^(k/12)` for `k` in `0 .. 12`, in Q16.16, rounded to the nearest unit:
/// the equal-tempered ratios within one octave.
pub open spec fn ratio_in_octave(k: int) -> nat {
    if k == 0 {
        65536
    } else if k == 1 {
        69433
    } else if k == 2 {
        73562
    } else if k == 3 {
        77936
    } else if k == 4 {
        82570
    } else if k == 5 {
        87480
    } else if k == 6 {
        92682
    } else if k == 7 {
        98193
    } else if k == 8 {
        104032
    } else if k == 9 {
        110218
    } else if k == 10 {
        116772
    } else {
        123715
    }
}

/// `2^n`.
pub open spec fn pow2_nat(n: nat) -> nat
    decreases n,
{
    if n == 0 {
        1
    } else {
        2 * pow2_nat((n - 1) as nat)
    }
}

/// The playback-speed ratio `2^(semitone/12)` in Q16.16: the ratio of the
/// semitone within its octave, shifted by whole octaves. Twelve semitones up
/// is exactly 2.0, twelve down exactly 0.5.
pub open spec fn semitone_ratio(semitone: int) -> nat {
    let octaves = semitone / 12;
    if octaves >= 0 {
        ratio_in_octave(semitone % 12) * pow2_nat(octaves as nat)
    } else {
        ratio_in_octave(semitone % 12) / pow2_nat((-octaves) as nat)
    }
}

fn ratio_in_octave_exec(k: u32) -> (r: u32)
    requires
        k < 12,
    ensures
        r == ratio_in_octave(k as int),
{
    if k == 0 {
        65536
    } else if k == 1 {
        69433
    } else if k == 2 {
        73562
    } else if k == 3 {
        77936
    } else if k == 4 {
        82570
    } else if k == 5 {
        87480
    } else if k == 6 {
        92682
    } else if k == 7 {
        98193
    } else if k == 8 {
        104032
    } else if k == 9 {
        110218
    } else if k == 10 {
        116772
    } else {
        123715
    }
}

/// Converts a semitone offset into a Q16.16 playback-speed ratio,
/// `2^(semitone/12)`, with no clamping.
pub fn semitone_to_pitch(semitone: i8) -> (r: u32)
    ensures
        r == semitone_ratio(semitone as int),
{
    let shifted: u32 = (semitone as i32 + 132) as u32;
    let k = shifted % 12;
    let octave_index = shifted / 12;
    assert(semitone as int % 12 == k && semitone as int / 12 == octave_index - 11);
    let base = ratio_in_octave_exec(k);
    if octave_index >= 11 {
        let m = octave_multiplier(octave_index - 11);
        assert(base * m <= 123715 * 1024) by (nonlinear_arith)
            requires
                base <= 123715,
                m <= 1024,
        ;
        base * m
    } else {
        base / octave_multiplier(11 - octave_index)
    }
}

/// `2^n` for the octave shifts that an `i8` semitone offset reaches.
fn octave_multiplier(n: u32) -> (r: u32)
    requires
        n <= 11,
    ensures
        r == pow2_nat(n as nat),
        r <= 2048,
        n <= 10 ==> r <= 1024,
        r > 0,
{
    reveal_with_fuel(pow2_nat, 12);
    if n == 0 {
        1
    } else if n == 1 {
        2
    } else if n == 2 {
        4
    } else if n == 3 {
        8
    } else if n == 4 {
        16
    } else if n == 5 {
        32
    } else if n == 6 {
        64
    } else if n == 7 {
        128
    } else if n == 8 {
        256
    } else if n == 9 {
        512
    } else if n == 10 {
        1024
    } else {
        2048
    }
}

} // verus!
