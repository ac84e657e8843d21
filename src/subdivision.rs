use vstd::prelude::*;

verus! {

/// Frequencies are counted in units of `1 / HZ_SCALE` hertz. With this unit
/// every subdivision rate at a whole-number tempo is an exact integer.
pub const HZ_SCALE: u64 = 720;

/// Note lengths that a sequence can step at, relative to a quarter note.
#[derive(Debug, Clone, Copy, PartialEq, Eq, Structural)]
pub enum Subdivision {
    Quarter,
    Eighth,
    Sixteenth,
    TripletQuarter,
    TripletEighth,
    TripletSixteenth,
    DottedQuarter,
    DottedEighth,
    DottedSixteenth,
}

/// Number of subdivisions in the selection cycle.
pub const SUBDIVISION_COUNT: u64 = 9;

impl Subdivision {
    /// Length of the note in 24ths of a quarter note.
    pub open spec fn factor_24ths(self) -> nat {
        match self {
            Subdivision::Quarter => 24,
            Subdivision::Eighth => 12,
            Subdivision::Sixteenth => 6,
            Subdivision::TripletQuarter => 16,
            Subdivision::TripletEighth => 8,
            Subdivision::TripletSixteenth => 4,
            Subdivision::DottedQuarter => 36,
            Subdivision::DottedEighth => 18,
            Subdivision::DottedSixteenth => 9,
        }
    }

    /// Position of the subdivision in the selection cycle.
    pub open spec fn index(self) -> nat {
        match self {
            Subdivision::Quarter => 0,
            Subdivision::Eighth => 1,
            Subdivision::Sixteenth => 2,
            Subdivision::TripletQuarter => 3,
            Subdivision::TripletEighth => 4,
            Subdivision::TripletSixteenth => 5,
            Subdivision::DottedQuarter => 6,
            Subdivision::DottedEighth => 7,
            Subdivision::DottedSixteenth => 8,
        }
    }

    /// The subdivision at position `i` of the selection cycle.
    pub open spec fn from_index(i: nat) -> Subdivision {
        if i == 0 {
            Subdivision::Quarter
        } else if i == 1 {
            Subdivision::Eighth
        } else if i == 2 {
            Subdivision::Sixteenth
        } else if i == 3 {
            Subdivision::TripletQuarter
        } else if i == 4 {
            Subdivision::TripletEighth
        } else if i == 5 {
            Subdivision::TripletSixteenth
        } else if i == 6 {
            Subdivision::DottedQuarter
        } else if i == 7 {
            Subdivision::DottedEighth
        } else {
            Subdivision::DottedSixteenth
        }
    }

    /// Pulse rate of the subdivision at `bpm` quarter notes per minute, that is
    /// `(bpm / 60) / factor` hertz, in units of `1 / HZ_SCALE` hertz.
    pub open spec fn hz_spec(self, bpm: nat) -> nat {
        ((bpm * 24 * HZ_SCALE) as int / (60 * self.factor_24ths()) as int) as nat
    }

    /// Display symbol of the subdivision.
    pub open spec fn symbol(self) -> Seq<char> {
        match self {
            Subdivision::Quarter => "1/4"@,
            Subdivision::Eighth => "1/8"@,
            Subdivision::Sixteenth => "1/16"@,
            Subdivision::TripletQuarter => "1/4t"@,
            Subdivision::TripletEighth => "1/8t"@,
            Subdivision::TripletSixteenth => "1/16t"@,
            Subdivision::DottedQuarter => "1/4."@,
            Subdivision::DottedEighth => "1/8."@,
            Subdivision::DottedSixteenth => "1/16."@,
        }
    }

    /// Note length in 24ths of a quarter note.
    fn factor(self) -> (r: u64)
        ensures
            r == self.factor_24ths(),
    {
        match self {
            Subdivision::Quarter => 24,
            Subdivision::Eighth => 12,
            Subdivision::Sixteenth => 6,
            Subdivision::TripletQuarter => 16,
            Subdivision::TripletEighth => 8,
            Subdivision::TripletSixteenth => 4,
            Subdivision::DottedQuarter => 36,
            Subdivision::DottedEighth => 18,
            Subdivision::DottedSixteenth => 9,
        }
    }

    /// Pulse rate at `bpm` quarter notes per minute, in units of
    /// `1 / HZ_SCALE` hertz. The rate is exact: `r / HZ_SCALE` equals
    /// `(bpm / 60) / factor` with no rounding.
    pub fn to_hz(self, bpm: u32) -> (r: u64)
        ensures
            r == self.hz_spec(bpm as nat),
            r * 60 * self.factor_24ths() == bpm * 24 * HZ_SCALE,
    {
        let k = self.factor();
        let per_bpm = 288 / k;
        assert(per_bpm * k == 288) by {
            match self {
                Subdivision::Quarter => {},
                Subdivision::Eighth => {},
                Subdivision::Sixteenth => {},
                Subdivision::TripletQuarter => {},
                Subdivision::TripletEighth => {},
                Subdivision::TripletSixteenth => {},
                Subdivision::DottedQuarter => {},
                Subdivision::DottedEighth => {},
                Subdivision::DottedSixteenth => {},
            }
        }
        assert(per_bpm <= 72);
        assert((bpm as u64) * per_bpm <= 0xffff_ffff * 72) by (nonlinear_arith)
            requires
                per_bpm <= 72,
                bpm <= 0xffff_ffff,
        ;
        let r = (bpm as u64) * per_bpm;
        let ghost b = bpm as nat;
        let ghost kk = k as nat;
        assert(r * 60 * kk == b * 24 * 720) by (nonlinear_arith)
            requires
                r == b * per_bpm,
                per_bpm * kk == 288,
        ;
        assert((b * 24 * 720) / (60 * kk) == r) by (nonlinear_arith)
            requires
                r * 60 * kk == b * 24 * 720,
                kk > 0,
        ;
        r
    }

    /// Display symbol of the subdivision.
    pub fn get_symbol(&self) -> (r: &'static str)
        ensures
            r@ == self.symbol(),
    {
        match self {
            Subdivision::Quarter => "1/4",
            Subdivision::Eighth => "1/8",
            Subdivision::Sixteenth => "1/16",
            Subdivision::TripletQuarter => "1/4t",
            Subdivision::TripletEighth => "1/8t",
            Subdivision::TripletSixteenth => "1/16t",
            Subdivision::DottedQuarter => "1/4.",
            Subdivision::DottedEighth => "1/8.",
            Subdivision::DottedSixteenth => "1/16.",
        }
    }

    /// The following subdivision in the selection cycle, wrapping at the end.
    pub fn next(&self) -> (r: Self)
        ensures
            r == Subdivision::from_index((self.index() + 1) % 9),
    {
        match self {
            Subdivision::Quarter => Subdivision::Eighth,
            Subdivision::Eighth => Subdivision::Sixteenth,
            Subdivision::Sixteenth => Subdivision::TripletQuarter,
            Subdivision::TripletQuarter => Subdivision::TripletEighth,
            Subdivision::TripletEighth => Subdivision::TripletSixteenth,
            Subdivision::TripletSixteenth => Subdivision::DottedQuarter,
            Subdivision::DottedQuarter => Subdivision::DottedEighth,
            Subdivision::DottedEighth => Subdivision::DottedSixteenth,
            Subdivision::DottedSixteenth => Subdivision::Quarter,
        }
    }

    /// The preceding subdivision in the selection cycle, wrapping at the start.
    pub fn prev(&self) -> (r: Self)
        ensures
            r == Subdivision::from_index((self.index() + 8) % 9),
    {
        match self {
            Subdivision::Quarter => Subdivision::DottedSixteenth,
            Subdivision::Eighth => Subdivision::Quarter,
            Subdivision::Sixteenth => Subdivision::Eighth,
            Subdivision::TripletQuarter => Subdivision::Sixteenth,
            Subdivision::TripletEighth => Subdivision::TripletQuarter,
            Subdivision::TripletSixteenth => Subdivision::TripletEighth,
            Subdivision::DottedQuarter => Subdivision::TripletSixteenth,
            Subdivision::DottedEighth => Subdivision::DottedQuarter,
            Subdivision::DottedSixteenth => Subdivision::DottedEighth,
        }
    }
}

} // verus!
