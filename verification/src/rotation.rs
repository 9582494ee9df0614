//! The four rotations an image can be turned by, and the rule that buckets a
//! number of degrees into one of them.

use vstd::prelude::*;

verus! {

/// A rotation by a whole number of clockwise quarter turns.
#[derive(Clone, Copy, Debug, PartialEq, Eq, Structural)]
pub enum Rot {
    R0,
    R90,
    R180,
    R270,
}

impl Rot {
    /// The rotation that a request for `v` degrees resolves to: each request
    /// falls to the largest named rotation that does not exceed it, and
    /// everything from 270 upwards is a three-quarter turn.
    pub open spec fn bucket(v: int) -> Rot {
        if v < 90 {
            Rot::R0
        } else if v < 180 {
            Rot::R90
        } else if v < 270 {
            Rot::R180
        } else {
            Rot::R270
        }
    }

    /// The clockwise angle of this rotation, in degrees.
    pub open spec fn degrees(self) -> int {
        match self {
            Rot::R0 => 0,
            Rot::R90 => 90,
            Rot::R180 => 180,
            Rot::R270 => 270,
        }
    }

    /// The number of clockwise quarter turns of this rotation.
    pub open spec fn quarter_turns(self) -> nat {
        match self {
            Rot::R0 => 0,
            Rot::R90 => 1,
            Rot::R180 => 2,
            Rot::R270 => 3,
        }
    }

    /// Buckets a number of degrees into a rotation.
    pub fn from_degrees(v: u32) -> (r: Rot)
        ensures
            r == Rot::bucket(v as int),
    {
        if v < 90 {
            Rot::R0
        } else if v < 180 {
            Rot::R90
        } else if v < 270 {
            Rot::R180
        } else {
            Rot::R270
        }
    }

    /// The angle of this rotation as a number.
    pub fn to_degrees(self) -> (d: u32)
        ensures
            d == self.degrees(),
    {
        match self {
            Rot::R0 => 0,
            Rot::R90 => 90,
            Rot::R180 => 180,
            Rot::R270 => 270,
        }
    }

    /// The name under which this rotation is reported.
    pub fn name(self) -> (s: &'static str)
        ensures
            s@ == match self {
                Rot::R0 => "R0"@,
                Rot::R90 => "R90"@,
                Rot::R180 => "R180"@,
                Rot::R270 => "R270"@,
            },
    {
        match self {
            Rot::R0 => "R0",
            Rot::R90 => "R90",
            Rot::R180 => "R180",
            Rot::R270 => "R270",
        }
    }
}

/// Bucketing never overshoots: the angle chosen is at most the angle asked
/// for, and the request lies less than a quarter turn above it unless it is
/// past the last bucket.
pub proof fn lemma_bucket_is_floor(v: int)
    requires
        0 <= v,
    ensures
        Rot::bucket(v).degrees() <= v,
        v < 270 ==> v < Rot::bucket(v).degrees() + 90,
        v >= 270 ==> Rot::bucket(v) == Rot::R270,
{
}

/// A named angle buckets to itself.
pub proof fn lemma_bucket_of_degrees(r: Rot)
    ensures
        Rot::bucket(r.degrees()) == r,
{
}

} // verus!
