//! The sample scalar the engine mixes.
//!
//! The engine never inspects a sample: it only copies samples out of a stream,
//! scales each one by the current volume, and writes the result into the
//! output buffer. This trait names those two operations and their meaning, so
//! the render loop's contract can say exactly which source sample, scaled by
//! which gain, lands in every output slot. Hosts bring their own scalar (a
//! platform output commonly mixes in floating point); the library provides a
//! saturating fixed-width scalar, which the tests use.

use vstd::prelude::*;

verus! {

/// A sample scalar with a silence value and a gain operation.
pub trait Sample: Copy {
    /// The volume scalar samples are multiplied by.
    type Gain: Copy;

    /// The sample written when nothing plays. An unverified host's scalar may
    /// leave this meaning abstract.
    open spec fn silence_spec() -> Self {
        vstd::pervasive::arbitrary()
    }

    /// The meaning of scaling `self` by `gain`. An unverified host's scalar
    /// may leave this meaning abstract.
    open spec fn scaled_spec(self, gain: Self::Gain) -> Self {
        vstd::pervasive::arbitrary()
    }

    fn silence() -> (r: Self)
        ensures
            r == Self::silence_spec(),
    ;

    fn scaled(self, gain: Self::Gain) -> (r: Self)
        ensures
            r == self.scaled_spec(gain),
    ;
}

/// Fixed-width samples scale by integer gain, saturating at the rails.
impl Sample for i64 {
    type Gain = i64;

    open spec fn silence_spec() -> i64 {
        0
    }

    open spec fn scaled_spec(self, gain: i64) -> i64 {
        if self * gain > i64::MAX {
            i64::MAX
        } else if self * gain < i64::MIN {
            i64::MIN
        } else {
            (self * gain) as i64
        }
    }

    fn silence() -> (r: i64) {
        0
    }

    fn scaled(self, gain: i64) -> (r: i64) {
        match self.checked_mul(gain) {
            Some(v) => v,
            None => {
                let positive = (self < 0) == (gain < 0);
                proof {
                    assert(self * gain > i64::MAX || self * gain < i64::MIN);
                    assert(positive ==> self * gain > 0) by (nonlinear_arith)
                        requires
                            positive == ((self < 0) == (gain < 0)),
                            self * gain > i64::MAX || self * gain < i64::MIN,
                    ;
                    assert(!positive ==> self * gain < 0) by (nonlinear_arith)
                        requires
                            positive == ((self < 0) == (gain < 0)),
                            self * gain > i64::MAX || self * gain < i64::MIN,
                    ;
                }
                if positive {
                    i64::MAX
                } else {
                    i64::MIN
                }
            },
        }
    }
}

} // verus!
