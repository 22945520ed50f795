use vstd::prelude::*;

verus! {

/// A definite track with a known location on disc.
#[derive(Debug, Clone)]
pub struct Track {
    pub path: String,
}

/// Uniquely identifies a track on disc, via diagnostic information.
pub struct TrackLocator {}

} // verus!
