//! The data shared between the control thread and the audio thread: track
//! descriptions, stream metadata, and the two message vocabularies.

pub mod track;

pub use track::Track;
pub use track::TrackLocator;

use vstd::prelude::*;

verus! {

/// Generator for tracks.
#[derive(Debug, Clone)]
pub struct Playlist {
    pub name: String,
    pub tracks: Vec<Track>,
}

/// A rational clock rate, in ticks per second, carried as plain numerator and
/// denominator so that contracts can speak about it.
#[derive(Debug, Clone, Copy, PartialEq, Eq, Structural)]
pub struct TimeBase {
    pub numer: u32,
    pub denom: u32,
}

/// Format metadata of an opened stream, fixed at open time.
#[derive(Debug, Clone, Copy, PartialEq, Eq, Structural)]
pub struct StreamInfo {
    pub num_frames: usize,
    pub num_channels: usize,
    pub time_base: Option<TimeBase>,
}

/// What the control side remembers about the track the engine is playing.
/// It never holds the stream itself: once sent, the stream lives exclusively
/// on the audio thread.
#[derive(Debug, Clone)]
pub struct CurrentlyPlayingTrack {
    pub track: Track,
    pub playhead: usize,
    pub file_info: StreamInfo,
}

// The audio player needs to live on another thread so communicate via messages.

/// Observations the audio thread reports back to the control thread.
#[derive(Debug, Clone, Copy, PartialEq, Eq, Structural)]
pub enum MsgThreadToUi {
    FinishedTrack,
    PlayheadPos(usize),
    Stop,
    Buffering,
}

/// Orders the control thread issues to the audio thread. `T` is the stream
/// handle moved to the engine; `G` is the gain scalar of the host's samples.
pub enum MsgUiToThread<T, G> {
    StartNewTrack(T),
    Resume,
    Pause,
    Stop,
    SeekTo(usize),
    SetLooping(bool),
    SetVolume(G),
}

/// Nothing's playing, or something is selected; check `playing` to see whether
/// the render loop advances it.
pub enum PlayingState<T> {
    /// Nothing's playing.
    Stopped,
    /// Something is at the bottom of the screen;
    /// check if it's playing or not.
    Selected { track: T, playing: bool },
}

} // verus!
