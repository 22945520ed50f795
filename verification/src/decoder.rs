//! The streaming-decoder interface the playback engine renders from.
//!
//! A decoder handle is opened from a track by the host, carries its format
//! metadata fixed at open time, and serves block-granular, best-effort reads
//! against a read-ahead cache: a read may deliver fewer frames than asked for,
//! reports end-of-file exactly when the playhead stands at or past the end,
//! and never blocks. The contracts here say what the engine relies on; the
//! in-memory [`MemoryStream`] realises them over a fully decoded buffer and is
//! what the tests play.

use crate::model::StreamInfo;
use crate::model::TimeBase;
use crate::sample::Sample;
use vstd::prelude::*;

verus! {

/// Why a stream operation failed.
#[derive(Debug, Clone, Copy, PartialEq, Eq, Structural)]
pub enum StreamError {
    /// The playhead stands at or past the last frame; an expected terminal
    /// condition, not a fault.
    EndOfFile,
    /// Any other decode or I/O fault.
    Fatal,
}

/// The samples one read delivered: a slice of every channel, all of the same
/// length `num_frames`.
pub struct ReadChunk<S> {
    pub num_frames: usize,
    pub channels: Vec<Vec<S>>,
}

impl<S> ReadChunk<S> {
    pub open spec fn wf(&self) -> bool {
        &&& self.channels@.len() >= 1
        &&& forall|c: int|
            0 <= c < self.channels@.len() ==> (#[trigger] self.channels@[c])@.len()
                == self.num_frames
    }
}

/// Both handles play the same track when their content and metadata agree.
pub open spec fn same_track<D: StreamingDecoder>(a: D, b: D) -> bool {
    &&& a.channels() == b.channels()
    &&& a.time_base_spec() == b.time_base_spec()
}

/// A handle onto one track's decoded samples: readiness polling, bounded
/// best-effort reads, seeking, and fixed format metadata.
pub trait StreamingDecoder: Sized {
    /// The sample scalar the stream decodes to.
    type S: Sample;

    /// The decoded track: one sample sequence per channel, fixed at open
    /// time. An unverified host's stream may leave this meaning abstract.
    open spec fn channels(&self) -> Seq<Seq<Self::S>> {
        vstd::pervasive::arbitrary()
    }

    /// The current read position, in frames. Reads advance it; seeks move it;
    /// it may stand past the end of the track. An unverified host's stream
    /// may leave this meaning abstract.
    open spec fn playhead_spec(&self) -> int {
        vstd::pervasive::arbitrary()
    }

    /// Optional clock rate for human-readable timestamps, fixed at open time.
    /// An unverified host's stream may leave this meaning abstract.
    open spec fn time_base_spec(&self) -> Option<TimeBase> {
        vstd::pervasive::arbitrary()
    }

    /// Structural soundness of the handle.
    open spec fn wf(&self) -> bool {
        &&& self.channels().len() >= 1
        &&& forall|c: int|
            0 <= c < self.channels().len() ==> (#[trigger] self.channels()[c]).len()
                == self.channels()[0].len()
        &&& self.playhead_spec() >= 0
    }

    /// True when the read-ahead cache can satisfy the next read without
    /// stalling. Polling never moves the playhead or the content.
    fn is_ready(&mut self) -> (r: Result<bool, StreamError>)
        requires
            old(self).wf(),
        ensures
            final(self).wf(),
            final(self).channels() == old(self).channels(),
            final(self).time_base_spec() == old(self).time_base_spec(),
            final(self).playhead_spec() == old(self).playhead_spec(),
    ;

    /// The current read position, in frames.
    fn playhead(&self) -> (r: usize)
        requires
            self.wf(),
        ensures
            r == self.playhead_spec(),
    ;

    /// The format metadata fixed at open time. It also pins down the shape a
    /// well-formed stream has: at least one channel, all channels of the
    /// stated length, and a position at or past frame 0.
    fn info(&self) -> (r: StreamInfo)
        requires
            self.wf(),
        ensures
            r.num_frames == self.channels()[0].len(),
            r.num_channels == self.channels().len(),
            r.time_base == self.time_base_spec(),
            r.num_channels >= 1,
            forall|c: int|
                0 <= c < self.channels().len() ==> (#[trigger] self.channels()[c]).len()
                    == self.channels()[0].len(),
            self.playhead_spec() >= 0,
    ;

    /// Deliver up to `max_frames` frames from the playhead onward and advance
    /// the playhead past them. A successful read delivers the track's own
    /// samples, possibly fewer than asked for, never past the end; end-of-file
    /// is reported exactly when the playhead already stands at or past the
    /// end. A failed read leaves the playhead where it was.
    fn read(&mut self, max_frames: usize) -> (r: Result<ReadChunk<Self::S>, StreamError>)
        requires
            old(self).wf(),
        ensures
            final(self).wf(),
            final(self).channels() == old(self).channels(),
            final(self).time_base_spec() == old(self).time_base_spec(),
            match r {
                Ok(chunk) => {
                    &&& chunk.wf()
                    &&& old(self).playhead_spec() < old(self).channels()[0].len()
                    &&& chunk.num_frames <= max_frames
                    &&& old(self).playhead_spec() + chunk.num_frames <= old(
                        self,
                    ).channels()[0].len()
                    &&& final(self).playhead_spec() == old(self).playhead_spec()
                        + chunk.num_frames
                    &&& chunk.channels@.len() == old(self).channels().len()
                    &&& forall|c: int, i: int|
                        0 <= c < chunk.channels@.len() && 0 <= i < chunk.num_frames
                            ==> #[trigger] chunk.channels@[c]@[i] == old(self).channels()[c][old(
                            self,
                        ).playhead_spec() + i]
                },
                Err(e) => {
                    &&& final(self).playhead_spec() == old(self).playhead_spec()
                    &&& (e == StreamError::EndOfFile ==> old(self).playhead_spec() >= old(
                        self,
                    ).channels()[0].len())
                },
            },
    ;

    /// Move the playhead to `frame` (which may stand past the end, so that the
    /// next read reports end-of-file). A failed seek leaves the position
    /// unchanged.
    fn seek(&mut self, frame: usize) -> (r: Result<(), StreamError>)
        requires
            old(self).wf(),
        ensures
            final(self).wf(),
            final(self).channels() == old(self).channels(),
            final(self).time_base_spec() == old(self).time_base_spec(),
            match r {
                Ok(()) => final(self).playhead_spec() == frame,
                Err(_) => final(self).playhead_spec() == old(self).playhead_spec(),
            },
    ;
}

/// A stream over samples already decoded in memory: the library's own decoder,
/// a model of a fully cached disk stream.
pub struct MemoryStream<S: Sample> {
    channels: Vec<Vec<S>>,
    playhead: usize,
    ready: bool,
    faulty: bool,
    time_base: Option<TimeBase>,
}

impl<S: Sample> MemoryStream<S> {
    /// Open a stream over decoded channel data, positioned at frame 0.
    pub fn new(channels: Vec<Vec<S>>, time_base: Option<TimeBase>) -> (r: Self)
        requires
            channels@.len() >= 1,
            forall|c: int|
                0 <= c < channels@.len() ==> (#[trigger] channels@[c])@.len()
                    == channels@[0]@.len(),
        ensures
            r.wf(),
            r.channels().len() == channels@.len(),
            forall|c: int|
                0 <= c < channels@.len() ==> r.channels()[c] == (#[trigger] channels@[c])@,
            r.playhead_spec() == 0,
            r.time_base_spec() == time_base,
    {
        MemoryStream { channels, playhead: 0, ready: true, faulty: false, time_base }
    }

    /// Pretend the read-ahead cache emptied or refilled; only readiness
    /// polling sees the difference.
    pub fn set_ready(&mut self, ready: bool)
        requires
            old(self).wf(),
        ensures
            final(self).wf(),
            same_track(*final(self), *old(self)),
            final(self).playhead_spec() == old(self).playhead_spec(),
    {
        self.ready = ready;
    }

    /// Pretend the underlying medium went bad: every further read reports a
    /// fatal fault instead of delivering frames.
    pub fn set_faulty(&mut self, faulty: bool)
        requires
            old(self).wf(),
        ensures
            final(self).wf(),
            same_track(*final(self), *old(self)),
            final(self).playhead_spec() == old(self).playhead_spec(),
    {
        self.faulty = faulty;
    }
}

impl<S: Sample> StreamingDecoder for MemoryStream<S> {
    type S = S;

    closed spec fn channels(&self) -> Seq<Seq<S>> {
        Seq::new(self.channels@.len(), |c: int| self.channels@[c]@)
    }

    closed spec fn playhead_spec(&self) -> int {
        self.playhead as int
    }

    closed spec fn time_base_spec(&self) -> Option<TimeBase> {
        self.time_base
    }

    closed spec fn wf(&self) -> bool {
        &&& self.channels@.len() >= 1
        &&& forall|c: int|
            0 <= c < self.channels@.len() ==> (#[trigger] self.channels@[c])@.len()
                == self.channels@[0]@.len()
    }

    fn is_ready(&mut self) -> (r: Result<bool, StreamError>) {
        Ok(self.ready)
    }

    fn playhead(&self) -> (r: usize) {
        self.playhead
    }

    fn info(&self) -> (r: StreamInfo) {
        StreamInfo {
            num_frames: self.channels[0].len(),
            num_channels: self.channels.len(),
            time_base: self.time_base,
        }
    }

    fn read(&mut self, max_frames: usize) -> (r: Result<ReadChunk<S>, StreamError>) {
        if self.faulty {
            return Err(StreamError::Fatal);
        }
        let total = self.channels[0].len();
        if self.playhead >= total {
            return Err(StreamError::EndOfFile);
        }
        let n = if max_frames <= total - self.playhead {
            max_frames
        } else {
            total - self.playhead
        };
        let mut out: Vec<Vec<S>> = Vec::new();
        let mut c: usize = 0;
        while c < self.channels.len()
            invariant
                self.wf(),
                0 <= c <= self.channels@.len(),
                out@.len() == c,
                total == self.channels@[0]@.len(),
                self.playhead + n <= total,
                forall|k: int|
                    0 <= k < c ==> (#[trigger] out@[k])@.len() == n,
                forall|k: int, i: int|
                    0 <= k < c && 0 <= i < n ==> #[trigger] out@[k]@[i] == self.channels@[k]@[
                        self.playhead + i],
            decreases self.channels@.len() - c,
        {
            let mut chan: Vec<S> = Vec::new();
            let mut i: usize = 0;
            while i < n
                invariant
                    self.wf(),
                    0 <= c < self.channels@.len(),
                    0 <= i <= n,
                    total == self.channels@[0]@.len(),
                    self.playhead + n <= total,
                    chan@.len() == i,
                    forall|j: int|
                        0 <= j < i ==> chan@[j] == self.channels@[c as int]@[self.playhead + j],
                decreases n - i,
            {
                chan.push(self.channels[c][self.playhead + i]);
                i += 1;
            }
            out.push(chan);
            c += 1;
        }
        self.playhead = self.playhead + n;
        Ok(ReadChunk { num_frames: n, channels: out })
    }

    fn seek(&mut self, frame: usize) -> (r: Result<(), StreamError>) {
        self.playhead = frame;
        Ok(())
    }
}

} // verus!
