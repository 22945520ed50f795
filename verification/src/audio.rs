//! The processing that lives on the audio thread.
//!
//! One engine runs inside the host's output callback. Every invocation it
//! drains the pending control messages, applies the playback state machine,
//! and fills the output buffer: silence when stopped, paused or buffering,
//! otherwise interleaved stereo rendered from the active stream, every sample
//! scaled by the current volume, with looping seeking back to frame 0 at the
//! end of the track. It reports playhead movement, buffering and end-of-track
//! back to the control side, and it never panics or blocks: a decode fault
//! degrades to silence and a stopped state inside the same invocation.

use crate::decoder::StreamError;
use crate::decoder::StreamingDecoder;
use crate::decoder::same_track;
use crate::model::MsgThreadToUi;
use crate::model::MsgUiToThread;
use crate::model::PlayingState;
use crate::sample::Sample;
use vstd::arithmetic::div_mod::*;
use vstd::prelude::*;

verus! {

/// The output is interleaved stereo: two samples per frame.
pub const OUTPUT_CHANNEL_COUNT: usize = 2;

/// The control message vocabulary as the engine sees it: the stream handle is
/// the decoder, the volume scalar is its samples' gain.
pub type EngineMsg<D> = MsgUiToThread<
    D,
    <<D as StreamingDecoder>::S as Sample>::Gain,
>;

/// The struct that goes and lives on the audio thread.
pub struct DecomposerAudioDaemont<D: StreamingDecoder> {
    pub playback_state: PlayingState<D>,
    pub looping: bool,
    pub volume: <D::S as Sample>::Gain,
}

impl<D: StreamingDecoder> DecomposerAudioDaemont<D> {
    /// A selected stream is always well-formed.
    pub open spec fn wf(&self) -> bool {
        match self.playback_state {
            PlayingState::Selected { track, playing } => track.wf(),
            PlayingState::Stopped => true,
        }
    }
}

/// How one control message moves the engine: the playback state machine.
///
/// Starting a track installs it playing; resume and pause flip the flag of a
/// selected stream and do nothing when stopped; stop drops the stream; a seek
/// moves the selected stream to the requested frame or, when the stream
/// refuses, leaves its position unchanged; looping and volume updates touch
/// nothing else.
pub open spec fn msg_step<D: StreamingDecoder>(
    pre: DecomposerAudioDaemont<D>,
    msg: EngineMsg<D>,
    post: DecomposerAudioDaemont<D>,
) -> bool {
    match msg {
        MsgUiToThread::StartNewTrack(stream) => {
            &&& post.playback_state == (PlayingState::Selected { track: stream, playing: true })
            &&& post.looping == pre.looping
            &&& post.volume == pre.volume
        },
        MsgUiToThread::Resume => match pre.playback_state {
            PlayingState::Selected { track, playing } => {
                &&& post.playback_state == (PlayingState::Selected { track, playing: true })
                &&& post.looping == pre.looping
                &&& post.volume == pre.volume
            },
            PlayingState::Stopped => post == pre,
        },
        MsgUiToThread::Pause => match pre.playback_state {
            PlayingState::Selected { track, playing } => {
                &&& post.playback_state == (PlayingState::Selected { track, playing: false })
                &&& post.looping == pre.looping
                &&& post.volume == pre.volume
            },
            PlayingState::Stopped => post == pre,
        },
        MsgUiToThread::Stop => {
            &&& post.playback_state is Stopped
            &&& post.looping == pre.looping
            &&& post.volume == pre.volume
        },
        MsgUiToThread::SeekTo(frame) => match pre.playback_state {
            PlayingState::Selected { track, playing } => {
                &&& post.playback_state matches PlayingState::Selected {
                    track: moved,
                    playing: p,
                } && p == playing && moved.wf() && same_track(moved, track) && (
                moved.playhead_spec() == frame || moved.playhead_spec() == track.playhead_spec())
                &&& post.looping == pre.looping
                &&& post.volume == pre.volume
            },
            PlayingState::Stopped => post == pre,
        },
        MsgUiToThread::SetLooping(looping) => {
            &&& post.playback_state == pre.playback_state
            &&& post.looping == looping
            &&& post.volume == pre.volume
        },
        MsgUiToThread::SetVolume(volume) => {
            &&& post.playback_state == pre.playback_state
            &&& post.looping == pre.looping
            &&& post.volume == volume
        },
    }
}

/// The engine after draining `msgs` in order, one [`msg_step`] each.
pub open spec fn drained<D: StreamingDecoder>(
    pre: DecomposerAudioDaemont<D>,
    msgs: Seq<EngineMsg<D>>,
    post: DecomposerAudioDaemont<D>,
) -> bool
    decreases msgs.len(),
{
    if msgs.len() == 0 {
        post == pre
    } else {
        exists|mid: DecomposerAudioDaemont<D>|
            #[trigger] msg_step(pre, msgs[0], mid) && drained(mid, msgs.drop_first(), post)
    }
}

proof fn lemma_drained_snoc<D: StreamingDecoder>(
    pre: DecomposerAudioDaemont<D>,
    msgs: Seq<EngineMsg<D>>,
    mid: DecomposerAudioDaemont<D>,
    msg: EngineMsg<D>,
    post: DecomposerAudioDaemont<D>,
)
    requires
        drained(pre, msgs, mid),
        msg_step(mid, msg, post),
    ensures
        drained(pre, msgs.push(msg), post),
    decreases msgs.len(),
{
    let extended = msgs.push(msg);
    if msgs.len() == 0 {
        assert(extended[0] == msg);
        assert(extended.drop_first() =~= Seq::<EngineMsg<D>>::empty());
        assert(msg_step(pre, extended[0], post) && drained(post, extended.drop_first(), post));
    } else {
        let step1 = choose|m: DecomposerAudioDaemont<D>|
            #[trigger] msg_step(pre, msgs[0], m) && drained(m, msgs.drop_first(), mid);
        lemma_drained_snoc(step1, msgs.drop_first(), mid, msg, post);
        assert(msgs.drop_first().push(msg) =~= extended.drop_first());
        assert(msg_step(pre, extended[0], step1) && drained(
            step1,
            extended.drop_first(),
            post,
        ));
    }
}

impl<D: StreamingDecoder> DecomposerAudioDaemont<D> {
    /// A fresh engine: stopped, not looping, at the given volume.
    pub fn new(volume: <D::S as Sample>::Gain) -> (r: Self)
        ensures
            r.playback_state is Stopped,
            r.looping == false,
            r.volume == volume,
            r.wf(),
    {
        DecomposerAudioDaemont { playback_state: PlayingState::Stopped, looping: false, volume }
    }

    /// Apply one control message to the playback state machine.
    pub fn take_msg(&mut self, msg: EngineMsg<D>)
        requires
            old(self).wf(),
            msg matches MsgUiToThread::StartNewTrack(stream) ==> stream.wf(),
        ensures
            final(self).wf(),
            msg_step(*old(self), msg, *final(self)),
    {
        match msg {
            MsgUiToThread::StartNewTrack(stream) => {
                self.playback_state = PlayingState::Selected { track: stream, playing: true };
            },
            MsgUiToThread::Resume => {
                let mut state = PlayingState::Stopped;
                core::mem::swap(&mut self.playback_state, &mut state);
                match state {
                    PlayingState::Selected { track, playing: _ } => {
                        self.playback_state = PlayingState::Selected { track, playing: true };
                    },
                    PlayingState::Stopped => {
                        self.playback_state = PlayingState::Stopped;
                    },
                }
            },
            MsgUiToThread::Pause => {
                let mut state = PlayingState::Stopped;
                core::mem::swap(&mut self.playback_state, &mut state);
                match state {
                    PlayingState::Selected { track, playing: _ } => {
                        self.playback_state = PlayingState::Selected { track, playing: false };
                    },
                    PlayingState::Stopped => {
                        self.playback_state = PlayingState::Stopped;
                    },
                }
            },
            MsgUiToThread::Stop => {
                self.playback_state = PlayingState::Stopped;
            },
            MsgUiToThread::SeekTo(pos) => {
                let mut state = PlayingState::Stopped;
                core::mem::swap(&mut self.playback_state, &mut state);
                match state {
                    PlayingState::Selected { mut track, playing } => {
                        let _ignore = track.seek(pos);
                        self.playback_state = PlayingState::Selected { track, playing };
                    },
                    PlayingState::Stopped => {
                        self.playback_state = PlayingState::Stopped;
                    },
                }
            },
            MsgUiToThread::SetLooping(looping) => {
                self.looping = looping;
            },
            MsgUiToThread::SetVolume(volume) => {
                self.volume = volume;
            },
        }
    }
}

/// Every slot of a silent buffer holds the silence sample.
pub open spec fn silence<S: Sample>(len: int) -> Seq<S> {
    Seq::new(len as nat, |i: int| S::silence_spec())
}

/// The source channel that feeds the second output slot of a frame: a mono
/// source feeds both slots, anything wider feeds its second channel.
pub open spec fn right_source_channel(num_channels: int) -> int {
    if num_channels == 1 {
        0
    } else {
        1
    }
}

/// The source frame the `i`th output frame of one invocation reads, with
/// looping wrapping past the end of the track back to frame 0.
pub open spec fn source_frame_index(playhead: int, i: int, num_frames: int, looping: bool) -> int {
    if looping && num_frames > 0 && playhead < num_frames {
        (playhead + i) % num_frames
    } else {
        playhead + i
    }
}

/// The playhead after delivering `count` frames from `playhead` onward.
pub open spec fn end_playhead(playhead: int, count: int, num_frames: int, looping: bool) -> int {
    if count == 0 {
        playhead
    } else if looping && num_frames > 0 && playhead < num_frames {
        (playhead + count) % num_frames
    } else {
        playhead + count
    }
}

/// The interleaved stereo output of `count` frames rendered from `channels`
/// starting at `playhead`: source channel 0 feeds the even slots, the right
/// source channel the odd ones, and every sample is scaled by `gain`.
pub open spec fn rendered<S: Sample>(
    channels: Seq<Seq<S>>,
    playhead: int,
    count: int,
    gain: S::Gain,
    looping: bool,
) -> Seq<S> {
    Seq::new(
        (2 * count) as nat,
        |j: int|
            {
                let f = source_frame_index(playhead, j / 2, channels[0].len() as int, looping);
                if j % 2 == 0 {
                    channels[0][f].scaled_spec(gain)
                } else {
                    channels[right_source_channel(channels.len() as int)][f].scaled_spec(gain)
                }
            },
    )
}

/// `out` holds `delivered` frames rendered from `pre`'s position, padded with
/// silence to the full buffer, and on success or end-of-file the stream
/// stands exactly after the delivered frames.
pub open spec fn render_delivery<D: StreamingDecoder>(
    pre: D,
    post: D,
    gain: <D::S as Sample>::Gain,
    looping: bool,
    len: int,
    out: Seq<D::S>,
    delivered: int,
    r: Result<(), StreamError>,
) -> bool {
    let chs = pre.channels();
    let frames = chs[0].len() as int;
    let ph0 = pre.playhead_spec();
    &&& 0 <= delivered
    &&& 2 * delivered <= len
    &&& out == rendered(chs, ph0, delivered, gain, looping) + silence::<D::S>(
        len - 2 * delivered,
    )
    &&& (r is Ok ==> post.playhead_spec() == end_playhead(ph0, delivered, frames, looping))
    &&& (r == Result::<(), StreamError>::Err(StreamError::EndOfFile)
        ==> post.playhead_spec() == end_playhead(ph0, delivered, frames, looping))
}

/// Extend `out` with silence until it holds `len` samples.
fn fill_silence<S: Sample>(out: &mut Vec<S>, len: usize)
    requires
        old(out)@.len() <= len,
    ensures
        final(out)@ == old(out)@ + silence::<S>(len - old(out)@.len()),
{
    let ghost base = out@;
    while out.len() < len
        invariant
            base.len() <= out@.len() <= len,
            out@ == base + silence::<S>(out@.len() - base.len()),
        decreases len - out.len(),
    {
        out.push(S::silence());
        proof {
            assert(out@ =~= base + silence::<S>(out@.len() - base.len()));
        }
    }
}

/// A buffer of `len` silent samples.
fn make_silent<S: Sample>(len: usize) -> (out: Vec<S>)
    ensures
        out@ == silence::<S>(len as int),
{
    let mut out: Vec<S> = Vec::new();
    fill_silence(&mut out, len);
    proof {
        assert(out@ =~= silence::<S>(len as int));
    }
    out
}

/// Fill `out` to `data_len` samples from a playing stream: repeated bounded
/// reads, truncated and wrapped at the loop point when looping, every sample
/// scaled by `volume`, the unfilled tail silent. Returns the first stream
/// fault, leaving the buffer fully written either way.
#[verifier::loop_isolation(false)]
fn render_playing<D: StreamingDecoder>(
    track: &mut D,
    volume: <D::S as Sample>::Gain,
    looping: bool,
    data_len: usize,
    out: &mut Vec<D::S>,
) -> (r: (Result<(), StreamError>, Ghost<int>))
    requires
        old(track).wf(),
        old(out)@.len() == 0,
    ensures
        final(track).wf(),
        final(track).channels() == old(track).channels(),
        final(track).time_base_spec() == old(track).time_base_spec(),
        final(out)@.len() == data_len,
        render_delivery(
            *old(track),
            *final(track),
            volume,
            looping,
            data_len as int,
            final(out)@,
            r.1@,
            r.0,
        ),
{
    let ghost pre_track = *track;
    let ghost chs = pre_track.channels();
    let ghost ph0 = pre_track.playhead_spec();
    let info = track.info();
    let frame_count = info.num_frames;
    let channel_count = info.num_channels;
    let right_index: usize = if channel_count == 1 {
        0
    } else {
        1
    };
    let ghost mut delivered: int = 0;
    let ghost active_loop = looping && frame_count > 0 && ph0 < frame_count;
    let mut zero_read = false;

    while !zero_read && data_len - out.len() >= channel_count
        invariant
            track.wf(),
            track.channels() == chs,
            track.time_base_spec() == pre_track.time_base_spec(),
            0 <= delivered,
            out@.len() == 2 * delivered,
            out@.len() <= data_len,
            out@ == rendered(chs, ph0, delivered, volume, looping),
            track.playhead_spec() == end_playhead(ph0, delivered, frame_count as int, looping),
            active_loop ==> track.playhead_spec() < frame_count,
        decreases data_len - out.len() + (if zero_read {
            0int
        } else {
            1int
        }),
    {
        let remaining = data_len - out.len();
        let must_read = remaining / OUTPUT_CHANNEL_COUNT;
        let ghost ph_before = track.playhead_spec();

        // Suck the data off the stream's cache.
        let chunk = match track.read(must_read) {
            Ok(chunk) => chunk,
            Err(e) => {
                fill_silence(out, data_len);
                proof {
                    assert(render_delivery(
                        pre_track,
                        *track,
                        volume,
                        looping,
                        data_len as int,
                        out@,
                        delivered,
                        Result::<(), StreamError>::Err(e),
                    ));
                }
                return (Err(e), Ghost(delivered));
            },
        };
        let actually_read_count = chunk.num_frames;
        if actually_read_count == 0 {
            zero_read = true;
        } else {
            let playhead_after = track.playhead();

            let must_loop = looping && playhead_after >= frame_count;
            let write_count = if must_loop {
                actually_read_count - (playhead_after - frame_count)
            } else {
                actually_read_count
            };
            proof {
                assert(ph_before + actually_read_count <= frame_count);
                assert(write_count == actually_read_count);
                // The frames just read sit at ph_before.., which is where
                // frame `delivered` of this invocation reads from.
                if active_loop {
                    lemma_small_mod(ph0 as nat, frame_count as nat);
                    assert(ph_before == (ph0 + delivered) % (frame_count as int));
                }
            }

            // Copy the read data, mono duplicated onto both output slots,
            // everything scaled by the volume.
            let mut i: usize = 0;
            while i < write_count
                invariant
                    0 <= i <= write_count,
                    write_count == chunk.num_frames,
                    chunk.wf(),
                    chunk.channels@.len() == chs.len(),
                    0 <= ph_before,
                    ph_before + write_count <= frame_count,
                    active_loop ==> ph_before == (ph0 + delivered) % (frame_count as int),
                    !active_loop ==> ph_before == ph0 + delivered,
                    forall|c: int, k: int|
                        0 <= c < chunk.channels@.len() && 0 <= k < chunk.num_frames
                            ==> #[trigger] chunk.channels@[c]@[k] == chs[c][ph_before + k],
                    out@.len() == 2 * (delivered + i),
                    out@.len() + 2 * (write_count - i) <= data_len,
                    out@ == rendered(chs, ph0, delivered + i, volume, looping),
                decreases write_count - i,
            {
                let left = chunk.channels[0][i].scaled(volume);
                let right = chunk.channels[right_index][i].scaled(volume);
                out.push(left);
                out.push(right);
                proof {
                    let d1 = delivered + i;
                    let frames = frame_count as int;
                    if active_loop {
                        lemma_small_mod((ph_before + i) as nat, frames as nat);
                        lemma_add_mod_noop(ph0 + delivered, i as int, frames);
                        lemma_small_mod(i as nat, frames as nat);
                        assert((ph0 + d1) % frames == ((ph0 + delivered) % frames + (i as int)
                            % frames) % frames);
                        assert(source_frame_index(ph0, d1, frames, looping) == ph_before + i);
                    } else {
                        assert(source_frame_index(ph0, d1, frames, looping) == ph_before + i);
                    }
                    assert(out@ =~= rendered(chs, ph0, d1 + 1, volume, looping));
                }
                i += 1;
            }
            proof {
                delivered = delivered + actually_read_count;
            }

            if must_loop {
                match track.seek(0) {
                    Ok(_) => {
                        proof {
                            let frames = frame_count as int;
                            lemma_add_mod_noop(
                                ph0 + (delivered - actually_read_count),
                                actually_read_count as int,
                                frames,
                            );
                            lemma_mod_self_0(frames);
                            if (actually_read_count as int) < frames {
                                lemma_small_mod(actually_read_count as nat, frames as nat);
                            } else {
                                lemma_small_mod(0nat, frames as nat);
                            }
                            assert((ph0 + delivered) % frames == 0);
                        }
                    },
                    Err(_) => {
                        fill_silence(out, data_len);
                        proof {
                            assert(render_delivery(
                                pre_track,
                                *track,
                                volume,
                                looping,
                                data_len as int,
                                out@,
                                delivered,
                                Result::<(), StreamError>::Err(StreamError::Fatal),
                            ));
                        }
                        return (Err(StreamError::Fatal), Ghost(delivered));
                    },
                }
            } else {
                proof {
                    if active_loop {
                        let frames = frame_count as int;
                        lemma_add_mod_noop(
                            ph0 + (delivered - actually_read_count),
                            actually_read_count as int,
                            frames,
                        );
                        lemma_small_mod(actually_read_count as nat, frames as nat);
                        lemma_small_mod((ph_before + actually_read_count) as nat, frames as nat);
                        assert((ph0 + delivered) % frames == ph_before + actually_read_count);
                    }
                }
            }
        }
    }

    fill_silence(out, data_len);
    proof {
        assert(render_delivery(
            pre_track,
            *track,
            volume,
            looping,
            data_len as int,
            out@,
            delivered,
            Result::<(), StreamError>::Ok(()),
        ));
    }
    (Ok(()), Ghost(delivered))
}

/// What one invocation appends to the status stream about the playhead: a
/// single position report when it moved, nothing when it did not.
pub open spec fn playhead_note(ph0: int, ph1: int, appended: Seq<MsgThreadToUi>) -> bool {
    if ph1 != ph0 {
        appended == seq![MsgThreadToUi::PlayheadPos(ph1 as usize)]
    } else {
        appended == Seq::<MsgThreadToUi>::empty()
    }
}

/// What rendering does to a selected stream: silence with a buffering note
/// when the cache cannot serve, silence when paused, otherwise some delivered
/// prefix of frames followed by silence, with the playhead reported if it
/// moved. On a fault nothing is appended and the buffer is still fully
/// written.
pub open spec fn render_selected<D: StreamingDecoder>(
    track: D,
    moved: D,
    gain: <D::S as Sample>::Gain,
    looping: bool,
    playing: bool,
    len: int,
    out: Seq<D::S>,
    appended: Seq<MsgThreadToUi>,
    r: Result<(), StreamError>,
) -> bool {
    let ph0 = track.playhead_spec();
    match r {
        Ok(()) => {
            ||| {
                &&& out == silence::<D::S>(len)
                &&& moved.playhead_spec() == ph0
                &&& appended == seq![MsgThreadToUi::Buffering]
            }
            ||| {
                &&& !playing
                &&& out == silence::<D::S>(len)
                &&& moved.playhead_spec() == ph0
                &&& appended == Seq::<MsgThreadToUi>::empty()
            }
            ||| {
                &&& playing
                &&& exists|delivered: int|
                    #[trigger] render_delivery(track, moved, gain, looping, len, out, delivered, r)
                &&& playhead_note(ph0, moved.playhead_spec(), appended)
            }
        },
        Err(e) => {
            &&& appended == Seq::<MsgThreadToUi>::empty()
            &&& (!playing ==> out == silence::<D::S>(len) && moved.playhead_spec() == ph0)
            &&& (playing ==> exists|delivered: int|
                #[trigger] render_delivery(track, moved, gain, looping, len, out, delivered, r))
        },
    }
}

/// One render invocation of the engine: stopped means untouched state and a
/// silent buffer; a selected stream stays selected with its track and flag
/// intact and behaves as [`render_selected`] says. Looping and volume are
/// never touched here.
pub open spec fn render_outcome<D: StreamingDecoder>(
    pre: DecomposerAudioDaemont<D>,
    len: int,
    out: Seq<D::S>,
    appended: Seq<MsgThreadToUi>,
    post: DecomposerAudioDaemont<D>,
    r: Result<(), StreamError>,
) -> bool {
    &&& out.len() == len
    &&& post.looping == pre.looping
    &&& post.volume == pre.volume
    &&& match pre.playback_state {
        PlayingState::Stopped => {
            &&& post == pre
            &&& out == silence::<D::S>(len)
            &&& appended == Seq::<MsgThreadToUi>::empty()
            &&& r is Ok
        },
        PlayingState::Selected { track, playing } => post.playback_state matches
            PlayingState::Selected { track: moved, playing: p } && p == playing && moved.wf()
            && same_track(moved, track) && render_selected(
            track,
            moved,
            pre.volume,
            pre.looping,
            playing,
            len,
            out,
            appended,
            r,
        ),
    }
}

impl<D: StreamingDecoder> DecomposerAudioDaemont<D> {
    /// Render one buffer from the current state: silence unless a stream is
    /// selected, ready and playing, in which case its frames are volume-scaled
    /// into the buffer with looping applied. Status notes are appended to
    /// `statuses`; a stream fault is returned, never propagated further.
    fn finagle_audio_state(
        &mut self,
        data: &mut Vec<D::S>,
        statuses: &mut Vec<MsgThreadToUi>,
    ) -> (r: Result<(), StreamError>)
        requires
            old(self).wf(),
        ensures
            final(self).wf(),
            final(data)@.len() == old(data)@.len(),
            exists|appended: Seq<MsgThreadToUi>|
                final(statuses)@ == old(statuses)@ + appended && #[trigger] render_outcome(
                    *old(self),
                    old(data)@.len() as int,
                    final(data)@,
                    appended,
                    *final(self),
                    r,
                ),
    {
        let data_len = data.len();
        let ghost pre = *self;
        let ghost statuses0 = statuses@;
        let mut state = PlayingState::Stopped;
        core::mem::swap(&mut self.playback_state, &mut state);
        match state {
            PlayingState::Stopped => {
                self.playback_state = PlayingState::Stopped;
                *data = make_silent(data_len);
                proof {
                    assert(statuses@ =~= statuses0 + Seq::<MsgThreadToUi>::empty());
                    assert(render_outcome(
                        pre,
                        data_len as int,
                        data@,
                        Seq::<MsgThreadToUi>::empty(),
                        *self,
                        Result::<(), StreamError>::Ok(()),
                    ));
                }
                Ok(())
            },
            PlayingState::Selected { mut track, playing } => {
                let ghost track0 = track;
                let ready = match track.is_ready() {
                    Ok(ready) => ready,
                    Err(e) => {
                        let ghost track_after = track;
                        self.playback_state = PlayingState::Selected { track, playing };
                        *data = make_silent(data_len);
                        proof {
                            assert(statuses@ =~= statuses0 + Seq::<MsgThreadToUi>::empty());
                            if playing {
                                assert(rendered(
                                    track0.channels(),
                                    track0.playhead_spec(),
                                    0,
                                    pre.volume,
                                    pre.looping,
                                ) =~= Seq::<D::S>::empty());
                                assert(data@ =~= rendered(
                                    track0.channels(),
                                    track0.playhead_spec(),
                                    0,
                                    pre.volume,
                                    pre.looping,
                                ) + silence::<D::S>(data_len as int));
                                assert(render_delivery(
                                    track0,
                                    track_after,
                                    pre.volume,
                                    pre.looping,
                                    data_len as int,
                                    data@,
                                    0,
                                    Result::<(), StreamError>::Err(e),
                                ));
                            }
                            assert(render_outcome(
                                pre,
                                data_len as int,
                                data@,
                                Seq::<MsgThreadToUi>::empty(),
                                *self,
                                Result::<(), StreamError>::Err(e),
                            ));
                        }
                        return Err(e);
                    },
                };
                let ghost track1 = track;
                if !ready {
                    // The cache cannot serve: report it (best effort) and
                    // prevent stuttering with silence.
                    statuses.push(MsgThreadToUi::Buffering);
                    self.playback_state = PlayingState::Selected { track, playing };
                    *data = make_silent(data_len);
                    proof {
                        assert(statuses@ =~= statuses0 + seq![MsgThreadToUi::Buffering]);
                        assert(render_outcome(
                            pre,
                            data_len as int,
                            data@,
                            seq![MsgThreadToUi::Buffering],
                            *self,
                            Result::<(), StreamError>::Ok(()),
                        ));
                    }
                    return Ok(());
                }
                let prev_playhead = track.playhead();
                if playing {
                    let mut out: Vec<D::S> = Vec::new();
                    let (res, count) = render_playing(
                        &mut track,
                        self.volume,
                        self.looping,
                        data_len,
                        &mut out,
                    );
                    *data = out;
                    match res {
                        Ok(()) => {
                            let now_playhead = track.playhead();
                            let ghost appended: Seq<MsgThreadToUi> = if now_playhead
                                != prev_playhead {
                                seq![MsgThreadToUi::PlayheadPos(now_playhead)]
                            } else {
                                Seq::<MsgThreadToUi>::empty()
                            };
                            if now_playhead != prev_playhead {
                                statuses.push(MsgThreadToUi::PlayheadPos(now_playhead));
                            }
                            self.playback_state = PlayingState::Selected { track, playing };
                            proof {
                                assert(statuses@ =~= statuses0 + appended);
                                assert(render_delivery(
                                    track0,
                                    self.playback_state->Selected_track,
                                    pre.volume,
                                    pre.looping,
                                    data_len as int,
                                    data@,
                                    count@,
                                    Result::<(), StreamError>::Ok(()),
                                ));
                                assert(render_outcome(
                                    pre,
                                    data_len as int,
                                    data@,
                                    appended,
                                    *self,
                                    Result::<(), StreamError>::Ok(()),
                                ));
                            }
                            Ok(())
                        },
                        Err(e) => {
                            self.playback_state = PlayingState::Selected { track, playing };
                            proof {
                                assert(statuses@ =~= statuses0 + Seq::<MsgThreadToUi>::empty());
                                assert(render_delivery(
                                    track0,
                                    self.playback_state->Selected_track,
                                    pre.volume,
                                    pre.looping,
                                    data_len as int,
                                    data@,
                                    count@,
                                    Result::<(), StreamError>::Err(e),
                                ));
                                assert(render_outcome(
                                    pre,
                                    data_len as int,
                                    data@,
                                    Seq::<MsgThreadToUi>::empty(),
                                    *self,
                                    Result::<(), StreamError>::Err(e),
                                ));
                            }
                            Err(e)
                        },
                    }
                } else {
                    self.playback_state = PlayingState::Selected { track, playing };
                    *data = make_silent(data_len);
                    proof {
                        assert(statuses@ =~= statuses0 + Seq::<MsgThreadToUi>::empty());
                        assert(render_outcome(
                            pre,
                            data_len as int,
                            data@,
                            Seq::<MsgThreadToUi>::empty(),
                            *self,
                            Result::<(), StreamError>::Ok(()),
                        ));
                    }
                    Ok(())
                }
            },
        }
    }
}

/// One full callback with its intermediate engine states named: the engine
/// drains `msgs` into `mid`, renders with outcome `fpost`/`appended`/`r`, and
/// then end-of-file stops it with a finished-track note appended, any other
/// fault stops it silently, and success keeps the rendered state.
pub open spec fn process_witness<D: StreamingDecoder>(
    pre: DecomposerAudioDaemont<D>,
    msgs: Seq<EngineMsg<D>>,
    len: int,
    out: Seq<D::S>,
    statuses: Seq<MsgThreadToUi>,
    post: DecomposerAudioDaemont<D>,
    mid: DecomposerAudioDaemont<D>,
    fpost: DecomposerAudioDaemont<D>,
    r: Result<(), StreamError>,
    appended: Seq<MsgThreadToUi>,
) -> bool {
    &&& drained(pre, msgs, mid)
    &&& render_outcome(mid, len, out, appended, fpost, r)
    &&& match r {
        Ok(()) => post == fpost && statuses == appended,
        Err(StreamError::EndOfFile) => {
            &&& statuses == appended.push(MsgThreadToUi::FinishedTrack)
            &&& post.playback_state is Stopped
            &&& post.looping == fpost.looping
            &&& post.volume == fpost.volume
        },
        Err(StreamError::Fatal) => {
            &&& statuses == appended
            &&& post.playback_state is Stopped
            &&& post.looping == fpost.looping
            &&& post.volume == fpost.volume
        },
    }
}

/// What one callback does, with the intermediate states hidden.
pub open spec fn process_rel<D: StreamingDecoder>(
    pre: DecomposerAudioDaemont<D>,
    msgs: Seq<EngineMsg<D>>,
    len: int,
    out: Seq<D::S>,
    statuses: Seq<MsgThreadToUi>,
    post: DecomposerAudioDaemont<D>,
) -> bool {
    exists|
        mid: DecomposerAudioDaemont<D>,
        fpost: DecomposerAudioDaemont<D>,
        r: Result<(), StreamError>,
        appended: Seq<MsgThreadToUi>,
    |
        #[trigger] process_witness(pre, msgs, len, out, statuses, post, mid, fpost, r, appended)
}

impl<D: StreamingDecoder> DecomposerAudioDaemont<D> {
    /// One invocation of the audio callback: drain every pending control
    /// message in order, then render into `data`, returning the status notes
    /// for the control thread. End-of-file stops the engine and reports the
    /// finished track; any other stream fault stops it with no report.
    pub fn process(&mut self, msgs: Vec<EngineMsg<D>>, data: &mut Vec<D::S>) -> (statuses: Vec<
        MsgThreadToUi,
    >)
        requires
            old(self).wf(),
            forall|k: int|
                0 <= k < msgs@.len() ==> ((#[trigger] msgs@[k]) matches
                    MsgUiToThread::StartNewTrack(stream) ==> stream.wf()),
        ensures
            final(self).wf(),
            final(data)@.len() == old(data)@.len(),
            process_rel(
                *old(self),
                msgs@,
                old(data)@.len() as int,
                final(data)@,
                statuses@,
                *final(self),
            ),
    {
        let ghost pre = *self;
        let ghost all_msgs = msgs@;
        let mut msgs = msgs;
        let ghost mut taken: Seq<EngineMsg<D>> = Seq::empty();
        proof {
            assert(all_msgs.subrange(0, 0) =~= Seq::<EngineMsg<D>>::empty());
        }
        while msgs.len() > 0
            invariant
                self.wf(),
                taken.len() + msgs@.len() == all_msgs.len(),
                taken == all_msgs.subrange(0, taken.len() as int),
                msgs@ == all_msgs.subrange(taken.len() as int, all_msgs.len() as int),
                drained(pre, taken, *self),
                forall|k: int|
                    0 <= k < msgs@.len() ==> ((#[trigger] msgs@[k]) matches
                        MsgUiToThread::StartNewTrack(stream) ==> stream.wf()),
            decreases msgs.len(),
        {
            let ghost sofar = *self;
            let msg = msgs.remove(0);
            let ghost m = msg;
            self.take_msg(msg);
            proof {
                lemma_drained_snoc(pre, taken, sofar, m, *self);
                taken = taken.push(m);
                assert(taken =~= all_msgs.subrange(0, taken.len() as int));
            }
        }
        proof {
            assert(taken =~= all_msgs);
        }
        let ghost mid = *self;
        let mut statuses: Vec<MsgThreadToUi> = Vec::new();
        let res = self.finagle_audio_state(data, &mut statuses);
        let ghost fpost = *self;
        let ghost appended = statuses@;
        match res {
            Ok(()) => {},
            Err(StreamError::EndOfFile) => {
                // Welp we're done here, onto the next: ask the control thread
                // to send us the next one.
                statuses.push(MsgThreadToUi::FinishedTrack);
                self.playback_state = PlayingState::Stopped;
            },
            Err(StreamError::Fatal) => {
                // Fatal but non-crashing: halt playback inside this callback.
                self.playback_state = PlayingState::Stopped;
            },
        }
        proof {
            assert(appended =~= Seq::<MsgThreadToUi>::empty() + appended);
            assert(process_witness(
                pre,
                all_msgs,
                old(data)@.len() as int,
                data@,
                statuses@,
                *self,
                mid,
                fpost,
                res,
                appended,
            ));
        }
        statuses
    }
}

/// Volume scaling is applied identically to both output channels: frame `i`
/// of a rendered buffer carries the same source frame on both slots, each
/// sample scaled by the same gain.
pub proof fn lemma_volume_applied_identically<S: Sample>(
    channels: Seq<Seq<S>>,
    playhead: int,
    count: int,
    gain: S::Gain,
    looping: bool,
    i: int,
)
    requires
        0 <= i < count,
    ensures
        rendered(channels, playhead, count, gain, looping)[2 * i] == channels[0][
            source_frame_index(playhead, i, channels[0].len() as int, looping)].scaled_spec(gain),
        rendered(channels, playhead, count, gain, looping)[2 * i + 1] == channels[
            right_source_channel(channels.len() as int)][
            source_frame_index(playhead, i, channels[0].len() as int, looping)].scaled_spec(gain),
{
    assert((2 * i) / 2 == i);
    assert((2 * i + 1) / 2 == i);
}

/// A mono source is duplicated: both output slots of every rendered frame are
/// the same sample.
pub proof fn lemma_mono_duplication<S: Sample>(
    channels: Seq<Seq<S>>,
    playhead: int,
    count: int,
    gain: S::Gain,
    looping: bool,
    i: int,
)
    requires
        channels.len() == 1,
        0 <= i < count,
    ensures
        rendered(channels, playhead, count, gain, looping)[2 * i] == rendered(
            channels,
            playhead,
            count,
            gain,
            looping,
        )[2 * i + 1],
{
    lemma_volume_applied_identically(channels, playhead, count, gain, looping, i);
}

/// Looping is continuous: once the frames rendered in one invocation reach
/// the end of a track of `num_frames` frames, the next output frame reads
/// source frame 0, and the ones after it follow in order.
pub proof fn lemma_loop_continuity(playhead: int, num_frames: int, i: int)
    requires
        0 <= playhead < num_frames,
        0 <= i,
    ensures
        source_frame_index(playhead, (num_frames - playhead) + i, num_frames, true) == i
            % num_frames,
{
    lemma_add_mod_noop(num_frames, i, num_frames);
    lemma_mod_self_0(num_frames);
    lemma_mod_twice(i, num_frames);
}

/// In the buffer one delivery filled, every delivered frame carries the same
/// source frame on both output slots, each sample scaled by the gain — and a
/// mono source is therefore bit-identical on both slots.
pub proof fn lemma_delivery_scales_both_channels<D: StreamingDecoder>(
    pre: D,
    post: D,
    gain: <D::S as Sample>::Gain,
    looping: bool,
    len: int,
    out: Seq<D::S>,
    delivered: int,
    r: Result<(), StreamError>,
    i: int,
)
    requires
        render_delivery(pre, post, gain, looping, len, out, delivered, r),
        0 <= i < delivered,
    ensures
        out[2 * i] == pre.channels()[0][source_frame_index(
            pre.playhead_spec(),
            i,
            pre.channels()[0].len() as int,
            looping,
        )].scaled_spec(gain),
        out[2 * i + 1] == pre.channels()[right_source_channel(pre.channels().len() as int)][
            source_frame_index(
            pre.playhead_spec(),
            i,
            pre.channels()[0].len() as int,
            looping,
        )].scaled_spec(gain),
        pre.channels().len() == 1 ==> out[2 * i] == out[2 * i + 1],
{
    lemma_volume_applied_identically(
        pre.channels(),
        pre.playhead_spec(),
        delivered,
        gain,
        looping,
        i,
    );
}

/// Looping fills the buffer continuously across the loop point: the frame
/// delivered right after the end of the track is source frame 0, and the ones
/// after it follow in order, while the buffer stays fully written.
pub proof fn lemma_looping_delivery_wraps<D: StreamingDecoder>(
    pre: D,
    post: D,
    gain: <D::S as Sample>::Gain,
    len: int,
    out: Seq<D::S>,
    delivered: int,
    r: Result<(), StreamError>,
    i: int,
)
    requires
        render_delivery(pre, post, gain, true, len, out, delivered, r),
        0 <= pre.playhead_spec() < pre.channels()[0].len(),
        0 <= i,
        (pre.channels()[0].len() - pre.playhead_spec()) + i < delivered,
    ensures
        out.len() == len,
        out[2 * ((pre.channels()[0].len() - pre.playhead_spec()) + i)] == pre.channels()[0][i % (
        pre.channels()[0].len() as int)].scaled_spec(gain),
{
    let frames = pre.channels()[0].len() as int;
    let boundary = (frames - pre.playhead_spec()) + i;
    lemma_delivery_scales_both_channels(pre, post, gain, true, len, out, delivered, r, boundary);
    lemma_loop_continuity(pre.playhead_spec(), frames, i);
}

/// While the selected stream is paused, no invocation reports a playhead
/// position.
pub proof fn lemma_paused_reports_nothing<D: StreamingDecoder>(
    pre: DecomposerAudioDaemont<D>,
    len: int,
    out: Seq<D::S>,
    appended: Seq<MsgThreadToUi>,
    post: DecomposerAudioDaemont<D>,
    r: Result<(), StreamError>,
)
    requires
        render_outcome(pre, len, out, appended, post, r),
        pre.playback_state matches PlayingState::Selected { track, playing } && !playing,
    ensures
        forall|k: int| 0 <= k < appended.len() ==> !((#[trigger] appended[k]) is PlayheadPos),
{
}

/// While a stream plays without looping, the positions reported by
/// consecutive invocations never decrease.
pub proof fn lemma_playhead_reports_monotonic<D: StreamingDecoder>(
    e0: DecomposerAudioDaemont<D>,
    len1: int,
    out1: Seq<D::S>,
    app1: Seq<MsgThreadToUi>,
    e1: DecomposerAudioDaemont<D>,
    len2: int,
    out2: Seq<D::S>,
    app2: Seq<MsgThreadToUi>,
    e2: DecomposerAudioDaemont<D>,
    p1: usize,
    p2: usize,
)
    requires
        render_outcome(e0, len1, out1, app1, e1, Result::<(), StreamError>::Ok(())),
        render_outcome(e1, len2, out2, app2, e2, Result::<(), StreamError>::Ok(())),
        e0.playback_state matches PlayingState::Selected { track, playing } && playing
            && track.playhead_spec() >= 0 && !e0.looping,
        e1.playback_state matches PlayingState::Selected { track: mid_track, playing: mid_playing }
            && mid_track.playhead_spec() <= usize::MAX,
        e2.playback_state matches PlayingState::Selected { track: end_track, playing: end_playing }
            && end_track.playhead_spec() <= usize::MAX,
        app1 == seq![MsgThreadToUi::PlayheadPos(p1)],
        app2 == seq![MsgThreadToUi::PlayheadPos(p2)],
    ensures
        p1 <= p2,
{
    assert(seq![MsgThreadToUi::PlayheadPos(p1)][0] == MsgThreadToUi::PlayheadPos(p1));
    assert(seq![MsgThreadToUi::PlayheadPos(p2)][0] == MsgThreadToUi::PlayheadPos(p2));
    assert(seq![MsgThreadToUi::Buffering][0] == MsgThreadToUi::Buffering);
}

} // verus!
