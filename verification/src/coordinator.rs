//! The control-side coordinator: the track queue and its advancement.
//!
//! The coordinator owns the FIFO of tracks still to play and a mirror of the
//! engine's playback state built only from status messages — it never holds
//! the stream itself, which lives exclusively on the audio thread once sent.
//! On startup and on every finished track it walks the queue front to back,
//! asks the host to open and prime each track in turn, skips the ones that
//! refuse, and hands out exactly one opened stream to send to the engine. A
//! buffering note arms a debounce counter that one tick of [`Coordinator::update`]
//! decrements, giving a steady busy indicator instead of one that flickers
//! per message.

use crate::decoder::StreamingDecoder;
use crate::model::CurrentlyPlayingTrack;
use crate::model::MsgThreadToUi;
use crate::model::PlayingState;
use crate::model::Track;
use std::collections::VecDeque;
use vstd::prelude::*;

verus! {

/// How many UI ticks the buffering indicator stays lit after a note.
pub const BUFFERING_COOLDOWN: u32 = 30;

/// The control side's view of playback: descriptive metadata only.
pub type AppPlayingState = PlayingState<CurrentlyPlayingTrack>;

/// The control-side coordinator state.
pub struct Coordinator {
    pub queue: VecDeque<Track>,
    pub now_playing: AppPlayingState,
    pub buffering_cooldown: u32,
}

/// A suitable opener: callable on every track, and every stream it hands out
/// is well-formed and primed to frame 0.
pub open spec fn opener_ok<D: StreamingDecoder, F: Fn(&Track) -> Option<D>>(open: F) -> bool {
    &&& forall|t: &Track| #[trigger] call_requires(open, (t,))
    &&& forall|t: &Track, r: Option<D>|
        #[trigger] call_ensures(open, (t,), r) ==> (r matches Some(stream) ==> stream.wf()
            && stream.playhead_spec() == 0)
}

/// What one advancement does. Handing out a stream means: some prefix of the
/// queue was attempted and refused by the opener, the next track opened, its
/// stream is the one handed out, the queue now starts past it, and the
/// mirrored state says that track is playing from frame 0 with the stream's
/// real format. Handing out nothing means every queued track was attempted
/// and refused, the queue is spent, and the mirrored state is stopped.
pub open spec fn advance_rel<D: StreamingDecoder, F: Fn(&Track) -> Option<D>>(
    pre: Coordinator,
    post: Coordinator,
    open: F,
    r: Option<D>,
) -> bool {
    match r {
        Some(stream) => exists|k: int|
            {
                &&& 0 <= k < pre.queue@.len()
                &&& forall|j: int|
                    0 <= j < k ==> call_ensures(open, (&pre.queue@[j],), Option::<D>::None)
                &&& #[trigger] call_ensures(open, (&pre.queue@[k],), Some(stream))
                &&& stream.wf()
                &&& stream.playhead_spec() == 0
                &&& post.queue@ == pre.queue@.subrange(k + 1, pre.queue@.len() as int)
                &&& post.now_playing matches PlayingState::Selected { track: cpt, playing: pl }
                    && pl == true && cpt.track == pre.queue@[k] && cpt.playhead == 0
                    && cpt.file_info.num_frames == stream.channels()[0].len()
                    && cpt.file_info.num_channels == stream.channels().len()
                    && cpt.file_info.time_base == stream.time_base_spec()
            },
        None => {
            &&& forall|j: int|
                0 <= j < pre.queue@.len() ==> call_ensures(
                    open,
                    (&pre.queue@[j],),
                    Option::<D>::None,
                )
            &&& post.queue@.len() == 0
            &&& post.now_playing is Stopped
        },
    }
}

impl Coordinator {
    /// A coordinator over an initial queue: nothing playing, indicator dark.
    pub fn new(queue: VecDeque<Track>) -> (r: Self)
        ensures
            r.queue@ == queue@,
            r.now_playing is Stopped,
            r.buffering_cooldown == 0,
    {
        Coordinator { queue, now_playing: PlayingState::Stopped, buffering_cooldown: 0 }
    }

    /// Advance the queue: open and prime queued tracks front to back through
    /// `open`, skipping every track that refuses, until one opens; record it
    /// as playing and hand its stream out to be sent to the engine. When the
    /// queue runs out with nothing opened, playback is stopped.
    #[verifier::loop_isolation(false)]
    pub fn deque_and_send_track<D: StreamingDecoder, F: Fn(&Track) -> Option<D>>(
        &mut self,
        open: &F,
    ) -> (r: Option<D>)
        requires
            opener_ok::<D, F>(*open),
        ensures
            final(self).buffering_cooldown == old(self).buffering_cooldown,
            advance_rel(*old(self), *final(self), *open, r),
    {
        let ghost original_queue = self.queue@;
        let ghost mut attempted: int = 0;
        while self.queue.len() > 0
            invariant
                0 <= attempted,
                attempted + self.queue@.len() == original_queue.len(),
                self.queue@ == original_queue.subrange(attempted, original_queue.len() as int),
                forall|j: int|
                    0 <= j < attempted ==> call_ensures(
                        *open,
                        (&original_queue[j],),
                        Option::<D>::None,
                    ),
                self.now_playing == old(self).now_playing,
                self.buffering_cooldown == old(self).buffering_cooldown,
            decreases self.queue.len(),
        {
            let track = match self.queue.pop_front() {
                Some(track) => track,
                None => {
                    proof {
                        assert(false);
                    }
                    return None;
                },
            };
            match open(&track) {
                Some(stream) => {
                    // The host opened and primed it; record and send.
                    let info = stream.info();
                    self.now_playing = PlayingState::Selected {
                        playing: true,
                        track: CurrentlyPlayingTrack { track, playhead: 0, file_info: info },
                    };
                    proof {
                        assert(self.queue@ =~= original_queue.subrange(
                            attempted + 1,
                            original_queue.len() as int,
                        ));
                        assert(call_ensures(*open, (&original_queue[attempted],), Some(stream)));
                    }
                    return Some(stream);
                },
                None => {
                    // Could not open or prime this one: skip to the next.
                    proof {
                        attempted = attempted + 1;
                        assert(self.queue@ =~= original_queue.subrange(
                            attempted,
                            original_queue.len() as int,
                        ));
                    }
                },
            }
        }
        self.now_playing = PlayingState::Stopped;
        None
    }
}

/// How one status message moves the coordinator. A finished track advances
/// the queue; a playhead report updates the mirrored position and is ignored
/// (as stale) when nothing is selected; an engine stop clears the mirror; a
/// buffering note arms the debounce counter. Only advancement ever hands out
/// a stream.
pub open spec fn ctrl_step<D: StreamingDecoder, F: Fn(&Track) -> Option<D>>(
    pre: Coordinator,
    msg: MsgThreadToUi,
    post: Coordinator,
    open: F,
    sent: Option<D>,
) -> bool {
    match msg {
        MsgThreadToUi::FinishedTrack => {
            &&& advance_rel(pre, post, open, sent)
            &&& post.buffering_cooldown == pre.buffering_cooldown
        },
        MsgThreadToUi::PlayheadPos(pos) => {
            &&& sent is None
            &&& post.queue@ == pre.queue@
            &&& post.buffering_cooldown == pre.buffering_cooldown
            &&& match pre.now_playing {
                PlayingState::Selected { track: cpt, playing } => post.now_playing matches
                    PlayingState::Selected { track: cpt2, playing: pl2 } && pl2 == playing
                    && cpt2.track == cpt.track && cpt2.playhead == pos && cpt2.file_info
                    == cpt.file_info,
                PlayingState::Stopped => post.now_playing is Stopped,
            }
        },
        MsgThreadToUi::Stop => {
            &&& sent is None
            &&& post.queue@ == pre.queue@
            &&& post.buffering_cooldown == pre.buffering_cooldown
            &&& post.now_playing is Stopped
        },
        MsgThreadToUi::Buffering => {
            &&& sent is None
            &&& post.queue@ == pre.queue@
            &&& post.now_playing == pre.now_playing
            &&& post.buffering_cooldown == BUFFERING_COOLDOWN
        },
    }
}

/// The stream an advancement handed out, as a sequence of zero or one.
pub open spec fn opt_seq<D>(sent: Option<D>) -> Seq<D> {
    match sent {
        Some(stream) => seq![stream],
        None => Seq::<D>::empty(),
    }
}

/// The coordinator after taking `msgs` in order, with `sent` the streams the
/// advancements handed out, oldest first.
pub open spec fn ctrl_drained<D: StreamingDecoder, F: Fn(&Track) -> Option<D>>(
    pre: Coordinator,
    msgs: Seq<MsgThreadToUi>,
    post: Coordinator,
    open: F,
    sent: Seq<D>,
) -> bool
    decreases msgs.len(),
{
    if msgs.len() == 0 {
        post == pre && sent == Seq::<D>::empty()
    } else {
        exists|mid: Coordinator, first: Option<D>|
            {
                &&& #[trigger] ctrl_step(pre, msgs[0], mid, open, first)
                &&& opt_seq(first).len() <= sent.len()
                &&& sent.take(opt_seq(first).len() as int) == opt_seq(first)
                &&& ctrl_drained(
                    mid,
                    msgs.drop_first(),
                    post,
                    open,
                    sent.skip(opt_seq(first).len() as int),
                )
            }
    }
}

proof fn lemma_ctrl_drained_snoc<D: StreamingDecoder, F: Fn(&Track) -> Option<D>>(
    pre: Coordinator,
    msgs: Seq<MsgThreadToUi>,
    mid: Coordinator,
    msg: MsgThreadToUi,
    post: Coordinator,
    open: F,
    sent: Seq<D>,
    last: Option<D>,
)
    requires
        ctrl_drained(pre, msgs, mid, open, sent),
        ctrl_step(mid, msg, post, open, last),
    ensures
        ctrl_drained(pre, msgs.push(msg), post, open, sent + opt_seq(last)),
    decreases msgs.len(),
{
    let extended = msgs.push(msg);
    let all_sent = sent + opt_seq(last);
    if msgs.len() == 0 {
        assert(extended[0] == msg);
        assert(extended.drop_first() =~= Seq::<MsgThreadToUi>::empty());
        assert(all_sent =~= opt_seq(last));
        assert(all_sent.take(opt_seq(last).len() as int) =~= opt_seq(last));
        assert(all_sent.skip(opt_seq(last).len() as int) =~= Seq::<D>::empty());
        assert({
            &&& ctrl_step(pre, extended[0], post, open, last)
            &&& opt_seq(last).len() <= all_sent.len()
            &&& all_sent.take(opt_seq(last).len() as int) == opt_seq(last)
            &&& ctrl_drained(
                post,
                extended.drop_first(),
                post,
                open,
                all_sent.skip(opt_seq(last).len() as int),
            )
        });
    } else {
        let (mid1, first) = choose|mid1: Coordinator, first: Option<D>|
            {
                &&& #[trigger] ctrl_step(pre, msgs[0], mid1, open, first)
                &&& opt_seq(first).len() <= sent.len()
                &&& sent.take(opt_seq(first).len() as int) == opt_seq(first)
                &&& ctrl_drained(
                    mid1,
                    msgs.drop_first(),
                    mid,
                    open,
                    sent.skip(opt_seq(first).len() as int),
                )
            };
        let l1 = opt_seq(first).len() as int;
        lemma_ctrl_drained_snoc(
            mid1,
            msgs.drop_first(),
            mid,
            msg,
            post,
            open,
            sent.skip(l1),
            last,
        );
        assert(msgs.drop_first().push(msg) =~= extended.drop_first());
        assert(sent.skip(l1) + opt_seq(last) =~= all_sent.skip(l1));
        assert(all_sent.take(l1) =~= sent.take(l1));
        assert({
            &&& ctrl_step(pre, extended[0], mid1, open, first)
            &&& opt_seq(first).len() <= all_sent.len()
            &&& all_sent.take(l1) == opt_seq(first)
            &&& ctrl_drained(mid1, extended.drop_first(), post, open, all_sent.skip(l1))
        });
    }
}

/// A coordinator after one UI tick's debounce: the buffering counter
/// decrements toward zero, everything else stands.
pub open spec fn cooldown_tick(c: Coordinator) -> Coordinator {
    Coordinator {
        buffering_cooldown: if c.buffering_cooldown > 0 {
            (c.buffering_cooldown - 1) as u32
        } else {
            0
        },
        ..c
    }
}

/// What one tick does, with the pre-decrement state hidden.
pub open spec fn update_rel<D: StreamingDecoder, F: Fn(&Track) -> Option<D>>(
    pre: Coordinator,
    msgs: Seq<MsgThreadToUi>,
    post: Coordinator,
    open: F,
    sent: Seq<D>,
) -> bool {
    exists|mid: Coordinator|
        #[trigger] ctrl_drained(pre, msgs, mid, open, sent) && post == cooldown_tick(mid)
}

impl Coordinator {
    /// Take one status message. A finished track advances the queue and may
    /// hand out the next stream to send; the others update the mirrored
    /// state as [`ctrl_step`] says.
    pub fn take_message<D: StreamingDecoder, F: Fn(&Track) -> Option<D>>(
        &mut self,
        msg: MsgThreadToUi,
        open: &F,
    ) -> (r: Option<D>)
        requires
            opener_ok::<D, F>(*open),
        ensures
            ctrl_step(*old(self), msg, *final(self), *open, r),
    {
        match msg {
            MsgThreadToUi::FinishedTrack => self.deque_and_send_track(open),
            MsgThreadToUi::PlayheadPos(pos) => {
                let mut state = PlayingState::Stopped;
                core::mem::swap(&mut self.now_playing, &mut state);
                match state {
                    PlayingState::Selected { mut track, playing } => {
                        track.playhead = pos;
                        self.now_playing = PlayingState::Selected { track, playing };
                    },
                    PlayingState::Stopped => {
                        // Stale: the engine moved on before we stopped mirroring.
                        self.now_playing = PlayingState::Stopped;
                    },
                }
                None
            },
            MsgThreadToUi::Stop => {
                self.now_playing = PlayingState::Stopped;
                None
            },
            MsgThreadToUi::Buffering => {
                self.buffering_cooldown = BUFFERING_COOLDOWN;
                None
            },
        }
    }

    /// One UI tick: take every pending status message in order, then let the
    /// buffering indicator cool down one step. Returns the streams the
    /// advancements handed out, oldest first, to be sent to the engine.
    #[verifier::loop_isolation(false)]
    pub fn update<D: StreamingDecoder, F: Fn(&Track) -> Option<D>>(
        &mut self,
        msgs: Vec<MsgThreadToUi>,
        open: &F,
    ) -> (outgoing: Vec<D>)
        requires
            opener_ok::<D, F>(*open),
        ensures
            update_rel(*old(self), msgs@, *final(self), *open, outgoing@),
    {
        let ghost all_msgs = msgs@;
        let mut msgs = msgs;
        let mut outgoing: Vec<D> = Vec::new();
        let ghost mut taken: Seq<MsgThreadToUi> = Seq::empty();
        proof {
            assert(ctrl_drained(*old(self), taken, *self, *open, outgoing@));
        }
        while msgs.len() > 0
            invariant
                taken.len() + msgs@.len() == all_msgs.len(),
                taken == all_msgs.subrange(0, taken.len() as int),
                msgs@ == all_msgs.subrange(taken.len() as int, all_msgs.len() as int),
                ctrl_drained(*old(self), taken, *self, *open, outgoing@),
            decreases msgs.len(),
        {
            let ghost sofar = *self;
            let ghost sent_sofar = outgoing@;
            let msg = msgs.remove(0);
            let ghost m = msg;
            let sent = self.take_message(msg, open);
            match sent {
                Some(stream) => {
                    outgoing.push(stream);
                },
                None => {},
            }
            proof {
                assert(outgoing@ =~= sent_sofar + opt_seq(sent));
                lemma_ctrl_drained_snoc(
                    *old(self),
                    taken,
                    sofar,
                    m,
                    *self,
                    *open,
                    sent_sofar,
                    sent,
                );
                taken = taken.push(m);
                assert(taken =~= all_msgs.subrange(0, taken.len() as int));
            }
        }
        proof {
            assert(taken =~= all_msgs);
        }
        let ghost mid = *self;
        if self.buffering_cooldown > 0 {
            self.buffering_cooldown = self.buffering_cooldown - 1;
        }
        proof {
            assert(*self == cooldown_tick(mid));
        }
        outgoing
    }
}

/// A track the opener always refuses is never handed to the engine: when the
/// tracks before position `k0` can only refuse and the track at `k0` always
/// opens, one advancement attempts every one of them in order, hands out a
/// stream for exactly the track at `k0`, and resumes the queue past it.
pub proof fn lemma_advance_skips_failures<D: StreamingDecoder, F: Fn(&Track) -> Option<D>>(
    pre: Coordinator,
    post: Coordinator,
    open: F,
    r: Option<D>,
    k0: int,
)
    requires
        advance_rel(pre, post, open, r),
        0 <= k0 < pre.queue@.len(),
        forall|j: int, stream: D|
            0 <= j < k0 ==> !call_ensures(open, (&pre.queue@[j],), Some(stream)),
        forall|result: Option<D>|
            #[trigger] call_ensures(open, (&pre.queue@[k0],), result) ==> result is Some,
    ensures
        r is Some,
        post.queue@ == pre.queue@.subrange(k0 + 1, pre.queue@.len() as int),
        post.now_playing matches PlayingState::Selected { track: cpt, playing: pl } && pl == true
            && cpt.track == pre.queue@[k0] && cpt.playhead == 0,
{
    match r {
        None => {
            assert(call_ensures(open, (&pre.queue@[k0],), Option::<D>::None));
            assert(false);
        },
        Some(stream) => {
            let k = choose|k: int|
                {
                    &&& 0 <= k < pre.queue@.len()
                    &&& forall|j: int|
                        0 <= j < k ==> call_ensures(open, (&pre.queue@[j],), Option::<D>::None)
                    &&& #[trigger] call_ensures(open, (&pre.queue@[k],), Some(stream))
                    &&& post.queue@ == pre.queue@.subrange(k + 1, pre.queue@.len() as int)
                    &&& post.now_playing matches PlayingState::Selected {
                        track: cpt,
                        playing: pl,
                    } && pl == true && cpt.track == pre.queue@[k] && cpt.playhead == 0
                };
            if k < k0 {
                assert(false);
            }
            if k > k0 {
                assert(call_ensures(open, (&pre.queue@[k0],), Option::<D>::None));
                assert(false);
            }
        },
    }
}

} // verus!
