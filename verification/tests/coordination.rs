use std::collections::VecDeque;

use decomposer::audio::DecomposerAudioDaemont;
use decomposer::coordinator::Coordinator;
use decomposer::coordinator::BUFFERING_COOLDOWN;
use decomposer::decoder::MemoryStream;
use decomposer::model::MsgThreadToUi;
use decomposer::model::MsgUiToThread;
use decomposer::model::PlayingState;
use decomposer::model::Track;
use decomposer::queue::BoundedQueue;
use decomposer::queue::ENGINE_QUEUE_CAPACITY;

type Msg = MsgUiToThread<MemoryStream<i64>, i64>;

fn track(path: &str) -> Track {
    Track { path: path.to_owned() }
}

/// Opens every track except ones named "bad", each to a two-frame mono stream
/// whose first sample is the path's length (so tracks are tellable apart).
fn opener(t: &Track) -> Option<MemoryStream<i64>> {
    if t.path == "bad" {
        None
    } else {
        Some(MemoryStream::new(vec![vec![t.path.len() as i64, -1]], None))
    }
}

#[test]
fn advancement_skips_unopenable_tracks() {
    let queue: VecDeque<Track> = vec![track("aa"), track("bad"), track("cccc")].into();
    let mut coordinator = Coordinator::new(queue);

    let first = coordinator.deque_and_send_track(&opener).expect("first track should open");
    match &coordinator.now_playing {
        PlayingState::Selected { track, playing } => {
            assert!(*playing);
            assert_eq!(track.track.path, "aa");
            assert_eq!(track.playhead, 0);
            assert_eq!(track.file_info.num_frames, 2);
            assert_eq!(track.file_info.num_channels, 1);
        },
        PlayingState::Stopped => panic!("nothing selected after a successful advance"),
    }

    // The engine plays the first track to its end...
    let mut engine: DecomposerAudioDaemont<MemoryStream<i64>> = DecomposerAudioDaemont::new(1);
    let mut data = vec![0i64; 4];
    engine.process(vec![Msg::StartNewTrack(first)], &mut data);
    assert_eq!(data, vec![2, 2, -1, -1]);
    let statuses = engine.process(vec![], &mut vec![0i64; 4]);
    assert_eq!(statuses, vec![MsgThreadToUi::FinishedTrack]);

    // ...and the finished-track cycle skips the unopenable track entirely:
    // the engine next receives the third track, never the second.
    let second = coordinator
        .take_message(MsgThreadToUi::FinishedTrack, &opener)
        .expect("the queue still holds an openable track");
    match &coordinator.now_playing {
        PlayingState::Selected { track, .. } => assert_eq!(track.track.path, "cccc"),
        PlayingState::Stopped => panic!("nothing selected after skipping the bad track"),
    }
    let mut data = vec![0i64; 4];
    engine.process(vec![Msg::StartNewTrack(second)], &mut data);
    assert_eq!(data, vec![4, 4, -1, -1]);

    // A further cycle exhausts the queue and stops the control side.
    assert!(coordinator.take_message(MsgThreadToUi::FinishedTrack, &opener).is_none());
    assert!(matches!(coordinator.now_playing, PlayingState::Stopped));
    assert_eq!(coordinator.queue.len(), 0);
}

#[test]
fn queue_of_only_unopenable_tracks_stops_playback() {
    let queue: VecDeque<Track> = vec![track("bad"), track("bad")].into();
    let mut coordinator = Coordinator::new(queue);
    assert!(coordinator.deque_and_send_track(&opener).is_none());
    assert!(matches!(coordinator.now_playing, PlayingState::Stopped));
    assert_eq!(coordinator.queue.len(), 0);
}

#[test]
fn playhead_report_updates_the_mirror() {
    let queue: VecDeque<Track> = vec![track("aa")].into();
    let mut coordinator = Coordinator::new(queue);
    coordinator.deque_and_send_track(&opener).unwrap();
    let sent = coordinator.take_message::<MemoryStream<i64>, _>(
        MsgThreadToUi::PlayheadPos(17),
        &opener,
    );
    assert!(sent.is_none());
    match &coordinator.now_playing {
        PlayingState::Selected { track, .. } => assert_eq!(track.playhead, 17),
        PlayingState::Stopped => panic!("selection lost on a playhead report"),
    }
}

#[test]
fn stale_playhead_report_is_ignored_when_stopped() {
    let mut coordinator = Coordinator::new(VecDeque::new());
    let sent =
        coordinator.take_message::<MemoryStream<i64>, _>(MsgThreadToUi::PlayheadPos(9), &opener);
    assert!(sent.is_none());
    assert!(matches!(coordinator.now_playing, PlayingState::Stopped));
}

#[test]
fn engine_stop_clears_the_mirror() {
    let queue: VecDeque<Track> = vec![track("aa")].into();
    let mut coordinator = Coordinator::new(queue);
    coordinator.deque_and_send_track(&opener).unwrap();
    coordinator.take_message::<MemoryStream<i64>, _>(MsgThreadToUi::Stop, &opener);
    assert!(matches!(coordinator.now_playing, PlayingState::Stopped));
}

#[test]
fn buffering_arms_the_cooldown_and_ticks_decrement_it() {
    let mut coordinator = Coordinator::new(VecDeque::new());
    let out: Vec<MemoryStream<i64>> =
        coordinator.update(vec![MsgThreadToUi::Buffering], &opener);
    assert!(out.is_empty());
    // The tick that delivered the note already cooled it one step.
    assert_eq!(coordinator.buffering_cooldown, BUFFERING_COOLDOWN - 1);
    let out: Vec<MemoryStream<i64>> = coordinator.update(vec![], &opener);
    assert!(out.is_empty());
    assert_eq!(coordinator.buffering_cooldown, BUFFERING_COOLDOWN - 2);
}

#[test]
fn update_hands_out_streams_for_finished_tracks() {
    let queue: VecDeque<Track> = vec![track("aa"), track("bbb")].into();
    let mut coordinator = Coordinator::new(queue);
    let out: Vec<MemoryStream<i64>> = coordinator.update(
        vec![MsgThreadToUi::FinishedTrack, MsgThreadToUi::FinishedTrack],
        &opener,
    );
    assert_eq!(out.len(), 2);
    match &coordinator.now_playing {
        PlayingState::Selected { track, .. } => assert_eq!(track.track.path, "bbb"),
        PlayingState::Stopped => panic!("second advancement should select the second track"),
    }
}

#[test]
fn pushing_onto_a_full_queue_fails_and_preserves_order() {
    let mut queue: BoundedQueue<u32> = BoundedQueue::new(ENGINE_QUEUE_CAPACITY);
    for i in 0..64u32 {
        assert!(queue.push(i).is_ok());
    }
    // The 65th push fails immediately and hands the message back.
    assert_eq!(queue.push(64), Err(64));
    assert_eq!(queue.len(), 64);
    // Every message already queued is intact and in FIFO order.
    for i in 0..64u32 {
        assert_eq!(queue.pop(), Some(i));
    }
    assert_eq!(queue.pop(), None);
}

#[test]
fn popping_an_empty_queue_fails_immediately() {
    let mut queue: BoundedQueue<u8> = BoundedQueue::new(4);
    assert_eq!(queue.pop(), None);
    queue.push(1).unwrap();
    assert_eq!(queue.pop(), Some(1));
    assert_eq!(queue.pop(), None);
}
