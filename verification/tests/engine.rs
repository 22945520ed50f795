use decomposer::audio::DecomposerAudioDaemont;
use decomposer::decoder::MemoryStream;
use decomposer::model::MsgThreadToUi;
use decomposer::model::MsgUiToThread;
use decomposer::model::PlayingState;

type Engine = DecomposerAudioDaemont<MemoryStream<i64>>;
type Msg = MsgUiToThread<MemoryStream<i64>, i64>;

fn mono(samples: Vec<i64>) -> MemoryStream<i64> {
    MemoryStream::new(vec![samples], None)
}

fn stereo(left: Vec<i64>, right: Vec<i64>) -> MemoryStream<i64> {
    MemoryStream::new(vec![left, right], None)
}

#[test]
fn stereo_track_is_scaled_on_both_channels() {
    let mut engine: Engine = DecomposerAudioDaemont::new(2);
    let stream = stereo(vec![1, 2, 3, 4], vec![5, 6, 7, 8]);
    let mut data = vec![0i64; 8];
    let statuses = engine.process(vec![Msg::StartNewTrack(stream)], &mut data);
    assert_eq!(data, vec![2, 10, 4, 12, 6, 14, 8, 16]);
    assert_eq!(statuses, vec![MsgThreadToUi::PlayheadPos(4)]);
}

#[test]
fn mono_track_is_duplicated_onto_both_channels() {
    let mut engine: Engine = DecomposerAudioDaemont::new(1);
    let stream = mono(vec![7, -3]);
    let mut data = vec![9i64; 4];
    engine.process(vec![Msg::StartNewTrack(stream)], &mut data);
    assert_eq!(data, vec![7, 7, -3, -3]);
    assert_eq!(data[0], data[1]);
    assert_eq!(data[2], data[3]);
}

#[test]
fn extra_channels_are_discarded() {
    let mut engine: Engine = DecomposerAudioDaemont::new(1);
    let stream = MemoryStream::new(vec![vec![1, 2], vec![3, 4], vec![99, 98]], None);
    let mut data = vec![0i64; 4];
    engine.process(vec![Msg::StartNewTrack(stream)], &mut data);
    assert_eq!(data, vec![1, 3, 2, 4]);
}

#[test]
fn volume_zero_silences_all_later_output() {
    let mut engine: Engine = DecomposerAudioDaemont::new(1);
    let stream = mono(vec![5, 6, 7, 8]);
    let mut data = vec![0i64; 4];
    engine.process(vec![Msg::StartNewTrack(stream)], &mut data);
    assert_eq!(data, vec![5, 5, 6, 6]);
    let mut data = vec![1i64; 4];
    engine.process(vec![Msg::SetVolume(0)], &mut data);
    assert_eq!(data, vec![0, 0, 0, 0]);
}

#[test]
fn looping_wraps_to_frame_zero_with_a_full_buffer() {
    let mut engine: Engine = DecomposerAudioDaemont::new(1);
    let stream = mono(vec![1, 2, 3]);
    let mut data = vec![0i64; 8];
    let statuses = engine.process(
        vec![Msg::SetLooping(true), Msg::StartNewTrack(stream)],
        &mut data,
    );
    // The loop boundary sits inside the buffer; it is still fully filled.
    assert_eq!(data, vec![1, 1, 2, 2, 3, 3, 1, 1]);
    assert_eq!(statuses, vec![MsgThreadToUi::PlayheadPos(1)]);
}

#[test]
fn end_of_track_reports_finished_and_stops() {
    let mut engine: Engine = DecomposerAudioDaemont::new(1);
    let stream = mono(vec![1, 2]);
    let mut data = vec![0i64; 4];
    engine.process(vec![Msg::StartNewTrack(stream)], &mut data);
    assert_eq!(data, vec![1, 1, 2, 2]);
    // The next invocation reads at the end, sees end-of-file, and asks for
    // the next track; the buffer is silent.
    let mut data = vec![9i64; 4];
    let statuses = engine.process(vec![], &mut data);
    assert_eq!(statuses, vec![MsgThreadToUi::FinishedTrack]);
    assert_eq!(data, vec![0, 0, 0, 0]);
    assert!(matches!(engine.playback_state, PlayingState::Stopped));
}

#[test]
fn seek_past_the_end_without_looping_finishes_on_the_next_callback() {
    let mut engine: Engine = DecomposerAudioDaemont::new(1);
    let stream = mono(vec![1, 2, 3, 4]);
    let mut data = vec![0i64; 2];
    engine.process(vec![Msg::StartNewTrack(stream)], &mut data);
    let mut data = vec![9i64; 4];
    let statuses = engine.process(vec![Msg::SeekTo(10)], &mut data);
    assert_eq!(statuses, vec![MsgThreadToUi::FinishedTrack]);
    assert_eq!(data, vec![0, 0, 0, 0]);
    assert!(matches!(engine.playback_state, PlayingState::Stopped));
}

#[test]
fn pause_plays_silence_and_reports_nothing() {
    let mut engine: Engine = DecomposerAudioDaemont::new(1);
    let stream = mono(vec![1, 2, 3, 4]);
    let mut data = vec![0i64; 2];
    engine.process(vec![Msg::StartNewTrack(stream)], &mut data);
    assert_eq!(data, vec![1, 1]);
    let mut data = vec![9i64; 4];
    let statuses = engine.process(vec![Msg::Pause], &mut data);
    assert_eq!(statuses, vec![]);
    assert_eq!(data, vec![0, 0, 0, 0]);
    // Resume picks up where the pause left off.
    let mut data = vec![0i64; 4];
    let statuses = engine.process(vec![Msg::Resume], &mut data);
    assert_eq!(data, vec![2, 2, 3, 3]);
    assert_eq!(statuses, vec![MsgThreadToUi::PlayheadPos(3)]);
}

#[test]
fn playhead_reports_are_monotonic_while_playing() {
    let mut engine: Engine = DecomposerAudioDaemont::new(1);
    let stream = mono(vec![1, 2, 3, 4, 5, 6]);
    let mut reports = Vec::new();
    let mut msgs = vec![Msg::StartNewTrack(stream)];
    for _ in 0..3 {
        let mut data = vec![0i64; 4];
        for status in engine.process(std::mem::take(&mut msgs), &mut data) {
            if let MsgThreadToUi::PlayheadPos(pos) = status {
                reports.push(pos);
            }
        }
    }
    assert_eq!(reports, vec![2, 4, 6]);
    for pair in reports.windows(2) {
        assert!(pair[0] <= pair[1]);
    }
}

#[test]
fn buffering_stream_yields_silence_and_a_note() {
    let mut engine: Engine = DecomposerAudioDaemont::new(1);
    let mut stream = mono(vec![1, 2, 3, 4]);
    stream.set_ready(false);
    let mut data = vec![9i64; 4];
    let statuses = engine.process(vec![Msg::StartNewTrack(stream)], &mut data);
    assert_eq!(statuses, vec![MsgThreadToUi::Buffering]);
    assert_eq!(data, vec![0, 0, 0, 0]);
    // The stream is still installed and playing; it did not advance.
    match &engine.playback_state {
        PlayingState::Selected { playing, .. } => assert!(*playing),
        PlayingState::Stopped => panic!("engine dropped the stream while buffering"),
    }
}

#[test]
fn stop_drops_the_stream() {
    let mut engine: Engine = DecomposerAudioDaemont::new(1);
    let stream = mono(vec![1, 2, 3, 4]);
    let mut data = vec![0i64; 2];
    engine.process(vec![Msg::StartNewTrack(stream)], &mut data);
    let mut data = vec![9i64; 2];
    let statuses = engine.process(vec![Msg::Stop], &mut data);
    assert_eq!(statuses, vec![]);
    assert_eq!(data, vec![0, 0]);
    assert!(matches!(engine.playback_state, PlayingState::Stopped));
}

#[test]
fn odd_buffer_tail_is_silent_for_a_mono_source() {
    let mut engine: Engine = DecomposerAudioDaemont::new(1);
    let stream = mono(vec![4, 5, 6]);
    let mut data = vec![9i64; 5];
    engine.process(vec![Msg::StartNewTrack(stream)], &mut data);
    assert_eq!(data, vec![4, 4, 5, 5, 0]);
}

#[test]
fn fatal_decode_error_halts_without_a_report() {
    let mut engine: Engine = DecomposerAudioDaemont::new(1);
    let mut stream = mono(vec![1, 2, 3, 4]);
    stream.set_faulty(true);
    let mut data = vec![9i64; 4];
    let statuses = engine.process(vec![Msg::StartNewTrack(stream)], &mut data);
    // Playback halts inside the callback with silence, and — unlike
    // end-of-file — no status message, so the queue does not advance.
    assert_eq!(statuses, vec![]);
    assert_eq!(data, vec![0, 0, 0, 0]);
    assert!(matches!(engine.playback_state, PlayingState::Stopped));
}
