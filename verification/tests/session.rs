use g_type::hotkey::InputSignal;
use g_type::resample::Downsampler;
use g_type::session::{truncate, Action, Event, Session, State};

#[test]
fn test_truncate() {
    assert_eq!(truncate("hello", 10), "hello");
    assert_eq!(truncate("hello world", 5), "hello…");
}

#[test]
fn test_state_display() {
    assert_eq!(State::Idle.label(), "IDLE");
    assert_eq!(State::Recording.label(), "RECORDING");
    assert_eq!(State::Processing.label(), "PROCESSING");
    assert_eq!(State::Injecting.label(), "INJECTING");
}

#[test]
fn test_start_opens_session() {
    let mut m = Session::new();
    assert!(matches!(m.current_state(), State::Idle));
    let a = m.step(Event::Signal(InputSignal::Start));
    assert!(matches!(a, Action::StartCapture));
    assert!(matches!(m.current_state(), State::Recording));
}

#[test]
fn test_spurious_stop_in_idle() {
    let mut m = Session::new();
    let a = m.step(Event::Signal(InputSignal::Stop));
    assert!(matches!(a, Action::Stay));
    assert!(matches!(m.current_state(), State::Idle));
}

#[test]
fn test_signal_closed_parks() {
    let mut m = Session::new();
    let a = m.step(Event::SignalClosed);
    assert!(matches!(a, Action::Park));
    assert!(matches!(m.current_state(), State::Idle));
}

#[test]
fn test_duplicate_start_is_idempotent() {
    // A second Start edge while already Recording starts no second capture.
    let mut m = Session::new();
    let mut start_captures = 0;
    if matches!(m.step(Event::Signal(InputSignal::Start)), Action::StartCapture) {
        start_captures += 1;
    }
    if matches!(m.step(Event::Signal(InputSignal::Start)), Action::StartCapture) {
        start_captures += 1;
    }
    assert_eq!(start_captures, 1);
    assert!(matches!(m.current_state(), State::Recording));
}

#[test]
fn test_collector_completeness() {
    // Chunks sent before the stop plus chunks drained after it are all in
    // the finalized buffer, in order.
    let mut m = Session::new();
    m.step(Event::Signal(InputSignal::Start));
    let c1: Vec<i16> = (0..1600).map(|i| i as i16).collect();
    let c2: Vec<i16> = (0..1600).map(|i| (i + 1) as i16).collect();
    let c3: Vec<i16> = (0..800).map(|i| (i + 2) as i16).collect();
    m.step(Event::Chunk(c1.clone()));
    m.step(Event::Chunk(c2.clone()));
    assert_eq!(m.buffered_len(), 3200);
    let a = m.step(Event::Signal(InputSignal::Stop));
    assert!(matches!(a, Action::FinishCapture));
    let a = m.finalize(vec![c3.clone()]);
    let buf = match a {
        Action::Transcribe(b) => b,
        other => panic!("expected Transcribe, got {:?}", other),
    };
    assert_eq!(buf.len(), c1.len() + c2.len() + c3.len());
    assert_eq!(&buf[..1600], &c1[..]);
    assert_eq!(&buf[1600..3200], &c2[..]);
    assert_eq!(&buf[3200..], &c3[..]);
}

#[test]
fn test_empty_recording_skips_transcription() {
    let mut m = Session::new();
    m.step(Event::Signal(InputSignal::Start));
    let a = m.step(Event::Signal(InputSignal::Stop));
    assert!(matches!(a, Action::FinishCapture));
    let a = m.finalize(vec![]);
    assert!(matches!(a, Action::Stay));
    assert!(matches!(m.current_state(), State::Idle));
}

#[test]
fn test_capture_failure_recovers() {
    let mut m = Session::new();
    m.step(Event::Signal(InputSignal::Start));
    let a = m.step(Event::CaptureStartFailed);
    assert!(matches!(a, Action::Stay));
    assert!(matches!(m.current_state(), State::Idle));
    // Ready for the next session.
    assert!(matches!(
        m.step(Event::Signal(InputSignal::Start)),
        Action::StartCapture
    ));
}

#[test]
fn test_chunk_channel_closed_is_early_stop() {
    let mut m = Session::new();
    m.step(Event::Signal(InputSignal::Start));
    m.step(Event::Chunk(vec![5; 100]));
    let a = m.step(Event::ChunkClosed);
    assert!(matches!(a, Action::FinishCapture));
    let a = m.finalize(vec![]);
    assert!(matches!(a, Action::Transcribe(b) if b.len() == 100));
}

#[test]
fn test_transcription_failure_recovers() {
    // A transport error and a timeout arrive as the same event; both end
    // the cycle in Idle with a fresh Start accepted.
    let mut m = Session::new();
    m.step(Event::Signal(InputSignal::Start));
    m.step(Event::Chunk(vec![1; 1600]));
    m.step(Event::Signal(InputSignal::Stop));
    let a = m.finalize(vec![]);
    assert!(matches!(a, Action::Transcribe(_)));
    let a = m.step(Event::TranscriptionFailed);
    assert!(matches!(a, Action::Stay));
    assert!(matches!(m.current_state(), State::Idle));
    assert!(matches!(
        m.step(Event::Signal(InputSignal::Start)),
        Action::StartCapture
    ));
}

#[test]
fn test_empty_transcription_skips_injection() {
    let mut m = Session::new();
    m.step(Event::Signal(InputSignal::Start));
    m.step(Event::Chunk(vec![1; 1600]));
    m.step(Event::Signal(InputSignal::Stop));
    m.finalize(vec![]);
    let a = m.step(Event::TranscriptionOk(String::new()));
    assert!(matches!(a, Action::Stay));
    assert!(matches!(m.current_state(), State::Idle));
}

#[test]
fn test_injection_failure_recovers() {
    let mut m = Session::new();
    m.step(Event::Signal(InputSignal::Start));
    m.step(Event::Chunk(vec![1; 1600]));
    m.step(Event::Signal(InputSignal::Stop));
    m.finalize(vec![]);
    let a = m.step(Event::TranscriptionOk("some words".to_string()));
    assert!(matches!(a, Action::Inject(_)));
    let a = m.step(Event::InjectionFailed);
    assert!(matches!(a, Action::Stay));
    assert!(matches!(m.current_state(), State::Idle));
    assert!(matches!(
        m.step(Event::Signal(InputSignal::Start)),
        Action::StartCapture
    ));
}

#[test]
fn test_end_to_end_dictation_cycle() {
    // Start edge, 2.0s of synthetic 16kHz mono silence, Stop edge, the
    // transcription stub returns "hello world", the injection stub records
    // the call, and the machine returns to Idle.
    let mut ds = Downsampler::new(16000, 1);
    let mut m = Session::new();
    let mut injected: Vec<String> = Vec::new();

    let a = m.step(Event::Signal(InputSignal::Start));
    assert!(matches!(a, Action::StartCapture));

    // 2.0 seconds of silence in 20 callback-sized feeds.
    for _ in 0..20 {
        let silence: Vec<i16> = vec![0; 1600];
        for chunk in ds.feed(&silence) {
            let a = m.step(Event::Chunk(chunk));
            assert!(matches!(a, Action::Stay));
        }
    }
    assert_eq!(m.buffered_len(), 32000);

    let a = m.step(Event::Signal(InputSignal::Stop));
    assert!(matches!(a, Action::FinishCapture));
    let a = m.finalize(vec![]);
    let buf = match a {
        Action::Transcribe(b) => b,
        other => panic!("expected Transcribe, got {:?}", other),
    };
    assert_eq!(buf.len(), 32000);
    assert!(buf.iter().all(|&s| s == 0));

    // Transcription collaborator stub.
    let a = m.step(Event::TranscriptionOk("hello world".to_string()));
    match a {
        Action::Inject(text) => injected.push(text),
        other => panic!("expected Inject, got {:?}", other),
    }
    // Injection collaborator stub reports success.
    let a = m.step(Event::InjectionOk);
    assert!(matches!(a, Action::Stay));
    assert!(matches!(m.current_state(), State::Idle));

    assert_eq!(injected.len(), 1);
    assert_eq!(injected[0], "hello world");
}

#[test]
fn test_truncate_multibyte() {
    // Truncation counts characters, so multi-byte text never splits.
    assert_eq!(truncate("héllo wörld", 5), "héllo…");
    assert_eq!(truncate("ab", 2), "ab");
    assert_eq!(truncate("", 4), "");
}
