use wayvr::wvr::InputFocus;
use wayvr::whisper::{
    clipboard_target, ClipboardTarget,
    ms_to_samples, normalize_transcript, PttState, Recognizer, WhisperSttConfig, WhisperSttError,
    MAX_DURATION_MS, UNLOAD_AFTER_MS,
};

#[test]
fn ms_to_samples_formula() {
    assert_eq!(ms_to_samples(0), 0);
    assert_eq!(ms_to_samples(250), 4000);
    assert_eq!(ms_to_samples(700), 11200);
    assert_eq!(ms_to_samples(1), 16);
}

#[test]
fn normalize_collapses_whitespace() {
    assert_eq!(normalize_transcript("  hello   world \n".to_string()), "hello world");
    assert_eq!(normalize_transcript("\t a\u{3000}b  c".to_string()), "a b c");
    assert_eq!(normalize_transcript("   ".to_string()), "");
    assert_eq!(normalize_transcript(String::new()), "");
    assert_eq!(normalize_transcript("one".to_string()), "one");
}

#[test]
fn normalize_is_idempotent_on_examples() {
    for s in ["  a  b ", "x", " \n ", "already clean"] {
        let once = normalize_transcript(s.to_string());
        assert_eq!(normalize_transcript(once.clone()), once);
    }
}

#[test]
fn config_defaults() {
    let c = WhisperSttConfig::new("/models/base.bin".to_string(), Some(16));
    assert_eq!(c.model_path, "/models/base.bin");
    assert_eq!(c.n_threads, 4);
    assert_eq!(c.partial_decode_interval_ms, 700);
    assert_eq!(c.min_audio_ms, 250);
    assert!(c.use_gpu);
    assert_eq!(c.gpu_device, 0);
    assert!(!c.flash_attn);
    assert!(c.language.is_none());
    assert_eq!(WhisperSttConfig::new(String::new(), Some(2)).n_threads, 2);
    assert_eq!(WhisperSttConfig::new(String::new(), None).n_threads, 4);
}

#[test]
fn error_messages() {
    assert_eq!(WhisperSttError::ModelLoad("bad".into()).message(), "failed to load whisper model: bad");
    assert_eq!(WhisperSttError::Whisper("x".into()).message(), "whisper error: x");
    assert_eq!(WhisperSttError::Rodio("mic".into()).message(), "rodio error: mic");
    assert_eq!(WhisperSttError::CaptureInit("e".into()).message(), "failed to initialize capture: e");
    assert_eq!(WhisperSttError::ThreadSpawn("t".into()).message(), "failed to spawn thread: t");
    assert_eq!(WhisperSttError::CaptureThreadPanicked.message(), "capture thread panicked");
    assert_eq!(WhisperSttError::AlreadyRecording.message(), "PTT is already active");
    assert_eq!(WhisperSttError::NotRecording.message(), "PTT is not active");
}

#[test]
fn recognizer_decides_partial_decodes() {
    let c = WhisperSttConfig::new(String::new(), None);
    let mut r = Recognizer::new(&c);
    assert_eq!(r.stride, 11200);
    assert_eq!(r.min_samples, 4000);
    assert!(!r.on_chunk(0));
    assert!(!r.on_chunk(3000));
    assert!(!r.worth_decoding());
    assert!(!r.on_chunk(5000));
    assert!(r.on_chunk(4000));
    r.partial_decoded("partial".to_string());
    assert_eq!(r.last_decoded_len, 12000);
    assert!(!r.on_chunk(11199));
    assert!(r.on_chunk(1));
    assert!(r.worth_decoding());
}

#[test]
fn recognizer_stride_has_a_floor() {
    let mut c = WhisperSttConfig::new(String::new(), None);
    c.partial_decode_interval_ms = 10;
    let r = Recognizer::new(&c);
    assert_eq!(r.stride, 4000);
}

#[test]
fn final_report_prefers_a_partial_on_failure() {
    let c = WhisperSttConfig::new(String::new(), None);
    let mut r = Recognizer::new(&c);
    r.partial_decoded("so far".to_string());
    let out = r.finish(Err("boom".to_string()));
    assert_eq!(out, vec![Ok("so far".to_string()), Err("boom".to_string())]);

    let mut blank = Recognizer::new(&c);
    blank.partial_decoded("   ".to_string());
    assert_eq!(blank.finish(Err("boom".to_string())), vec![Err("boom".to_string())]);

    let ok = Recognizer::new(&c);
    assert_eq!(ok.finish(Ok("done".to_string())), vec![Ok("done".to_string())]);
}

#[test]
fn ptt_start_and_end_alternate() {
    let mut p = PttState::new(0);
    assert_eq!(p.unload_at_ms, UNLOAD_AFTER_MS);
    assert!(p.ptt_start(10).is_ok());
    p.capture_started(10);
    assert_eq!(p.deadline_ms, 10 + MAX_DURATION_MS);
    assert!(matches!(p.ptt_start(20), Err(WhisperSttError::AlreadyRecording)));
    assert!(p.ptt_end(30).is_ok());
    assert!(matches!(p.ptt_end(40), Err(WhisperSttError::NotRecording)));
    assert_eq!(p.unload_at_ms, 40 + UNLOAD_AFTER_MS);
    assert!(!p.should_unload(40 + UNLOAD_AFTER_MS));
    assert!(p.should_unload(41 + UNLOAD_AFTER_MS));
}

#[test]
fn take_transcription_keeps_newest_text_and_error() {
    let mut p = PttState::new(0);
    let out = p.take_transcription(
        vec![Ok(" first ".to_string()), Err("e1".to_string()), Ok("  second  take ".to_string()), Ok("   ".to_string()), Err("e2".to_string())],
        100,
    );
    assert_eq!(out.text.as_deref(), Some("second take"));
    assert!(!out.stop_capture);
    assert_eq!(p.last_error.as_deref(), Some("e2"));
    assert_eq!(p.unload_at_ms, 100 + UNLOAD_AFTER_MS);
}

#[test]
fn take_transcription_stops_an_overlong_recording() {
    let mut p = PttState::new(0);
    p.ptt_start(0).unwrap();
    p.capture_started(0);
    let early = p.take_transcription(Vec::new(), MAX_DURATION_MS - 1);
    assert!(early.text.is_none());
    assert!(!early.stop_capture);
    assert!(p.recording);
    let late = p.take_transcription(vec![Ok("  ".to_string())], MAX_DURATION_MS);
    assert!(late.text.is_none());
    assert!(late.stop_capture);
    assert!(!p.recording);
    p.record_error(WhisperSttError::CaptureThreadPanicked.message());
    assert_eq!(p.last_error.as_deref(), Some("capture thread panicked"));
}

#[test]
fn paste_goes_where_the_input_goes() {
    assert_eq!(clipboard_target(false, InputFocus::WayVR, true, true), ClipboardTarget::Nowhere);
    assert_eq!(clipboard_target(true, InputFocus::WayVR, true, false), ClipboardTarget::Server);
    assert_eq!(clipboard_target(true, InputFocus::WayVR, false, true), ClipboardTarget::Nowhere);
    assert_eq!(clipboard_target(true, InputFocus::PhysicalScreen, false, true), ClipboardTarget::Desktop);
    assert_eq!(clipboard_target(true, InputFocus::PhysicalScreen, true, false), ClipboardTarget::Nowhere);
}
