use std::sync::{Arc, Mutex};

use speaches_companion::audio::{PcmSnapshot, StreamingPcmBuffer, STT_SAMPLE_RATE};
use speaches_companion::clock::Duration;
use speaches_companion::daemon::DaemonResponse;
use speaches_companion::environment::Environment;
use speaches_companion::inject::{
    erasing_unsupported, moving_unsupported, FocusedWindow, InjectError, TextInjector,
};
use speaches_companion::openwakeword::{
    infer_keyword_frames, OpenWakewordBackend, OpenWakewordPipelineScorer, WakeScorer,
    WakewordError, OPENWAKEWORD_EMBEDDING_DIM, OPENWAKEWORD_FRAME_SAMPLES, OPENWAKEWORD_MEL_BINS,
    OPENWAKEWORD_WARMUP_WINDOWS,
};
use speaches_companion::single::Single;
use speaches_companion::wakeword::{
    asset_action, default_wakeword_root_with_env, finish_streaming_wake, missing_asset_message,
    poll_interval_nanos, take_fresh_audio, validate_wakeword_name, wake_file_name, wake_recording,
    wakeword_metadata, wakeword_paths, write_wake_transcript, AssetAction, OpenWakewordStockModel,
    SilenceWatch, WakeDetection, WakeDetector, WakewordActivity, WakewordActivityReporter,
    WakewordEngine, WakewordSettings, DEFAULT_WAKEWORD_ACTIVATION_GRACE_MS,
    DEFAULT_WAKEWORD_FRAME_MS, DEFAULT_WAKEWORD_MAX_RECORDING_MS, DEFAULT_WAKEWORD_PRESS_ENTER,
    DEFAULT_WAKEWORD_SILENCE_TIMEOUT_MS, DEFAULT_WAKEWORD_THRESHOLD,
    OPENWAKEWORD_EMBEDDING_FILENAME, OPENWAKEWORD_MELSPECTROGRAM_FILENAME,
};

fn single(value: f32) -> Single {
    Single {
        bits: value.to_bits(),
    }
}

fn float(value: Single) -> f32 {
    f32::from_bits(value.bits)
}

fn settings() -> WakewordSettings {
    WakewordSettings {
        name: "default".to_string(),
        engine: WakewordEngine::Openwakeword,
        stock_model: OpenWakewordStockModel::Alexa,
        assets_dir: None,
        root_dir: "/tmp/wakewords".to_string(),
        threshold: Single {
            bits: DEFAULT_WAKEWORD_THRESHOLD,
        },
        frame: Duration::from_millis(DEFAULT_WAKEWORD_FRAME_MS),
        silence_timeout: Duration::from_millis(DEFAULT_WAKEWORD_SILENCE_TIMEOUT_MS),
        activation_grace: Duration::from_millis(DEFAULT_WAKEWORD_ACTIVATION_GRACE_MS),
        max_recording: Duration::from_millis(DEFAULT_WAKEWORD_MAX_RECORDING_MS),
        press_enter: DEFAULT_WAKEWORD_PRESS_ENTER,
    }
}

#[derive(Debug)]
struct FakeScorer {
    scores: Vec<f32>,
}

impl WakeScorer for FakeScorer {
    fn score(&mut self, _pcm: &[i16]) -> Result<Single, WakewordError> {
        Ok(single(if self.scores.is_empty() {
            0.0
        } else {
            self.scores.remove(0)
        }))
    }
}

#[derive(Debug, Default)]
struct BackendLog {
    melspectrogram_calls: Vec<usize>,
    embedding_calls: usize,
    keyword_calls: usize,
    next_keyword_scores: Vec<f32>,
}

#[derive(Debug, Default)]
struct FakeOpenWakewordBackend {
    keyword_frames: usize,
    log: Arc<Mutex<BackendLog>>,
}

impl FakeOpenWakewordBackend {
    fn new(scores: Vec<f32>) -> Self {
        let backend = Self {
            keyword_frames: 16,
            ..Self::default()
        };
        backend.log.lock().unwrap().next_keyword_scores = scores;
        backend
    }
}

impl OpenWakewordBackend for FakeOpenWakewordBackend {
    fn keyword_frames(&self) -> usize {
        self.keyword_frames
    }

    fn run_melspectrogram(&mut self, samples: &[i16]) -> Result<Vec<Single>, WakewordError> {
        self.log
            .lock()
            .unwrap()
            .melspectrogram_calls
            .push(samples.len());
        let frame_count = samples.len() / 160 - 3;
        Ok(vec![single(0.0); frame_count * OPENWAKEWORD_MEL_BINS])
    }

    fn run_embedding(&mut self, _mel_window: &[Single]) -> Result<Vec<Single>, WakewordError> {
        self.log.lock().unwrap().embedding_calls += 1;
        Ok(vec![single(0.0); OPENWAKEWORD_EMBEDDING_DIM])
    }

    fn run_keyword(&mut self, _feature_window: &[Single]) -> Result<Single, WakewordError> {
        let mut log = self.log.lock().unwrap();
        log.keyword_calls += 1;
        Ok(single(if log.next_keyword_scores.is_empty() {
            0.0
        } else {
            log.next_keyword_scores.remove(0)
        }))
    }
}

#[test]
fn wake_detector_triggers_when_score_crosses_threshold() {
    let scorer = FakeScorer {
        scores: vec![0.1, 0.8],
    };
    let mut detector = WakeDetector::new(scorer, single(0.5), Duration::from_millis(1));

    assert_eq!(detector.observe_pcm(&[0; 32]).unwrap(), None);
    assert_eq!(
        detector.observe_pcm(&[0; 64]).unwrap(),
        Some(WakeDetection { score: single(0.8) })
    );
}

#[derive(Debug, Default)]
struct ListeningScorer {
    frames: Vec<Vec<i16>>,
}

impl WakeScorer for ListeningScorer {
    fn score(&mut self, pcm: &[i16]) -> Result<Single, WakewordError> {
        self.frames.push(pcm.to_vec());
        if pcm.contains(&-1) {
            return Err(WakewordError::NoKeywordFrames);
        }
        Ok(single(if pcm.contains(&77) { 0.9 } else { 0.1 }))
    }
}

#[test]
fn sound_may_be_observed_in_parts() {
    let samples: Vec<i16> = (0..90).collect();
    let pcm: Vec<u8> = samples.iter().flat_map(|s| s.to_le_bytes()).collect();
    let detector = || {
        WakeDetector::new(
            ListeningScorer::default(),
            single(0.5),
            Duration::from_millis(1),
        )
    };
    let mut whole = detector();
    let heard = whole.observe_pcm(&pcm).unwrap();
    assert_eq!(heard, Some(WakeDetection { score: single(0.9) }));
    assert_eq!(whole.scorer_mut().frames.len(), 5);
    for cut in [0, 2, 30, 64, 100] {
        let mut parts = detector();
        assert_eq!(parts.observe_pcm(&pcm[..cut]).unwrap(), None);
        assert_eq!(parts.observe_pcm(&pcm[cut..]).unwrap(), heard);
        assert_eq!(parts.scorer_mut().frames, whole.scorer_mut().frames);
    }
}

#[test]
fn wait_for_wake_ignores_retained_audio_from_before_the_call() {
    let mut pcm = StreamingPcmBuffer::new(STT_SAMPLE_RATE, Duration::from_secs(5));
    pcm.append(&[0; 64]);
    let scorer = FakeScorer { scores: vec![0.9] };
    let mut detector = WakeDetector::new(scorer, single(0.5), Duration::from_millis(1));
    let mut cursor = pcm.snapshot().bytes_seen;

    let fresh = take_fresh_audio(&pcm.snapshot(), &mut cursor);
    assert!(fresh.is_empty());
    assert_eq!(detector.observe_pcm(&fresh).unwrap(), None);

    pcm.append(&[0; 64]);
    let fresh = take_fresh_audio(&pcm.snapshot(), &mut cursor);
    assert_eq!(fresh.len(), 64);
    assert_eq!(
        detector.observe_pcm(&fresh).unwrap(),
        Some(WakeDetection { score: single(0.9) })
    );
}

#[test]
fn wakeword_name_rejects_path_traversal() {
    assert!(validate_wakeword_name("default").is_ok());
    assert!(validate_wakeword_name("hey-samantha_2").is_ok());
    assert!(validate_wakeword_name("../default").is_err());
    assert!(validate_wakeword_name("").is_err());
}

#[test]
fn default_wakeword_root_uses_xdg_data_home() {
    let mut env = Environment::default();
    env.insert("XDG_DATA_HOME".to_string(), "/tmp/data".to_string());

    assert_eq!(
        default_wakeword_root_with_env(&env),
        "/tmp/data/speaches-companion/wakewords"
    );
}

#[test]
fn wakeword_paths_include_shared_openwakeword_assets() {
    let paths = wakeword_paths(&settings()).unwrap();

    assert_eq!(paths.model_path, "/tmp/wakewords/default/model.onnx");
    assert_eq!(
        paths.shared_assets_dir,
        "/tmp/wakewords/_openwakeword/v0.5.1"
    );
    assert_eq!(
        paths.melspectrogram_path,
        "/tmp/wakewords/_openwakeword/v0.5.1/melspectrogram.onnx"
    );
}

#[test]
fn openwakeword_scorer_accumulates_partial_frames() {
    let backend = FakeOpenWakewordBackend::new(vec![]);
    let log = backend.log.clone();
    let mut scorer = OpenWakewordPipelineScorer::with_backend(backend)
        .unwrap()
        .without_warmup();

    assert_eq!(float(scorer.score(&vec![0; 640]).unwrap()), 0.0);
    assert_eq!(log.lock().unwrap().keyword_calls, 0);

    log.lock().unwrap().next_keyword_scores = vec![0.6];
    assert_eq!(float(scorer.score(&vec![0; 640]).unwrap()), 0.6);
    assert_eq!(log.lock().unwrap().keyword_calls, 1);
    assert_eq!(log.lock().unwrap().embedding_calls, 1);
}

#[test]
fn openwakeword_scorer_uses_max_score_for_multi_frame_batches() {
    let backend = FakeOpenWakewordBackend::new(vec![0.2, 0.8]);
    let log = backend.log.clone();
    let mut scorer = OpenWakewordPipelineScorer::with_backend(backend)
        .unwrap()
        .without_warmup();

    assert_eq!(
        float(
            scorer
                .score(&vec![0; OPENWAKEWORD_FRAME_SAMPLES * 2])
                .unwrap()
        ),
        0.8
    );
    assert_eq!(log.lock().unwrap().embedding_calls, 2);
    assert_eq!(log.lock().unwrap().keyword_calls, 2);
}

#[test]
fn openwakeword_scorer_suppresses_warmup_windows() {
    let backend = FakeOpenWakewordBackend::new(vec![0.9; 6]);
    let mut scorer = OpenWakewordPipelineScorer::with_backend(backend).unwrap();

    for _ in 0..OPENWAKEWORD_WARMUP_WINDOWS {
        assert_eq!(
            float(scorer.score(&vec![0; OPENWAKEWORD_FRAME_SAMPLES]).unwrap()),
            0.0
        );
    }
    assert_eq!(
        float(scorer.score(&vec![0; OPENWAKEWORD_FRAME_SAMPLES]).unwrap()),
        0.9
    );
}

#[test]
fn openwakeword_assets_can_be_copied_from_local_dir() {
    assert_eq!(
        asset_action(
            false,
            Some("/tmp/assets"),
            OPENWAKEWORD_MELSPECTROGRAM_FILENAME
        ),
        AssetAction::CopyFrom("/tmp/assets/melspectrogram.onnx".to_string())
    );
    assert_eq!(
        asset_action(
            false,
            Some("/tmp/assets"),
            OpenWakewordStockModel::Alexa.asset_filename()
        ),
        AssetAction::CopyFrom("/tmp/assets/alexa_v0.1.onnx".to_string())
    );
    assert_eq!(
        asset_action(true, Some("/tmp/assets"), OPENWAKEWORD_EMBEDDING_FILENAME),
        AssetAction::Keep
    );
    assert_eq!(
        asset_action(false, None, OPENWAKEWORD_EMBEDDING_FILENAME),
        AssetAction::Download(
            "https://github.com/dscripka/openWakeWord/releases/download/v0.5.1/embedding_model.onnx"
                .to_string()
        )
    );
}

#[test]
fn openwakeword_local_assets_are_required_when_assets_dir_is_configured() {
    let message = missing_asset_message(OPENWAKEWORD_MELSPECTROGRAM_FILENAME, "/tmp/assets");
    assert!(message.contains("assets_dir"));
    assert_eq!(
        message,
        "openWakeWord asset melspectrogram.onnx is missing from configured assets_dir /tmp/assets"
    );
}

#[test]
fn names_keep_to_letters_and_digits() {
    assert_eq!(validate_wakeword_name("a-b_9"), Ok("a-b_9"));
    assert_eq!(validate_wakeword_name(""), Err(WakewordError::EmptyName));
    for name in ["a/b", "a.b", "ä", "a b"] {
        assert_eq!(
            validate_wakeword_name(name),
            Err(WakewordError::InvalidName)
        );
    }
    let mut bad = settings();
    bad.name = "..".to_string();
    assert_eq!(
        wakeword_paths(&bad).err(),
        Some(WakewordError::InvalidName)
    );
}

#[test]
fn wakeword_roots_fall_back_to_the_home() {
    let mut env = Environment::default();
    env.insert("XDG_DATA_HOME".to_string(), String::new());
    env.insert("HOME".to_string(), "/home/example".to_string());
    assert_eq!(
        default_wakeword_root_with_env(&env),
        "/home/example/.local/share/speaches-companion/wakewords"
    );
}

#[test]
fn metadata_names_what_is_shared() {
    let mut settings = settings();
    let paths = wakeword_paths(&settings).unwrap();
    let metadata = wakeword_metadata(&settings, &paths);
    assert_eq!(metadata.name, "default");
    assert_eq!(metadata.frame_ms, 80);
    assert_eq!(metadata.stock_model, Some(OpenWakewordStockModel::Alexa));
    assert_eq!(
        metadata.shared_assets_dir,
        Some("/tmp/wakewords/_openwakeword/v0.5.1".to_string())
    );
    settings.engine = WakewordEngine::Onnx;
    let metadata = wakeword_metadata(&settings, &paths);
    assert_eq!(metadata.stock_model, None);
    assert_eq!(metadata.shared_assets_dir, None);
    assert_eq!(metadata.model_path, "/tmp/wakewords/default/model.onnx");
}

#[test]
fn detectors_hand_out_their_scorer() {
    let scorer = FakeScorer { scores: vec![] };
    let mut detector = WakeDetector::new(scorer, single(0.5), Duration::from_millis(1));
    detector.scorer_mut().scores.push(0.5);
    assert_eq!(
        detector.observe_pcm(&[0; 32]).unwrap(),
        Some(WakeDetection { score: single(0.5) })
    );
}

#[test]
fn keyword_models_take_a_window_of_features() {
    assert_eq!(infer_keyword_frames(&[1, 16, 96]), Ok(16));
    assert_eq!(
        infer_keyword_frames(&[1, 16]).unwrap_err().message(),
        "openWakeWord keyword model input rank must be 3, got shape [1, 16]"
    );
    assert!(infer_keyword_frames(&[2, 16, 96]).is_err());
    assert_eq!(
        infer_keyword_frames(&[1, 16, 95]).unwrap_err().message(),
        "openWakeWord keyword model input must be [1, frames, 96], got [1, 16, 95]"
    );
    let backend = FakeOpenWakewordBackend::default();
    assert_eq!(
        OpenWakewordPipelineScorer::with_backend(backend).err(),
        Some(WakewordError::NoKeywordFrames)
    );
}

#[test]
fn only_sound_that_is_still_there_is_fresh() {
    let mut cursor: usize = 10;
    let snapshot = PcmSnapshot {
        pcm: vec![1, 2, 3, 4],
        bytes_seen: 12,
    };
    assert_eq!(take_fresh_audio(&snapshot, &mut cursor), vec![3, 4]);
    assert_eq!(cursor, 12);
    let snapshot = PcmSnapshot {
        pcm: vec![5, 6],
        bytes_seen: 100,
    };
    assert_eq!(take_fresh_audio(&snapshot, &mut cursor), vec![5, 6]);
    assert_eq!(cursor, 100);
}

#[test]
fn recordings_end_with_silence_or_time() {
    let millis = |n: u128| n * 1_000_000;
    let mut settings = settings();
    settings.silence_timeout = Duration::from_millis(700);
    settings.activation_grace = Duration::from_millis(500);
    settings.max_recording = Duration::from_millis(2_000);
    let speech: Vec<u8> = (0..100).flat_map(|_| 2_000i16.to_le_bytes()).collect();

    let mut watch = SilenceWatch::new(0);
    assert!(!watch.hear(&[], &settings, millis(499)));
    assert!(watch.hear(&[], &settings, millis(500)));
    assert!(wake_recording(&watch, vec![1, 2]).is_empty());

    let mut watch = SilenceWatch::new(0);
    assert!(!watch.hear(&speech, &settings, millis(400)));
    assert!(!watch.hear(&[0; 20], &settings, millis(1_099)));
    assert!(watch.hear(&[0; 20], &settings, millis(1_100)));
    assert_eq!(wake_recording(&watch, vec![1, 2]), vec![1, 2]);

    let mut watch = SilenceWatch::new(0);
    assert!(!watch.hear(&speech, &settings, millis(1_999)));
    assert!(watch.hear(&speech, &settings, millis(2_000)));
    assert_eq!(
        poll_interval_nanos(Duration::from_millis(80)),
        millis(40)
    );
    assert_eq!(poll_interval_nanos(Duration::from_millis(1)), millis(10));
    assert_eq!(
        wake_file_name(1_700_000_000_123),
        "speaches-companion-wakeword-1700000000123.wav"
    );
}

#[derive(Clone, Default)]
struct TypingInjector {
    typed: Arc<Mutex<Vec<String>>>,
    refuses: bool,
}

impl TextInjector for TypingInjector {
    fn inject_text(&mut self, text: &str) -> Result<(), InjectError> {
        self.typed.lock().unwrap().push(text.to_string());
        if self.refuses {
            return Err(InjectError::TargetUnsafe);
        }
        Ok(())
    }

    fn should_show_listening_marker(&mut self) -> Result<bool, InjectError> {
        Ok(true)
    }

    fn press_enter(&mut self) -> Result<(), InjectError> {
        self.type_enter()
    }

    fn erase_chars(&mut self, count: usize) -> Result<(), InjectError> {
        erasing_unsupported(count)
    }

    fn move_cursor_left(&mut self, count: usize) -> Result<(), InjectError> {
        moving_unsupported(count)
    }

    fn move_cursor_right(&mut self, count: usize) -> Result<(), InjectError> {
        moving_unsupported(count)
    }

    fn replace_tail(&mut self, erase_count: usize, text_suffix: &str) -> Result<(), InjectError> {
        self.erase_and_type(erase_count, text_suffix)
    }

    fn focused_window(&mut self) -> Result<Option<FocusedWindow>, InjectError> {
        Ok(None)
    }
}

#[test]
fn wake_transcripts_are_typed_and_entered() {
    let mut injector = TypingInjector::default();
    write_wake_transcript(&mut injector, " hello ", true, true).unwrap();
    write_wake_transcript(&mut injector, " ", true, true).unwrap();
    write_wake_transcript(&mut injector, "bye", false, false).unwrap();
    assert_eq!(*injector.typed.lock().unwrap(), ["hello ", "\n", "bye"]);

    let mut injector = TypingInjector::default();
    finish_streaming_wake(&mut injector, true, true, DaemonResponse::Stopped).unwrap();
    finish_streaming_wake(&mut injector, false, true, DaemonResponse::Stopped).unwrap();
    finish_streaming_wake(&mut injector, true, false, DaemonResponse::Stopped).unwrap();
    finish_streaming_wake(&mut injector, true, true, DaemonResponse::AlreadyIdle).unwrap();
    assert_eq!(*injector.typed.lock().unwrap(), ["\n"]);
}

#[test]
fn enter_is_not_pressed_behind_a_text_that_was_refused() {
    let mut injector = TypingInjector {
        refuses: true,
        ..TypingInjector::default()
    };
    assert!(write_wake_transcript(&mut injector, "hello", false, true).is_err());
    assert_eq!(*injector.typed.lock().unwrap(), ["hello"]);
}

#[test]
fn activity_is_told_where_the_environment_asks_for_it() {
    let mut env = Environment::default();
    let reporter = WakewordActivityReporter::from_env(&env);
    assert_eq!(reporter.state_file, None);
    assert_eq!(reporter.refresh_command, None);
    env.insert(
        "SPEACHES_COMPANION_WAKEWORD_ACTIVITY_STATE_FILE".to_string(),
        "/tmp/state".to_string(),
    );
    env.insert(
        "SPEACHES_COMPANION_WAKEWORD_ACTIVITY_REFRESH_COMMAND".to_string(),
        "  ".to_string(),
    );
    let reporter = WakewordActivityReporter::from_env(&env);
    assert_eq!(reporter.state_file.as_deref(), Some("/tmp/state"));
    assert_eq!(reporter.refresh_command, None);
    assert_eq!(WakewordActivity::Recording.state_line(), "recording\n");
    assert_eq!(WakewordActivity::Waiting.state_line(), "waiting\n");
}

#[test]
fn spectrograms_are_made_of_the_last_samples_only() {
    let backend = FakeOpenWakewordBackend::new(vec![]);
    let log = backend.log.clone();
    let mut scorer = OpenWakewordPipelineScorer::with_backend(backend).unwrap();
    for _ in 0..200 {
        scorer.score(&vec![0; OPENWAKEWORD_FRAME_SAMPLES]).unwrap();
    }
    let log = log.lock().unwrap();
    assert_eq!(log.melspectrogram_calls[0], OPENWAKEWORD_FRAME_SAMPLES);
    assert_eq!(log.melspectrogram_calls.len(), 200);
    assert!(log.melspectrogram_calls[1..]
        .iter()
        .all(|len| *len == OPENWAKEWORD_FRAME_SAMPLES + 480));
    assert_eq!(log.embedding_calls, 200);
    assert_eq!(log.keyword_calls, 200);
}
