use std::sync::{Arc, Mutex};

use speaches_companion::daemon::{DaemonResponse, HotkeyHandler};
use speaches_companion::dictation::{DictationController, Recorder, Transcriber};
use speaches_companion::inject::{
    erasing_unsupported, format_transcript_for_injection, moving_unsupported,
    normalize_transcript_for_injection, FocusedWindow, InjectError, TextInjector,
};
use speaches_companion::ipc::IpcCommand;
use speaches_companion::notification::{ErrorNotifier, DICTATION_ERROR_SUMMARY};

#[test]
fn hotkey_up_records_transcribes_and_injects_text() {
    let recorder = FakeRecorder::new("/tmp/speaches-companion-test.wav".to_string());
    let transcriber = FakeTranscriber::new("  hello window\n");
    let injector = FakeInjector::default();
    let injected = injector.injected.clone();
    let transcribed_paths = transcriber.paths.clone();
    let starts = recorder.starts.clone();
    let stops = recorder.stops.clone();
    let mut controller = DictationController::new(recorder, transcriber, injector);

    assert_eq!(
        controller
            .handle_hotkey(IpcCommand::HotkeyDown)
            .unwrap(),
        DaemonResponse::Started
    );
    assert!(controller.is_recording());
    assert_eq!(
        controller
            .handle_hotkey(IpcCommand::HotkeyUp)
            .unwrap(),
        DaemonResponse::Stopped
    );

    assert!(!controller.is_recording());
    assert_eq!(*starts.lock().unwrap(), 1);
    assert_eq!(*stops.lock().unwrap(), 1);
    assert_eq!(
        *transcribed_paths.lock().unwrap(),
        vec!["/tmp/speaches-companion-test.wav".to_string()]
    );
    assert_eq!(*injected.lock().unwrap(), vec!["hello window ".to_string()]);
}

#[test]
fn trailing_space_can_be_disabled() {
    let recorder = FakeRecorder::new("/tmp/speaches-companion-test.wav".to_string());
    let injector = FakeInjector::default();
    let injected = injector.injected.clone();
    let mut controller =
        DictationController::new(recorder, FakeTranscriber::new("  hello window\n"), injector)
            .with_append_space(false);

    controller
        .handle_hotkey(IpcCommand::HotkeyDown)
        .unwrap();
    controller
        .handle_hotkey(IpcCommand::HotkeyUp)
        .unwrap();

    assert_eq!(*injected.lock().unwrap(), vec!["hello window".to_string()]);
}

#[test]
fn repeated_down_does_not_start_second_recording() {
    let recorder = FakeRecorder::new("/tmp/speaches-companion-test.wav".to_string());
    let starts = recorder.starts.clone();
    let mut controller = DictationController::new(
        recorder,
        FakeTranscriber::new("hello"),
        FakeInjector::default(),
    );

    assert_eq!(
        controller
            .handle_hotkey(IpcCommand::HotkeyDown)
            .unwrap(),
        DaemonResponse::Started
    );
    assert_eq!(
        controller
            .handle_hotkey(IpcCommand::HotkeyDown)
            .unwrap(),
        DaemonResponse::AlreadyRecording
    );

    assert_eq!(*starts.lock().unwrap(), 1);
}

#[test]
fn up_while_idle_is_a_noop() {
    let recorder = FakeRecorder::new("/tmp/speaches-companion-test.wav".to_string());
    let stops = recorder.stops.clone();
    let injector = FakeInjector::default();
    let injected = injector.injected.clone();
    let mut controller =
        DictationController::new(recorder, FakeTranscriber::new("hello"), injector);

    assert_eq!(
        controller
            .handle_hotkey(IpcCommand::HotkeyUp)
            .unwrap(),
        DaemonResponse::AlreadyIdle
    );

    assert_eq!(*stops.lock().unwrap(), 0);
    assert!(injected.lock().unwrap().is_empty());
}

#[test]
fn empty_transcript_does_not_inject_text() {
    let recorder = FakeRecorder::new("/tmp/speaches-companion-test.wav".to_string());
    let injector = FakeInjector::default();
    let injected = injector.injected.clone();
    let mut controller =
        DictationController::new(recorder, FakeTranscriber::new(" \n\t "), injector);

    assert_eq!(
        controller
            .handle_hotkey(IpcCommand::HotkeyDown)
            .unwrap(),
        DaemonResponse::Started
    );
    assert_eq!(
        controller
            .handle_hotkey(IpcCommand::HotkeyUp)
            .unwrap(),
        DaemonResponse::Stopped
    );

    assert!(injected.lock().unwrap().is_empty());
}

#[test]
fn transcription_error_notifies_and_does_not_inject_text() {
    let recorder = FakeRecorder::new("/tmp/speaches-companion-test.wav".to_string());
    let transcriber = FakeTranscriber::failing("connection refused");
    let injector = FakeInjector::default();
    let injected = injector.injected.clone();
    let notifier = FakeNotifier::default();
    let notifications = notifier.notifications.clone();
    let mut controller =
        DictationController::new_with_notifier(recorder, transcriber, injector, notifier);

    assert_eq!(
        controller
            .handle_hotkey(IpcCommand::HotkeyDown)
            .unwrap(),
        DaemonResponse::Started
    );
    let error = controller
        .handle_hotkey(IpcCommand::HotkeyUp)
        .unwrap_err();

    assert!(!controller.is_recording());
    assert!(error.message().contains("connection refused"));
    assert!(injected.lock().unwrap().is_empty());
    assert_eq!(
        *notifications.lock().unwrap(),
        vec![(
            DICTATION_ERROR_SUMMARY.to_string(),
            "Transcription failed: connection refused".to_string()
        )]
    );
}

#[test]
fn transcript_normalization_trims_outer_whitespace_only() {
    assert_eq!(
        normalize_transcript_for_injection("  hello world\n"),
        Some("hello world".to_string())
    );
    assert_eq!(normalize_transcript_for_injection("\n\t"), None);
}

#[test]
fn transcript_formatting_appends_optional_space_after_normalized_text() {
    assert_eq!(
        format_transcript_for_injection("  hello world\n", true),
        Some("hello world ".to_string())
    );
    assert_eq!(
        format_transcript_for_injection("  hello world\n", false),
        Some("hello world".to_string())
    );
    assert_eq!(format_transcript_for_injection("\n\t", true), None);
}

#[derive(Clone)]
struct FakeRecording;

#[derive(Clone)]
struct FakeRecorder {
    path: String,
    starts: Arc<Mutex<usize>>,
    stops: Arc<Mutex<usize>>,
}

impl FakeRecorder {
    fn new(path: String) -> Self {
        Self {
            path,
            starts: Arc::new(Mutex::new(0)),
            stops: Arc::new(Mutex::new(0)),
        }
    }
}

impl Recorder for FakeRecorder {
    type Recording = FakeRecording;

    fn start(&mut self) -> Result<Self::Recording, String> {
        *self.starts.lock().unwrap() += 1;
        Ok(FakeRecording)
    }

    fn stop(&mut self, _recording: Self::Recording) -> Result<String, String> {
        *self.stops.lock().unwrap() += 1;
        Ok(self.path.clone())
    }
}

#[derive(Clone)]
struct FakeTranscriber {
    result: Result<String, String>,
    paths: Arc<Mutex<Vec<String>>>,
}

impl FakeTranscriber {
    fn new(text: &str) -> Self {
        Self {
            result: Ok(text.to_string()),
            paths: Arc::new(Mutex::new(Vec::new())),
        }
    }

    fn failing(message: &str) -> Self {
        Self {
            result: Err(message.to_string()),
            paths: Arc::new(Mutex::new(Vec::new())),
        }
    }
}

impl Transcriber for FakeTranscriber {
    fn transcribe(&mut self, audio_path: &str) -> Result<String, String> {
        self.paths.lock().unwrap().push(audio_path.to_string());
        self.result.clone()
    }
}

#[derive(Clone, Default)]
struct FakeInjector {
    injected: Arc<Mutex<Vec<String>>>,
}

impl TextInjector for FakeInjector {
    fn inject_text(&mut self, text: &str) -> Result<(), InjectError> {
        self.injected.lock().unwrap().push(text.to_string());
        Ok(())
    }

    fn should_show_listening_marker(&mut self) -> Result<bool, InjectError> {
        Ok(true)
    }

    fn press_enter(&mut self) -> Result<(), InjectError> {
        self.type_enter()
    }

    fn erase_chars(&mut self, count: usize) -> Result<(), InjectError> {
        erasing_unsupported(count)
    }

    fn move_cursor_left(&mut self, count: usize) -> Result<(), InjectError> {
        moving_unsupported(count)
    }

    fn move_cursor_right(&mut self, count: usize) -> Result<(), InjectError> {
        moving_unsupported(count)
    }

    fn replace_tail(&mut self, erase_count: usize, text_suffix: &str) -> Result<(), InjectError> {
        self.erase_and_type(erase_count, text_suffix)
    }

    fn focused_window(&mut self) -> Result<Option<FocusedWindow>, InjectError> {
        Ok(None)
    }
}

#[derive(Clone, Default)]
struct FakeNotifier {
    notifications: Arc<Mutex<Vec<(String, String)>>>,
}

impl ErrorNotifier for FakeNotifier {
    fn notify_error(&mut self, summary: &str, body: &str) -> Result<(), String> {
        self.notifications
            .lock()
            .unwrap()
            .push((summary.to_string(), body.to_string()));
        Ok(())
    }
}
