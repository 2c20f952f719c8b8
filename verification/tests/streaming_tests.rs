use std::sync::{Arc, Mutex};

use speaches_companion::clock::Duration;
use speaches_companion::daemon::DaemonResponse;
use speaches_companion::dictation::DictationError;
use speaches_companion::inject::{
    erasing_unsupported, moving_unsupported, FocusedWindow, InjectError, TextInjector,
};
use speaches_companion::notification::{
    ErrorNotifier, TranscriptNotifier, DICTATION_ERROR_SUMMARY,
};
use speaches_companion::partial::{PartialChunkingConfig, PartialDisplayState};
use speaches_companion::config::{
    resolve_config, ConfigInput, DictationFileConfig, FileConfig,
};
use speaches_companion::settings::{
    build_wakeword_streaming_config, daemon_controller, resolve_daemon_settings,
    wakeword_controller, DaemonArgs,
};
use speaches_companion::streaming::{LiveTranscriptUpdate, StreamingDictationController};

type Controller =
    StreamingDictationController<FakeSession, FakeInjector, FakeTranscriptNotifier, FakeErrorNotifier>;

#[derive(Clone)]
struct FakeSession;

/// A transcriber and a clock around a controller.
struct Dictation {
    controller: Controller,
    injector: FakeInjector,
    transcript_notifier: FakeTranscriptNotifier,
    error_notifier: FakeErrorNotifier,
    arriving: Vec<String>,
    final_result: Result<String, String>,
    now: u128,
    starts: usize,
    stops: usize,
}

impl Dictation {
    fn new(arriving: &[&str], final_result: Result<&str, &str>) -> Self {
        let injector = FakeInjector::default();
        let transcript_notifier = FakeTranscriptNotifier::default();
        let error_notifier = FakeErrorNotifier::default();
        Self {
            controller: StreamingDictationController::new_with_notifiers(
                injector.clone(),
                transcript_notifier.clone(),
                error_notifier.clone(),
            ),
            injector,
            transcript_notifier,
            error_notifier,
            arriving: arriving.iter().map(|text| text.to_string()).collect(),
            final_result: final_result
                .map(str::to_string)
                .map_err(str::to_string),
            now: 1_000_000_000,
            starts: 0,
            stops: 0,
        }
    }

    fn with(mut self, change: impl FnOnce(Controller) -> Controller) -> Self {
        self.controller = change(self.controller);
        self
    }

    fn with_marker(self) -> Self {
        self.with(|controller| controller.with_listening_marker(Some("💬".to_string())))
    }

    fn without_chunking(self) -> Self {
        self.with(|controller| controller.with_partial_chunking_config(no_chunking()))
    }

    fn down(&mut self) -> Result<DaemonResponse, DictationError> {
        if let Some(response) = self.controller.hotkey_down() {
            return Ok(response);
        }
        self.starts += 1;
        self.controller
            .transcriber_started(FakeSession)
            .map_err(|(_session, error)| error)
    }

    fn update(&mut self, transcript: &str) {
        let update = LiveTranscriptUpdate {
            transcript: transcript.to_string(),
        };
        self.controller.live_update(&update, self.now);
    }

    fn advance(&mut self, millis: u128) {
        self.now += millis * 1_000_000;
        if let Some(deadline) = self.controller.next_flush_deadline() {
            if deadline <= self.now {
                self.controller.flush_due(self.now);
            }
        }
    }

    fn begin_up(&mut self) -> bool {
        let arrived = std::mem::take(&mut self.arriving);
        match self.controller.begin_stop(&arrived, self.now) {
            Some(_session) => {
                self.stops += 1;
                true
            }
            None => false,
        }
    }

    fn up(&mut self) -> Result<DaemonResponse, DictationError> {
        if self.begin_up() {
            self.controller
                .finish_stop(self.final_result.clone(), self.now)
        } else {
            Ok(DaemonResponse::AlreadyIdle)
        }
    }

    fn operations(&self) -> Vec<InjectOperation> {
        self.injector.operations.lock().unwrap().clone()
    }

    fn notices(&self) -> Vec<TranscriptNotice> {
        self.transcript_notifier.events.lock().unwrap().clone()
    }

    fn errors(&self) -> Vec<(String, String)> {
        self.error_notifier.errors.lock().unwrap().clone()
    }
}

fn typed(text: &str) -> InjectOperation {
    InjectOperation::Type(text.to_string())
}

fn no_chunking() -> PartialChunkingConfig {
    PartialChunkingConfig {
        enabled: false,
        ..PartialChunkingConfig::default()
    }
}

#[test]
fn streaming_hotkey_replaces_partial_text_with_final_text() {
    let mut dictation = Dictation::new(&["hel", "hello win"], Ok("  hello window\n"));

    assert_eq!(dictation.down().unwrap(), DaemonResponse::Started);
    assert!(dictation.controller.is_recording());
    assert_eq!(dictation.up().unwrap(), DaemonResponse::Stopped);

    assert!(!dictation.controller.is_recording());
    assert_eq!(dictation.starts, 1);
    assert_eq!(dictation.stops, 1);
    assert_eq!(
        dictation.operations(),
        vec![typed("hello win"), typed("dow ")]
    );
    assert_eq!(
        dictation.notices(),
        vec![
            TranscriptNotice::Listening,
            TranscriptNotice::Partial("hello win".to_string()),
            TranscriptNotice::Final("hello window".to_string()),
        ]
    );
}

#[test]
fn streaming_injects_live_partial_before_hotkey_up() {
    let mut dictation = Dictation::new(&[], Ok("hello window")).without_chunking();

    dictation.down().unwrap();
    dictation.update("hel");

    assert_eq!(dictation.operations(), vec![typed("hel")]);
}

#[test]
fn streaming_empty_live_update_keeps_existing_provisional_text() {
    let mut dictation = Dictation::new(&[], Ok("")).without_chunking();

    dictation.down().unwrap();
    dictation.update("hello");
    dictation.update("");

    assert_eq!(dictation.operations(), vec![typed("hello")]);
}

#[test]
fn streaming_empty_live_update_does_not_erase_marker_or_text() {
    let mut dictation = Dictation::new(&[], Ok("hello window"))
        .without_chunking()
        .with_marker();

    dictation.down().unwrap();
    dictation.update("the front");
    assert_eq!(dictation.operations().len(), 3);
    dictation.update("");
    dictation.update("the front fell");

    assert_eq!(
        dictation.operations(),
        vec![
            typed("💬"),
            InjectOperation::CursorLeft(1),
            typed("the front"),
            typed(" fell"),
        ]
    );
}

#[test]
fn streaming_marker_tracks_live_partial_before_hotkey_up() {
    let mut dictation = Dictation::new(&[], Ok("hello window"))
        .without_chunking()
        .with_marker();

    dictation.down().unwrap();
    assert_eq!(
        dictation.operations(),
        vec![typed("💬"), InjectOperation::CursorLeft(1)]
    );

    dictation.update("hello");

    assert_eq!(
        dictation.operations(),
        vec![typed("💬"), InjectOperation::CursorLeft(1), typed("hello")]
    );
}

#[test]
fn streaming_marker_is_removed_before_partial_and_final_text_commit() {
    let mut dictation = Dictation::new(&[], Ok("  hello window\n"))
        .without_chunking()
        .with_marker();

    dictation.down().unwrap();
    dictation.update("hello");
    dictation.up().unwrap();

    assert_eq!(
        dictation.operations(),
        vec![
            typed("💬"),
            InjectOperation::CursorLeft(1),
            typed("hello"),
            InjectOperation::CursorRight(1),
            InjectOperation::Backspace(1),
            typed(" window "),
        ]
    );
}

#[test]
fn streaming_shows_wait_marker_while_final_transcript_is_pending() {
    let mut dictation = Dictation::new(&[], Ok("hello window")).with_marker();

    dictation.down().unwrap();
    dictation.update("hello");
    assert!(dictation.begin_up());
    assert!(!dictation.controller.is_recording());

    assert_eq!(
        dictation.operations(),
        vec![typed("💬"), InjectOperation::CursorLeft(1), typed("hello")]
    );

    let response = dictation
        .controller
        .finish_stop(dictation.final_result.clone(), dictation.now)
        .unwrap();

    assert_eq!(response, DaemonResponse::Stopped);
    assert_eq!(
        dictation.operations(),
        vec![
            typed("💬"),
            InjectOperation::CursorLeft(1),
            typed("hello"),
            InjectOperation::CursorRight(1),
            InjectOperation::Backspace(1),
            typed(" window "),
        ]
    );
}

#[test]
fn streaming_marker_is_erased_when_no_transcript_arrives() {
    let mut dictation = Dictation::new(&[], Ok(" \n")).with_marker();

    dictation.down().unwrap();
    dictation.up().unwrap();

    assert_eq!(
        dictation.operations(),
        vec![
            typed("💬"),
            InjectOperation::CursorLeft(1),
            InjectOperation::CursorRight(1),
            InjectOperation::Backspace(1),
        ]
    );
}

#[test]
fn streaming_uses_last_partial_when_final_is_empty() {
    let mut dictation = Dictation::new(&["fallback text"], Ok(" \n"));

    dictation.down().unwrap();
    dictation.up().unwrap();

    assert_eq!(
        dictation.operations(),
        vec![typed("fallback text"), typed(" ")]
    );
}

#[test]
fn streaming_can_skip_final_pass_and_keep_last_partial() {
    let mut dictation = Dictation::new(&["hello"], Ok("hello window"))
        .with_marker()
        .with(|controller| controller.with_final_transcript(false));

    dictation.down().unwrap();
    dictation.up().unwrap();

    assert_eq!(dictation.stops, 1);
    assert_eq!(
        dictation.operations(),
        vec![
            typed("💬"),
            InjectOperation::CursorLeft(1),
            typed("hello"),
            InjectOperation::CursorRight(1),
            InjectOperation::Backspace(1),
            typed(" "),
        ]
    );
    assert_eq!(
        dictation.notices(),
        vec![
            TranscriptNotice::Listening,
            TranscriptNotice::Partial("hello".to_string()),
        ]
    );
}

#[test]
fn streaming_can_defer_partial_injection_until_stop() {
    let mut dictation = Dictation::new(&[], Ok(" \n"))
        .with(|controller| controller.with_inline_partials(false));

    dictation.down().unwrap();
    dictation.update("fallback text");
    dictation.update("fallback text");
    dictation.update("fallback text");
    assert!(dictation.operations().is_empty());

    dictation.up().unwrap();

    assert_eq!(
        dictation.operations(),
        vec![typed("fallback text"), typed(" ")]
    );
}

#[test]
fn streaming_stop_error_keeps_speculative_partial_and_notifies() {
    let mut dictation = Dictation::new(&[], Err("connection refused")).without_chunking();

    dictation.down().unwrap();
    dictation.update("partial");
    let error = dictation.up().unwrap_err();

    assert!(!dictation.controller.is_recording());
    assert!(error.message().contains("connection refused"));
    assert_eq!(dictation.operations(), vec![typed("partial"), typed(" ")]);
    assert_eq!(
        dictation.errors(),
        vec![(
            DICTATION_ERROR_SUMMARY.to_string(),
            "Streaming transcription failed: connection refused".to_string()
        )]
    );
}

#[test]
fn streaming_stop_error_cleans_up_marker_when_no_partial_exists() {
    let mut dictation = Dictation::new(&[], Err("connection refused")).with_marker();

    dictation.down().unwrap();
    let error = dictation.up().unwrap_err();

    assert!(error.message().contains("connection refused"));
    assert_eq!(
        dictation.operations(),
        vec![
            typed("💬"),
            InjectOperation::CursorLeft(1),
            InjectOperation::CursorRight(1),
            InjectOperation::Backspace(1),
        ]
    );
}

#[test]
fn streaming_aborts_final_replacement_when_focus_changes() {
    let mut dictation = Dictation::new(&[], Ok("hello"));

    dictation.down().unwrap();
    *dictation.injector.current_window.lock().unwrap() = Some(FocusedWindow(2));
    let error = dictation.up().unwrap_err();

    assert!(error.message().contains("focused desktop target changed"));
    assert!(dictation.operations().is_empty());
    assert_eq!(
        dictation.errors(),
        vec![(
            DICTATION_ERROR_SUMMARY.to_string(),
            "Final text replacement failed: focused desktop target changed from 1 to 2; aborting replacement".to_string()
        )]
    );
}

#[test]
fn duplicate_streaming_partials_are_ignored() {
    let mut dictation = Dictation::new(&["hello", "hello", "hello"], Ok("hello"));

    dictation.down().unwrap();
    dictation.up().unwrap();

    assert_eq!(dictation.operations(), vec![typed("hello"), typed(" ")]);
    assert_eq!(
        dictation.notices(),
        vec![
            TranscriptNotice::Listening,
            TranscriptNotice::Partial("hello".to_string()),
            TranscriptNotice::Final("hello".to_string()),
        ]
    );
}

#[test]
fn streaming_trailing_space_can_be_disabled() {
    let mut dictation = Dictation::new(&["hel", "hello win"], Ok("hello window"))
        .without_chunking()
        .with(|controller| controller.with_append_space(false));

    dictation.down().unwrap();
    for transcript in std::mem::take(&mut dictation.arriving) {
        dictation.update(&transcript);
    }
    dictation.up().unwrap();

    assert_eq!(
        dictation.operations(),
        vec![typed("hel"), typed("lo win"), typed("dow")]
    );
}

#[test]
fn streaming_no_partial_chunking_preserves_immediate_injection() {
    let mut dictation = Dictation::new(&[], Ok("hello window")).without_chunking();

    dictation.down().unwrap();
    dictation.update("hel");

    assert_eq!(dictation.operations(), vec![typed("hel")]);
}

#[test]
fn streaming_partial_chunking_coalesces_character_updates() {
    let mut dictation = Dictation::new(&[], Ok(" \n"));

    dictation.down().unwrap();
    dictation.update("h");
    dictation.advance(40);
    dictation.update("he");
    dictation.advance(40);
    dictation.update("hel");
    dictation.advance(79);

    assert!(dictation.operations().is_empty());

    dictation.advance(1);

    assert_eq!(dictation.operations(), vec![typed("hel")]);
}

#[test]
fn streaming_partial_chunking_flushes_immediately_at_word_boundary() {
    let mut dictation = Dictation::new(&[], Ok("hello window"));

    dictation.down().unwrap();
    dictation.update("hello ");

    assert_eq!(dictation.operations(), vec![typed("hello")]);
}

#[test]
fn streaming_partial_chunking_forces_max_delay_flush() {
    let mut dictation = Dictation::new(&[], Ok(" \n"));

    dictation.down().unwrap();
    dictation.update("h");
    dictation.advance(70);
    dictation.update("he");
    dictation.advance(70);
    dictation.update("hel");
    dictation.advance(70);
    dictation.update("hell");
    dictation.advance(39);

    assert!(dictation.operations().is_empty());

    dictation.advance(1);

    assert_eq!(dictation.operations(), vec![typed("hell")]);
}

#[test]
fn repeated_streaming_down_does_not_start_second_session() {
    let mut dictation = Dictation::new(&[], Ok("hello"));

    assert_eq!(dictation.down().unwrap(), DaemonResponse::Started);
    assert_eq!(dictation.down().unwrap(), DaemonResponse::AlreadyRecording);

    assert_eq!(dictation.starts, 1);
}

#[test]
fn streaming_starts_audio_capture_before_target_snapshot() {
    let events = Arc::new(Mutex::new(Vec::new()));
    let mut controller = StreamingDictationController::new(OrderingInjector {
        events: events.clone(),
    });

    assert_eq!(controller.hotkey_down(), None);
    assert!(events.lock().unwrap().is_empty());
    events.lock().unwrap().push("start");
    assert!(controller.transcriber_started(FakeSession).is_ok());

    assert_eq!(*events.lock().unwrap(), vec!["start", "focus"]);
}

#[test]
fn daemon_controllers_follow_the_settings() {
    let args = DaemonArgs {
        listening_marker: Some("..".to_string()),
        no_append_space: true,
        ..DaemonArgs::default()
    };
    let settings = resolve_daemon_settings(&args, &FileConfig::default());
    let mut dictation = Dictation::new(&[], Ok("hello"));
    dictation.controller = daemon_controller(
        &settings,
        dictation.injector.clone(),
        dictation.transcript_notifier.clone(),
        dictation.error_notifier.clone(),
    );
    dictation.down().unwrap();
    dictation.up().unwrap();
    assert_eq!(
        dictation.operations(),
        vec![
            typed(".."),
            InjectOperation::CursorLeft(2),
            InjectOperation::CursorRight(2),
            InjectOperation::Backspace(2),
            typed("hello"),
        ]
    );
}

#[test]
fn wakeword_controllers_follow_the_file() {
    let file = FileConfig {
        dictation: DictationFileConfig {
            realtime_partials: Some(true),
            listening_marker: Some(" ".to_string()),
            final_pass: Some(false),
            ..DictationFileConfig::default()
        },
        ..FileConfig::default()
    };
    let config = resolve_config(ConfigInput::default(), 0);
    let streaming = build_wakeword_streaming_config(&config, &file).unwrap();
    let injector = FakeInjector::default();
    let operations = injector.operations.clone();
    let mut controller = wakeword_controller(&streaming, true, injector);
    assert!(controller.transcriber_started(FakeSession).is_ok());
    assert!(controller.begin_stop(&vec!["live".to_string()], 5).is_some());
    assert!(controller.finish_stop(Ok("final".to_string()), 6).is_ok());
    assert_eq!(*operations.lock().unwrap(), vec![typed("live"), typed(" ")]);
}

#[test]
fn idle_controllers_have_nothing_to_stop() {
    let mut dictation = Dictation::new(&["late"], Ok("hello"));
    assert_eq!(dictation.up().unwrap(), DaemonResponse::AlreadyIdle);
    assert!(dictation.operations().is_empty());
    assert!(dictation.controller.next_flush_deadline().is_none());
}

#[test]
fn a_transcriber_that_does_not_start_is_told_of() {
    let mut dictation = Dictation::new(&[], Ok(""));
    dictation.controller.start_failed("no microphone");
    assert_eq!(
        dictation.errors(),
        vec![(
            DICTATION_ERROR_SUMMARY.to_string(),
            "Streaming start failed: no microphone".to_string()
        )]
    );
}

#[test]
fn dictation_does_not_begin_without_a_target() {
    let mut dictation = Dictation::new(&[], Ok("hello")).with_marker();
    *dictation.injector.hides_focus.lock().unwrap() = true;

    assert!(dictation.down().is_err());

    assert!(!dictation.controller.is_recording());
    assert!(dictation.operations().is_empty());
    assert!(dictation.notices().is_empty());
    assert_eq!(dictation.errors().len(), 1);
    assert!(dictation.errors()[0]
        .1
        .starts_with("Dictation target capture failed: "));
    assert_eq!(dictation.up().unwrap(), DaemonResponse::AlreadyIdle);

    *dictation.injector.hides_focus.lock().unwrap() = false;
    assert_eq!(dictation.down().unwrap(), DaemonResponse::Started);
}

#[test]
fn failed_updates_end_the_dictation() {
    let mut dictation = Dictation::new(&["hello"], Ok("hello"));
    dictation.down().unwrap();
    assert!(dictation.controller.takes_final_transcript());
    assert!(dictation.begin_up());
    assert_eq!(dictation.controller.latest_partial(), Some("hello"));

    dictation.controller.updates_failed("task panicked");

    assert_eq!(
        dictation.errors(),
        vec![(
            DICTATION_ERROR_SUMMARY.to_string(),
            "Partial text replacement failed: task panicked".to_string()
        )]
    );
    assert_eq!(dictation.operations(), vec![typed("hello")]);
    assert_eq!(dictation.down().unwrap(), DaemonResponse::Started);
}

#[test]
fn truncated_final_transcripts_give_way_to_the_live_one() {
    let live = "one two three four five six seven eight nine ten";
    let mut dictation = Dictation::new(&[live], Ok("nine ten"));
    dictation.down().unwrap();
    dictation.up().unwrap();
    assert_eq!(dictation.operations(), vec![typed(live), typed(" ")]);
    assert_eq!(
        dictation.notices().last(),
        Some(&TranscriptNotice::Final(live.to_string()))
    );
}

#[test]
fn pending_partials_are_shown_within_both_delays() {
    let config = PartialChunkingConfig {
        enabled: true,
        delay: Duration::from_nanos(80),
        max_delay: Duration::from_nanos(250),
    };
    let mut state = PartialDisplayState::new();
    assert_eq!(state.flush_deadline(config), None);
    assert!(state.update_latest_partial("he".to_string()));
    assert!(!state.update_latest_partial("he".to_string()));
    assert!(state.has_pending_partial());
    state.note_pending_flush(100);
    assert_eq!(state.flush_deadline(config), Some(180));
    state.note_pending_flush(300);
    assert_eq!(state.flush_deadline(config), Some(350));
    assert_eq!(state.latest_partial(), Some("he"));
}

#[derive(Clone)]
struct OrderingInjector {
    events: Arc<Mutex<Vec<&'static str>>>,
}

impl TextInjector for OrderingInjector {
    fn inject_text(&mut self, _text: &str) -> Result<(), InjectError> {
        Ok(())
    }

    fn focused_window(&mut self) -> Result<Option<FocusedWindow>, InjectError> {
        self.events.lock().unwrap().push("focus");
        Ok(Some(FocusedWindow(1)))
    }

    fn should_show_listening_marker(&mut self) -> Result<bool, InjectError> {
        Ok(true)
    }

    fn press_enter(&mut self) -> Result<(), InjectError> {
        self.type_enter()
    }

    fn erase_chars(&mut self, count: usize) -> Result<(), InjectError> {
        erasing_unsupported(count)
    }

    fn move_cursor_left(&mut self, count: usize) -> Result<(), InjectError> {
        moving_unsupported(count)
    }

    fn move_cursor_right(&mut self, count: usize) -> Result<(), InjectError> {
        moving_unsupported(count)
    }

    fn replace_tail(&mut self, erase_count: usize, text_suffix: &str) -> Result<(), InjectError> {
        self.erase_and_type(erase_count, text_suffix)
    }
}

#[derive(Debug, Clone, PartialEq, Eq)]
enum InjectOperation {
    Type(String),
    Backspace(usize),
    CursorLeft(usize),
    CursorRight(usize),
}

#[derive(Clone)]
struct FakeInjector {
    operations: Arc<Mutex<Vec<InjectOperation>>>,
    current_window: Arc<Mutex<Option<FocusedWindow>>>,
    hides_focus: Arc<Mutex<bool>>,
}

impl Default for FakeInjector {
    fn default() -> Self {
        Self {
            operations: Arc::new(Mutex::new(Vec::new())),
            current_window: Arc::new(Mutex::new(Some(FocusedWindow(1)))),
            hides_focus: Arc::new(Mutex::new(false)),
        }
    }
}

impl TextInjector for FakeInjector {
    fn inject_text(&mut self, text: &str) -> Result<(), InjectError> {
        if !text.is_empty() {
            self.operations
                .lock()
                .unwrap()
                .push(InjectOperation::Type(text.to_string()));
        }
        Ok(())
    }

    fn erase_chars(&mut self, count: usize) -> Result<(), InjectError> {
        if count > 0 {
            self.operations
                .lock()
                .unwrap()
                .push(InjectOperation::Backspace(count));
        }
        Ok(())
    }

    fn move_cursor_left(&mut self, count: usize) -> Result<(), InjectError> {
        if count > 0 {
            self.operations
                .lock()
                .unwrap()
                .push(InjectOperation::CursorLeft(count));
        }
        Ok(())
    }

    fn move_cursor_right(&mut self, count: usize) -> Result<(), InjectError> {
        if count > 0 {
            self.operations
                .lock()
                .unwrap()
                .push(InjectOperation::CursorRight(count));
        }
        Ok(())
    }

    fn focused_window(&mut self) -> Result<Option<FocusedWindow>, InjectError> {
        if *self.hides_focus.lock().unwrap() {
            return Err(InjectError::FocusUnavailable);
        }
        Ok(*self.current_window.lock().unwrap())
    }

    fn should_show_listening_marker(&mut self) -> Result<bool, InjectError> {
        Ok(true)
    }

    fn press_enter(&mut self) -> Result<(), InjectError> {
        self.type_enter()
    }

    fn replace_tail(&mut self, erase_count: usize, text_suffix: &str) -> Result<(), InjectError> {
        self.erase_and_type(erase_count, text_suffix)
    }
}

#[derive(Debug, Clone, PartialEq, Eq)]
enum TranscriptNotice {
    Listening,
    Partial(String),
    Final(String),
}

#[derive(Clone, Default)]
struct FakeTranscriptNotifier {
    events: Arc<Mutex<Vec<TranscriptNotice>>>,
}

impl TranscriptNotifier for FakeTranscriptNotifier {
    fn notify_listening(&mut self) -> Result<(), String> {
        self.events
            .lock()
            .unwrap()
            .push(TranscriptNotice::Listening);
        Ok(())
    }

    fn notify_partial(&mut self, transcript: &str) -> Result<(), String> {
        self.events
            .lock()
            .unwrap()
            .push(TranscriptNotice::Partial(transcript.to_string()));
        Ok(())
    }

    fn notify_final(&mut self, transcript: &str) -> Result<(), String> {
        self.events
            .lock()
            .unwrap()
            .push(TranscriptNotice::Final(transcript.to_string()));
        Ok(())
    }
}

#[derive(Clone, Default)]
struct FakeErrorNotifier {
    errors: Arc<Mutex<Vec<(String, String)>>>,
}

impl ErrorNotifier for FakeErrorNotifier {
    fn notify_error(&mut self, summary: &str, body: &str) -> Result<(), String> {
        self.errors
            .lock()
            .unwrap()
            .push((summary.to_string(), body.to_string()));
        Ok(())
    }
}
