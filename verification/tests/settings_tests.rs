use std::sync::{Arc, Mutex};

use speaches_companion::clock::Duration;
use speaches_companion::config::{
    resolve_config, ConfigInput, DictationFileConfig, FileConfig, WakewordFileConfig,
};
use speaches_companion::inject::DEFAULT_PASTE_SETTLE_DELAY_MS;
use speaches_companion::notification::{
    finish_hotkey, notify_failure, notify_hotkey_failure, notify_read_aloud_failure, ErrorNotifier,
    HOTKEY_ERROR_SUMMARY, READ_ALOUD_ERROR_SUMMARY,
};
use speaches_companion::phase::PhaseResult;
use speaches_companion::settings::{
    build_wakeword_streaming_config, connection_error, daemon_injector, daemon_transcriber,
    phase_exit_code, prepare_realtime_daemon_transcriber, resolve_daemon_settings, resolve_flag,
    resolve_wakeword_append_space, resolve_wakeword_inject_delay,
    resolve_wakeword_notify_on_detect, resolve_wakeword_paste_in_terminals,
    resolve_wakeword_paste_settle_delay_ms, resolve_wakeword_settings, smoke_seconds,
    wakeword_run_config, DaemonArgs, DaemonTranscriber, RealtimeDaemonStartup, WakewordArgs,
    DEFAULT_LISTENING_MARKER, DEFAULT_PARTIAL_CHUNK_DELAY_MS,
    DEFAULT_PARTIAL_CHUNK_MAX_DELAY_MS, DEFAULT_PASTE_IN_TERMINALS, DEFAULT_PREROLL_MS,
};
use speaches_companion::single::Single;
use speaches_companion::wakeword::{
    OpenWakewordStockModel, WakewordEngine, DEFAULT_WAKEWORD_NAME,
    DEFAULT_WAKEWORD_SILENCE_TIMEOUT_MS, DEFAULT_WAKEWORD_THRESHOLD,
};

const DEFAULT_ROOT: &str = "/home/example/.local/share/speaches-companion/wakewords";

fn text(value: &str) -> Option<String> {
    Some(value.to_string())
}

fn single(value: f32) -> Single {
    Single {
        bits: value.to_bits(),
    }
}

fn dictation_file(dictation: DictationFileConfig) -> FileConfig {
    FileConfig {
        dictation,
        ..FileConfig::default()
    }
}

fn wakeword_file(wakeword: WakewordFileConfig) -> FileConfig {
    FileConfig {
        wakeword,
        ..FileConfig::default()
    }
}

#[test]
fn hotkey_connection_error_sends_desktop_error_notification() {
    let mut notifier = FakeErrorNotifier::default();
    let notifications = notifier.notifications.clone();
    let socket_path = "/tmp/speaches-companion-missing-hotkey.sock";
    let error = connection_error(socket_path, "No such file or directory");

    let end = finish_hotkey(&mut notifier, Err(error.clone()));

    assert_eq!(end.exit_code, 1);
    assert_eq!(end.told, Ok(()));
    assert_eq!(
        end.line,
        Some(format!("speaches-companion hotkey failed: {error}"))
    );
    let notifications = notifications.lock().unwrap();
    assert_eq!(notifications.len(), 1);
    assert_eq!(notifications[0].0, HOTKEY_ERROR_SUMMARY);
    assert!(notifications[0]
        .1
        .contains("failed to connect to speaches-companion daemon"));
    assert!(notifications[0].1.contains(socket_path));
}

#[test]
fn answered_hotkeys_print_the_answer() {
    let mut notifier = FakeErrorNotifier::default();
    let notifications = notifier.notifications.clone();
    let end = finish_hotkey(&mut notifier, Ok("started".to_string()));
    assert_eq!((end.line, end.exit_code), (text("started"), 0));
    let end = finish_hotkey(&mut notifier, Ok(String::new()));
    assert_eq!((end.line, end.exit_code), (None, 0));
    assert!(notifications.lock().unwrap().is_empty());

    notify_hotkey_failure(&mut notifier, "no daemon").unwrap();
    assert_eq!(
        *notifications.lock().unwrap(),
        vec![(HOTKEY_ERROR_SUMMARY.to_string(), "no daemon".to_string())]
    );
}

#[test]
fn daemon_defaults_insert_marker_and_live_partials() {
    let settings = resolve_daemon_settings(&DaemonArgs::default(), &FileConfig::default());

    assert!(!settings.realtime_partials);
    assert_eq!(settings.listening_marker, text(DEFAULT_LISTENING_MARKER));
    assert!(settings.inline_partials);
    assert!(settings.partial_chunking);
    assert_eq!(
        settings.partial_chunk_delay_ms,
        DEFAULT_PARTIAL_CHUNK_DELAY_MS
    );
    assert_eq!(
        settings.partial_chunk_max_delay_ms,
        DEFAULT_PARTIAL_CHUNK_MAX_DELAY_MS
    );
    assert_eq!(
        settings.paste_settle_delay_ms,
        DEFAULT_PASTE_SETTLE_DELAY_MS
    );
    assert_eq!(settings.paste_in_terminals, DEFAULT_PASTE_IN_TERMINALS);
    assert!(settings.final_pass);
    assert!(settings.append_space);
    assert_eq!(settings.preroll_ms, DEFAULT_PREROLL_MS);
}

#[test]
fn daemon_flags_can_disable_marker_and_live_partials() {
    let args = DaemonArgs {
        no_listening_marker: true,
        ..DaemonArgs::default()
    };
    let settings = resolve_daemon_settings(&args, &FileConfig::default());
    assert_eq!(settings.listening_marker, None);

    let args = DaemonArgs {
        no_inline_partials: true,
        ..DaemonArgs::default()
    };
    let settings = resolve_daemon_settings(&args, &FileConfig::default());
    assert!(!settings.inline_partials);

    let args = DaemonArgs {
        no_partial_chunking: true,
        ..DaemonArgs::default()
    };
    let settings = resolve_daemon_settings(&args, &FileConfig::default());
    assert!(!settings.partial_chunking);

    let args = DaemonArgs {
        no_append_space: true,
        ..DaemonArgs::default()
    };
    let settings = resolve_daemon_settings(&args, &FileConfig::default());
    assert!(!settings.append_space);
}

#[test]
fn daemon_reads_dictation_settings_from_file_config() {
    let file_config = dictation_file(DictationFileConfig {
        transcript_dir: text("transcripts"),
        record_dir: text("recordings"),
        stream_response: Some(true),
        realtime_partials: Some(true),
        final_pass: Some(false),
        listening_marker: text("..."),
        inline_partials: Some(false),
        partial_chunking: Some(false),
        partial_chunk_delay_ms: Some(25),
        partial_chunk_max_delay_ms: Some(90),
        append_space: Some(false),
        inject_delay_microsecs: Some(3_000),
        paste_settle_delay_ms: Some(450),
        paste_in_terminals: Some(true),
        leading_silence_ms: Some(400),
        preroll_ms: Some(1_000),
        denoise: None,
    });

    let settings = resolve_daemon_settings(&DaemonArgs::default(), &file_config);

    assert_eq!(settings.transcript_dir, text("transcripts"));
    assert_eq!(settings.record_dir, text("recordings"));
    assert!(settings.stream_response);
    assert!(settings.realtime_partials);
    assert!(!settings.final_pass);
    assert_eq!(settings.listening_marker, text("..."));
    assert!(!settings.inline_partials);
    assert!(!settings.partial_chunking);
    assert_eq!(settings.partial_chunk_delay_ms, 25);
    assert_eq!(settings.partial_chunk_max_delay_ms, 90);
    assert!(!settings.append_space);
    assert_eq!(settings.inject_delay_microsecs, 3_000);
    assert_eq!(settings.paste_settle_delay_ms, 450);
    assert!(settings.paste_in_terminals);
    assert_eq!(settings.leading_silence_ms, 400);
    assert_eq!(settings.preroll_ms, 1_000);

    assert!(!settings.writes_final_transcript());
    let chunking = settings.chunking();
    assert!(!chunking.enabled);
    assert_eq!(chunking.delay, Duration::from_millis(25));
    assert_eq!(chunking.max_delay, Duration::from_millis(90));
}

#[test]
fn daemon_can_disable_stream_response_from_file_config() {
    let args = DaemonArgs {
        no_stream_response: true,
        ..DaemonArgs::default()
    };
    let file_config = dictation_file(DictationFileConfig {
        stream_response: Some(true),
        ..DictationFileConfig::default()
    });

    let settings = resolve_daemon_settings(&args, &file_config);

    assert!(!settings.stream_response);
}

#[test]
fn daemon_can_disable_realtime_partials_from_file_config() {
    let args = DaemonArgs {
        no_realtime_partials: true,
        ..DaemonArgs::default()
    };
    let file_config = dictation_file(DictationFileConfig {
        realtime_partials: Some(true),
        ..DictationFileConfig::default()
    });

    let settings = resolve_daemon_settings(&args, &file_config);

    assert!(!settings.realtime_partials);
    assert!(settings.writes_final_transcript());
}

#[test]
fn daemon_can_disable_final_pass_from_file_config() {
    let args = DaemonArgs {
        no_final_pass: true,
        ..DaemonArgs::default()
    };
    let file_config = dictation_file(DictationFileConfig {
        final_pass: Some(true),
        ..DictationFileConfig::default()
    });

    let settings = resolve_daemon_settings(&args, &file_config);

    assert!(!settings.final_pass);
}

#[test]
fn realtime_daemon_startup_fails_when_warmup_fails() {
    let mut startup = FakeRealtimeStartup::new(Ok(()), Err("connection refused"));
    let events = startup.events.clone();

    let error = prepare_realtime_daemon_transcriber(&mut startup).unwrap_err();

    let error = error.message();
    assert!(error.contains("realtime transcription backend is unavailable"));
    assert!(error.contains("connection refused"));
    assert_eq!(*events.lock().unwrap(), vec!["prepare_capture", "warm_up"]);
}

#[test]
fn realtime_daemon_startup_prepares_before_warmup() {
    let mut startup = FakeRealtimeStartup::new(Ok(()), Ok(()));
    let events = startup.events.clone();

    prepare_realtime_daemon_transcriber(&mut startup).unwrap();

    assert_eq!(*events.lock().unwrap(), vec!["prepare_capture", "warm_up"]);
}

#[test]
fn realtime_daemon_startup_needs_a_capture_first() {
    let mut startup = FakeRealtimeStartup::new(Err("no microphone"), Ok(()));
    let events = startup.events.clone();

    let error = prepare_realtime_daemon_transcriber(&mut startup).unwrap_err();

    assert_eq!(
        error.message(),
        "failed to start continuous audio capture: no microphone"
    );
    assert_eq!(*events.lock().unwrap(), vec!["prepare_capture"]);
}

#[test]
fn daemon_accepts_custom_listening_marker() {
    let args = DaemonArgs {
        listening_marker: text("..."),
        ..DaemonArgs::default()
    };
    let settings = resolve_daemon_settings(&args, &FileConfig::default());

    assert_eq!(settings.listening_marker, text("..."));
    assert!(settings.inline_partials);
}

#[test]
fn daemon_accepts_custom_preroll() {
    let args = DaemonArgs {
        preroll_ms: Some(1_000),
        ..DaemonArgs::default()
    };
    let settings = resolve_daemon_settings(&args, &FileConfig::default());

    assert_eq!(args.preroll_ms, Some(1_000));
    assert_eq!(settings.preroll_ms, 1_000);
}

#[test]
fn daemon_accepts_custom_injection_delay() {
    let args = DaemonArgs {
        inject_delay_microsecs: Some(3_000),
        ..DaemonArgs::default()
    };
    let settings = resolve_daemon_settings(&args, &FileConfig::default());

    assert_eq!(settings.inject_delay_microsecs, 3_000);
}

#[test]
fn daemon_accepts_custom_paste_settle_delay() {
    let args = DaemonArgs {
        paste_settle_delay_ms: Some(450),
        ..DaemonArgs::default()
    };
    let settings = resolve_daemon_settings(&args, &FileConfig::default());

    assert_eq!(settings.paste_settle_delay_ms, 450);
}

#[test]
fn daemon_accepts_terminal_paste_flags() {
    let args = DaemonArgs {
        paste_in_terminals: true,
        ..DaemonArgs::default()
    };
    let settings = resolve_daemon_settings(&args, &FileConfig::default());
    assert!(settings.paste_in_terminals);

    let args = DaemonArgs {
        no_paste_in_terminals: true,
        ..DaemonArgs::default()
    };
    let file_config = dictation_file(DictationFileConfig {
        paste_in_terminals: Some(true),
        ..DictationFileConfig::default()
    });
    let settings = resolve_daemon_settings(&args, &file_config);
    assert!(!settings.paste_in_terminals);
}

#[test]
fn daemon_accepts_custom_partial_chunking_delays() {
    let args = DaemonArgs {
        partial_chunk_delay_ms: Some(40),
        partial_chunk_max_delay_ms: Some(120),
        ..DaemonArgs::default()
    };
    let settings = resolve_daemon_settings(&args, &FileConfig::default());

    assert_eq!(settings.partial_chunk_delay_ms, 40);
    assert_eq!(settings.partial_chunk_max_delay_ms, 120);
}

#[test]
fn wakeword_defaults_to_default_name_and_config_values() {
    let args = WakewordArgs::default();
    let settings = resolve_wakeword_settings(&args, &FileConfig::default(), DEFAULT_ROOT);

    assert_eq!(settings.name, DEFAULT_WAKEWORD_NAME);
    assert_eq!(settings.engine, WakewordEngine::Openwakeword);
    assert_eq!(settings.stock_model, OpenWakewordStockModel::Alexa);
    assert_eq!(settings.assets_dir, None);
    assert_eq!(settings.threshold.bits, DEFAULT_WAKEWORD_THRESHOLD);
    assert_eq!(settings.threshold, single(0.5));
    assert_eq!(
        settings.silence_timeout,
        Duration::from_millis(DEFAULT_WAKEWORD_SILENCE_TIMEOUT_MS)
    );
    assert!(settings.press_enter);
    assert!(!resolve_wakeword_notify_on_detect(
        &args,
        &FileConfig::default()
    ));
    assert_eq!(settings.root_dir, DEFAULT_ROOT);
}

#[test]
fn wakeword_reads_settings_from_file_config() {
    let args = WakewordArgs::default();
    let file_config = wakeword_file(WakewordFileConfig {
        name: text("aurgob"),
        engine: Some(WakewordEngine::Onnx),
        stock_model: Some(OpenWakewordStockModel::Weather),
        assets_dir: text("/tmp/openwakeword-assets"),
        root_dir: text("/tmp/wakewords"),
        threshold: Some(single(0.72)),
        frame_ms: Some(40),
        silence_timeout_ms: Some(700),
        activation_grace_ms: Some(4_000),
        max_recording_ms: Some(20_000),
        press_enter: Some(false),
        notify_on_detect: Some(true),
        ..WakewordFileConfig::default()
    });

    let settings = resolve_wakeword_settings(&args, &file_config, DEFAULT_ROOT);

    assert_eq!(settings.name, "aurgob");
    assert_eq!(settings.engine, WakewordEngine::Onnx);
    assert_eq!(settings.stock_model, OpenWakewordStockModel::Weather);
    assert_eq!(settings.assets_dir, text("/tmp/openwakeword-assets"));
    assert_eq!(settings.root_dir, "/tmp/wakewords");
    assert_eq!(f32::from_bits(settings.threshold.bits), 0.72);
    assert_eq!(settings.frame, Duration::from_millis(40));
    assert_eq!(settings.silence_timeout, Duration::from_millis(700));
    assert_eq!(settings.activation_grace, Duration::from_millis(4_000));
    assert_eq!(settings.max_recording, Duration::from_millis(20_000));
    assert!(!settings.press_enter);
    assert!(resolve_wakeword_notify_on_detect(&args, &file_config));
}

#[test]
fn wakeword_cli_name_overrides_file_config_name() {
    let args = WakewordArgs {
        name: text("samantha"),
        ..WakewordArgs::default()
    };
    let file_config = wakeword_file(WakewordFileConfig {
        name: text("hey_computer"),
        ..WakewordFileConfig::default()
    });

    let settings = resolve_wakeword_settings(&args, &file_config, DEFAULT_ROOT);

    assert_eq!(settings.name, "samantha");
}

#[test]
fn wakeword_cli_overrides_file_config() {
    let args = WakewordArgs {
        name: text("samantha"),
        engine: Some(WakewordEngine::Onnx),
        stock_model: Some(OpenWakewordStockModel::Timer),
        assets_dir: text("/tmp/cli-assets"),
        root_dir: text("/tmp/cli-wakewords"),
        threshold: Some(single(0.8)),
        no_press_enter: true,
        no_notify_on_detect: true,
        no_append_space: true,
        inject_delay_microsecs: Some(3_000),
        ..WakewordArgs::default()
    };
    let file_config = FileConfig {
        wakeword: WakewordFileConfig {
            name: text("hey_computer"),
            engine: Some(WakewordEngine::Openwakeword),
            stock_model: Some(OpenWakewordStockModel::Alexa),
            assets_dir: text("/tmp/file-assets"),
            root_dir: text("/tmp/file-wakewords"),
            threshold: Some(single(0.4)),
            press_enter: Some(true),
            notify_on_detect: Some(true),
            ..WakewordFileConfig::default()
        },
        dictation: DictationFileConfig {
            append_space: Some(true),
            inject_delay_microsecs: Some(40),
            ..DictationFileConfig::default()
        },
        ..FileConfig::default()
    };

    let settings = resolve_wakeword_settings(&args, &file_config, DEFAULT_ROOT);

    assert_eq!(settings.name, "samantha");
    assert_eq!(settings.engine, WakewordEngine::Onnx);
    assert_eq!(settings.stock_model, OpenWakewordStockModel::Timer);
    assert_eq!(settings.assets_dir, text("/tmp/cli-assets"));
    assert_eq!(settings.root_dir, "/tmp/cli-wakewords");
    assert_eq!(f32::from_bits(settings.threshold.bits), 0.8);
    assert!(!settings.press_enter);
    assert!(!resolve_wakeword_notify_on_detect(&args, &file_config));
    assert!(!resolve_wakeword_append_space(&args, &file_config));
    assert_eq!(resolve_wakeword_inject_delay(&args, &file_config), 3_000);
}

#[test]
fn daemon_accepts_transcript_dir() {
    let args = DaemonArgs {
        transcript_dir: text("target/speaches-companion-debug"),
        ..DaemonArgs::default()
    };
    let settings = resolve_daemon_settings(&args, &FileConfig::default());

    assert_eq!(
        settings.transcript_dir,
        text("target/speaches-companion-debug")
    );
}

#[test]
fn daemon_accepts_record_dir() {
    let args = DaemonArgs {
        record_dir: text("target/speaches-companion-recordings"),
        ..DaemonArgs::default()
    };
    let settings = resolve_daemon_settings(&args, &FileConfig::default());

    assert_eq!(
        args.record_dir,
        text("target/speaches-companion-recordings")
    );
    assert_eq!(
        settings.record_dir,
        text("target/speaches-companion-recordings")
    );
}

#[test]
fn flags_of_the_command_line_come_first() {
    assert!(resolve_flag(true, false, Some(false), false));
    assert!(!resolve_flag(false, true, Some(true), true));
    assert!(resolve_flag(false, false, Some(true), false));
    assert!(!resolve_flag(false, false, Some(false), true));
    assert!(resolve_flag(false, false, None, true));
}

#[test]
fn blank_markers_are_none() {
    let args = DaemonArgs {
        listening_marker: text("  "),
        ..DaemonArgs::default()
    };
    let file_config = dictation_file(DictationFileConfig {
        listening_marker: text("..."),
        ..DictationFileConfig::default()
    });
    assert_eq!(
        resolve_daemon_settings(&args, &file_config).listening_marker,
        None
    );
}

#[test]
fn wakewords_stream_where_the_file_asks_for_it() {
    let config = resolve_config(ConfigInput::default(), 0);
    assert!(build_wakeword_streaming_config(&config, &FileConfig::default()).is_none());

    let file_config = dictation_file(DictationFileConfig {
        realtime_partials: Some(true),
        final_pass: Some(false),
        partial_chunk_delay_ms: Some(40),
        paste_settle_delay_ms: Some(450),
        ..DictationFileConfig::default()
    });
    let streaming = build_wakeword_streaming_config(&config, &file_config).unwrap();
    assert_eq!(streaming.transcriber.base_url, config.base_url);
    assert_eq!(streaming.transcriber.preroll, Duration::zero());
    assert_eq!(streaming.transcriber.sample_rate, 24_000);
    assert!(!streaming.transcriber.final_pass);
    assert!(!streaming.final_transcript);
    assert!(streaming.inline_partials);
    assert_eq!(streaming.listening_marker, text(DEFAULT_LISTENING_MARKER));
    assert_eq!(
        streaming.partial_chunking.delay,
        Duration::from_millis(40)
    );
    assert_eq!(
        streaming.partial_chunking.max_delay,
        Duration::from_millis(250)
    );
    assert_eq!(resolve_wakeword_paste_settle_delay_ms(&file_config), 450);
    assert!(!resolve_wakeword_paste_in_terminals(&file_config));
}

#[test]
fn daemons_transcribe_as_the_settings_say() {
    let config = resolve_config(
        ConfigInput {
            cli_base_url: text("http://cli"),
            cli_model: text("cli-model"),
            cli_language: text("de"),
            ..ConfigInput::default()
        },
        0,
    );
    let mut args = DaemonArgs {
        preroll_ms: Some(10),
        leading_silence_ms: Some(20),
        transcript_dir: text("/tmp/t"),
        stream_response: true,
        inject_delay_microsecs: Some(7),
        ..DaemonArgs::default()
    };
    let settings = resolve_daemon_settings(&args, &FileConfig::default());
    assert_eq!(daemon_injector(&settings).delay_microsecs(), 7);
    match daemon_transcriber(&settings, config.clone()) {
        DaemonTranscriber::Final(transcriber) => {
            assert_eq!(transcriber.base_url, "http://cli");
            assert_eq!(transcriber.options.model, "cli-model");
            assert_eq!(transcriber.options.language, text("de"));
            assert!(transcriber.options.stream);
            assert_eq!(transcriber.transcript_dir, text("/tmp/t"));
            assert_eq!(transcriber.preroll, Duration::from_millis(10));
            assert_eq!(transcriber.leading_silence, Duration::from_millis(20));
        }
        DaemonTranscriber::Realtime(_) => panic!("no live transcripts are wanted"),
    }

    args.realtime_partials = true;
    args.no_final_pass = true;
    let settings = resolve_daemon_settings(&args, &FileConfig::default());
    match daemon_transcriber(&settings, config) {
        DaemonTranscriber::Realtime(transcriber) => {
            assert_eq!(transcriber.model, "cli-model");
            assert!(!transcriber.final_pass);
            assert_eq!(transcriber.preroll, Duration::from_millis(10));
        }
        DaemonTranscriber::Final(_) => panic!("live transcripts are wanted"),
    }
}

#[test]
fn wakewords_run_as_the_settings_say() {
    let args = WakewordArgs {
        no_append_space: true,
        notify_on_detect: true,
        ..WakewordArgs::default()
    };
    let file_config = FileConfig::default();
    let settings = resolve_wakeword_settings(&args, &file_config, DEFAULT_ROOT);
    let config = resolve_config(ConfigInput::default(), 0);
    let run = wakeword_run_config(&args, &file_config, settings.clone(), config.clone(), None);
    assert_eq!(run.settings, settings);
    assert_eq!(run.base_url, config.base_url);
    assert_eq!(run.stt_options.model, config.model);
    assert!(!run.stt_options.stream);
    assert!(!run.append_space);
    assert!(run.notify_on_detect);
    assert!(run.streaming.is_none());
}

#[test]
fn smoke_tests_record_at_least_a_second() {
    assert_eq!(smoke_seconds(0), 1);
    assert_eq!(smoke_seconds(1), 1);
    assert_eq!(smoke_seconds(9), 9);
}

#[test]
fn exit_codes_tell_how_a_session_went() {
    assert_eq!(phase_exit_code(PhaseResult::Passed), 0);
    assert_eq!(phase_exit_code(PhaseResult::Failed), 1);
    assert_eq!(phase_exit_code(PhaseResult::Blocked), 2);
    assert_eq!(phase_exit_code(PhaseResult::Incomplete), 3);
}

#[test]
fn failures_are_told_with_their_stage() {
    let mut notifier = FakeErrorNotifier::default();
    notify_failure(&mut notifier, "Recording stop failed", "no sound");
    assert_eq!(
        *notifier.notifications.lock().unwrap(),
        vec![(
            "Speaches Companion dictation failed".to_string(),
            "Recording stop failed: no sound".to_string()
        )]
    );
}

#[test]
fn read_aloud_failures_are_told_whole() {
    let mut notifier = FakeErrorNotifier::default();
    notify_read_aloud_failure(&mut notifier, "no player").unwrap();
    assert_eq!(
        *notifier.notifications.lock().unwrap(),
        vec![(READ_ALOUD_ERROR_SUMMARY.to_string(), "no player".to_string())]
    );
}

struct FakeRealtimeStartup {
    events: Arc<Mutex<Vec<&'static str>>>,
    prepare_result: Result<(), &'static str>,
    warm_up_result: Result<(), &'static str>,
}

impl FakeRealtimeStartup {
    fn new(
        prepare_result: Result<(), &'static str>,
        warm_up_result: Result<(), &'static str>,
    ) -> Self {
        Self {
            events: Arc::new(Mutex::new(Vec::new())),
            prepare_result,
            warm_up_result,
        }
    }
}

impl RealtimeDaemonStartup for FakeRealtimeStartup {
    fn prepare_capture(&mut self) -> Result<(), String> {
        self.events.lock().unwrap().push("prepare_capture");
        self.prepare_result.map_err(str::to_string)
    }

    fn warm_up(&mut self) -> Result<(), String> {
        self.events.lock().unwrap().push("warm_up");
        self.warm_up_result.map_err(str::to_string)
    }
}

#[derive(Clone, Default)]
struct FakeErrorNotifier {
    notifications: Arc<Mutex<Vec<(String, String)>>>,
}

impl ErrorNotifier for FakeErrorNotifier {
    fn notify_error(&mut self, summary: &str, body: &str) -> Result<(), String> {
        self.notifications
            .lock()
            .unwrap()
            .push((summary.to_string(), body.to_string()));
        Ok(())
    }
}
