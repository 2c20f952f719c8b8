use speaches_companion::config::{
    choose_speed, choose_text, choose_vec, default_config_path_with_env, default_trace_path,
    env_args_or, resolve_config, resolve_config_path_with_env, resolve_tts_config,
    stt_config_input, tts_config_input, ConfigInput, FileConfig, NoConfigPath, SpeachesFileConfig,
    SttFileConfig, TtsCliConfigInput, TtsConfigInput, TtsFileConfig, DEFAULT_BASE_URL,
    DEFAULT_MODEL, DEFAULT_TTS_MODEL, DEFAULT_TTS_PLAYER, DEFAULT_TTS_RESPONSE_FORMAT,
    DEFAULT_TTS_SPEED, DEFAULT_TTS_VOICE,
};
use speaches_companion::endpoint::{endpoint_path, realtime_ws_url, websocket_scheme, UrlError};
use speaches_companion::environment::Environment;
use speaches_companion::single::Single;

const NOW: u128 = 1_700_000_000_123;

fn text(value: &str) -> Option<String> {
    Some(value.to_string())
}

fn single(value: f32) -> Single {
    Single {
        bits: value.to_bits(),
    }
}

#[test]
fn defaults_are_derived_from_cfg() {
    let config = resolve_config(ConfigInput::default(), NOW);

    assert_eq!(config.base_url, DEFAULT_BASE_URL);
    assert_eq!(config.model, DEFAULT_MODEL);
    assert_eq!(config.language, None);
    assert_eq!(config.duration_seconds, 10);
    assert!(config
        .trace_path
        .starts_with("target/speaches-companion-traces"));
    assert_eq!(config.trace_path, default_trace_path(NOW));
}

#[test]
fn cli_values_override_environment_values() {
    let config = resolve_config(
        ConfigInput {
            cli_base_url: text("http://cli.example:9000"),
            cli_model: text("cli-model"),
            cli_language: text("de"),
            cli_duration_seconds: Some(7),
            cli_trace_path: text("/tmp/trace.jsonl"),
            env_base_url: text("http://env.example:8000"),
            env_model: text("env-model"),
            env_language: text("en"),
            file_base_url: text("http://file.example:8000"),
            file_model: text("file-model"),
            file_language: text("fr"),
        },
        NOW,
    );

    assert_eq!(config.base_url, "http://cli.example:9000");
    assert_eq!(config.model, "cli-model");
    assert_eq!(config.language.as_deref(), Some("de"));
    assert_eq!(config.duration_seconds, 7);
    assert_eq!(config.trace_path, "/tmp/trace.jsonl");
}

#[test]
fn env_values_override_defaults() {
    let config = resolve_config(
        ConfigInput {
            env_base_url: text("http://env.example:8000"),
            env_model: text("env-model"),
            env_language: text("fr"),
            ..ConfigInput::default()
        },
        NOW,
    );

    assert_eq!(config.base_url, "http://env.example:8000");
    assert_eq!(config.model, "env-model");
    assert_eq!(config.language.as_deref(), Some("fr"));
}

#[test]
fn file_values_override_defaults() {
    let config = resolve_config(
        ConfigInput {
            file_base_url: text("http://file.example:8000"),
            file_model: text("file-model"),
            file_language: text("it"),
            ..ConfigInput::default()
        },
        NOW,
    );

    assert_eq!(config.base_url, "http://file.example:8000");
    assert_eq!(config.model, "file-model");
    assert_eq!(config.language.as_deref(), Some("it"));
}

#[test]
fn tts_defaults_use_speaches_audio_speech_values() {
    let config = resolve_tts_config(TtsConfigInput::default());

    assert_eq!(config.base_url, DEFAULT_BASE_URL);
    assert_eq!(config.model, DEFAULT_TTS_MODEL);
    assert_eq!(config.voice, DEFAULT_TTS_VOICE);
    assert_eq!(config.speed.bits, DEFAULT_TTS_SPEED);
    assert_eq!(f32::from_bits(DEFAULT_TTS_SPEED), 1.0);
    assert_eq!(config.response_format, DEFAULT_TTS_RESPONSE_FORMAT);
    assert_eq!(config.player, DEFAULT_TTS_PLAYER);
    assert!(config.player_args.is_empty());
}

#[test]
fn tts_cli_values_override_environment_values() {
    let config = resolve_tts_config(TtsConfigInput {
        cli_base_url: text("http://cli.example:9000"),
        cli_model: text("cli-tts"),
        cli_voice: text("cli-voice"),
        cli_speed: Some(single(1.2)),
        cli_response_format: text("mp3"),
        cli_player: text("cli-player"),
        cli_player_args: vec!["--cli".to_string()],
        env_base_url: text("http://env.example:8000"),
        env_model: text("env-tts"),
        env_voice: text("env-voice"),
        env_speed: Some(single(0.9)),
        env_response_format: text("wav"),
        env_player: text("env-player"),
        env_player_args: Some(vec!["--env".to_string()]),
        file_base_url: text("http://file.example:8000"),
        file_model: text("file-tts"),
        file_voice: text("file-voice"),
        file_speed: Some(single(1.1)),
        file_response_format: text("opus"),
        file_player: text("file-player"),
        file_player_args: vec!["--file".to_string()],
    });

    assert_eq!(config.base_url, "http://cli.example:9000");
    assert_eq!(config.model, "cli-tts");
    assert_eq!(config.voice, "cli-voice");
    assert_eq!(f32::from_bits(config.speed.bits), 1.2);
    assert_eq!(config.response_format, "mp3");
    assert_eq!(config.player, "cli-player");
    assert_eq!(config.player_args, ["--cli"]);
}

#[test]
fn file_tts_values_override_defaults() {
    let config = resolve_tts_config(TtsConfigInput {
        file_base_url: text("http://file.example:8000"),
        file_model: text("file-tts"),
        file_voice: text("file-voice"),
        file_speed: Some(single(1.15)),
        file_response_format: text("opus"),
        file_player: text("file-player"),
        file_player_args: vec![
            "--raw".to_string(),
            "--rate".to_string(),
            "24000".to_string(),
        ],
        ..TtsConfigInput::default()
    });

    assert_eq!(config.base_url, "http://file.example:8000");
    assert_eq!(config.model, "file-tts");
    assert_eq!(config.voice, "file-voice");
    assert_eq!(f32::from_bits(config.speed.bits), 1.15);
    assert_eq!(config.response_format, "opus");
    assert_eq!(config.player, "file-player");
    assert_eq!(config.player_args, ["--raw", "--rate", "24000"]);
}

#[test]
fn default_config_path_uses_xdg_then_home() {
    let mut env = Environment::default();
    env.insert("XDG_CONFIG_HOME".to_string(), "/tmp/xdg".to_string());
    env.insert("HOME".to_string(), "/home/example".to_string());

    assert_eq!(
        default_config_path_with_env(&env).unwrap(),
        "/tmp/xdg/speaches-companion/config.toml"
    );

    env.remove("XDG_CONFIG_HOME");
    assert_eq!(
        default_config_path_with_env(&env).unwrap(),
        "/home/example/.config/speaches-companion/config.toml"
    );
}

#[test]
fn config_path_prefers_cli_then_environment() {
    let mut env = Environment::default();
    env.insert(
        "SPEACHES_COMPANION_CONFIG".to_string(),
        "/tmp/env-config.toml".to_string(),
    );
    env.insert("HOME".to_string(), "/home/example".to_string());

    assert_eq!(
        resolve_config_path_with_env(text("/tmp/cli-config.toml"), &env).unwrap(),
        "/tmp/cli-config.toml"
    );
    assert_eq!(
        resolve_config_path_with_env(None, &env).unwrap(),
        "/tmp/env-config.toml"
    );
}

#[test]
fn realtime_url_converts_http_endpoint_to_ws_endpoint() {
    let url = realtime_ws_url(
        "http://localhost:8000",
        "Systran/faster-whisper-large-v3",
        None,
    )
    .expect("valid url");

    assert_eq!(
        url,
        "ws://localhost:8000/v1/realtime?intent=transcription&model=Systran%2Ffaster-whisper-large-v3"
    );
}

#[test]
fn realtime_url_encodes_optional_language() {
    let url = realtime_ws_url("https://speaches.example", "model/with spaces", Some("de"))
        .expect("valid url");

    assert_eq!(
        url,
        "wss://speaches.example/v1/realtime?intent=transcription&model=model%2Fwith+spaces&language=de"
    );
}

#[test]
fn realtime_url_preserves_base_path() {
    let url = realtime_ws_url(
        "https://speaches.example/speaches?ignored=true",
        "Systran/faster-whisper-large-v3",
        None,
    )
    .expect("valid url");

    assert_eq!(
        url,
        "wss://speaches.example/speaches/v1/realtime?intent=transcription&model=Systran%2Ffaster-whisper-large-v3"
    );
}

#[test]
fn realtime_urls_need_a_web_scheme() {
    let error = realtime_ws_url("ftp://speaches.example", "model", None).unwrap_err();
    assert!(matches!(error, UrlError::UnsupportedScheme(_)));
    assert!(error.message().contains("ftp"));
    assert!(matches!(
        realtime_ws_url("speaches", "model", None),
        Err(UrlError::Invalid { .. })
    ));
    assert_eq!(websocket_scheme("http"), Some("ws"));
    assert_eq!(websocket_scheme("https"), Some("wss"));
    assert_eq!(websocket_scheme("ws"), None);
    assert_eq!(websocket_scheme("file"), None);
    assert_eq!(endpoint_path("/", "/v1/realtime"), "/v1/realtime");
    assert_eq!(endpoint_path("/base/", "/v1/realtime"), "/base/v1/realtime");
}

#[test]
fn blank_values_do_not_count() {
    let config = resolve_config(
        ConfigInput {
            cli_base_url: text("  "),
            env_base_url: text(" http://env.example "),
            file_language: text("\t"),
            ..ConfigInput::default()
        },
        NOW,
    );
    assert_eq!(config.base_url, "http://env.example");
    assert_eq!(config.language, None);

    assert_eq!(
        choose_text(None, text(""), text("file"), "default"),
        "file"
    );
    assert_eq!(choose_text(None, None, None, "default"), "default");
}

#[test]
fn unusable_speeds_do_not_count() {
    assert_eq!(
        choose_speed(Some(single(1.5)), Some(single(2.0)), None),
        single(1.5)
    );
    assert_eq!(
        choose_speed(None, None, Some(single(0.5))),
        single(0.5)
    );
    for bad in [0.0f32, -1.0, f32::NAN, f32::INFINITY] {
        assert_eq!(choose_speed(Some(single(bad)), None, None), Single::one());
    }
}

#[test]
fn the_first_list_of_arguments_counts() {
    let list = |value: &str| vec![value.to_string()];
    assert_eq!(
        choose_vec(list("cli"), Some(list("env")), list("file")),
        ["cli"]
    );
    assert_eq!(
        choose_vec(vec![], Some(list("env")), list("file")),
        ["env"]
    );
    assert_eq!(choose_vec(vec![], None, list("file")), ["file"]);
}

#[test]
fn config_paths_need_a_home() {
    let env = Environment::default();
    let error = default_config_path_with_env(&env).unwrap_err();
    assert_eq!(error, NoConfigPath);
    assert!(!error.message().is_empty());
}

#[test]
fn environments_keep_the_last_value() {
    let mut env = Environment::default();
    env.insert("A".to_string(), "1".to_string());
    env.insert("B".to_string(), "2".to_string());
    env.insert("A".to_string(), "3".to_string());
    assert_eq!(env.get("A"), Some("3"));
    assert_eq!(env.get_or("C", "B"), Some("2"));
    env.remove("A");
    assert_eq!(env.get("A"), None);
    assert_eq!(env.get_or("A", "C"), None);
}

#[test]
fn transcription_values_come_from_three_places() {
    let mut env = Environment::default();
    env.insert("SPEACHES_STT_MODEL".to_string(), "old-env".to_string());
    let file = FileConfig {
        speaches: SpeachesFileConfig {
            base_url: text("http://file"),
        },
        stt: SttFileConfig {
            model: text("file-model"),
            language: text("de"),
        },
        ..FileConfig::default()
    };
    let config = resolve_config(stt_config_input(None, None, None, &env, &file), NOW);
    assert_eq!(config.base_url, "http://file");
    assert_eq!(config.model, "old-env");
    assert_eq!(config.language.as_deref(), Some("de"));

    env.insert(
        "SPEACHES_COMPANION_MODEL".to_string(),
        "new-env".to_string(),
    );
    env.insert("SPEACHES_BASE_URL".to_string(), "http://env".to_string());
    let config = resolve_config(
        stt_config_input(text("http://cli"), None, text("fr"), &env, &file),
        NOW,
    );
    assert_eq!(config.base_url, "http://cli");
    assert_eq!(config.model, "new-env");
    assert_eq!(config.language.as_deref(), Some("fr"));
}

#[test]
fn speech_values_come_from_three_places() {
    let mut env = Environment::default();
    env.insert(
        "SPEACHES_TTS_PLAYER_ARGS".to_string(),
        " --raw  --rate 24000 ".to_string(),
    );
    env.insert("SPEACHES_COMPANION_TTS_VOICE".to_string(), "amy".to_string());
    assert_eq!(
        env_args_or(
            &env,
            "SPEACHES_COMPANION_TTS_PLAYER_ARGS",
            "SPEACHES_TTS_PLAYER_ARGS"
        ),
        Some(vec![
            "--raw".to_string(),
            "--rate".to_string(),
            "24000".to_string()
        ])
    );
    env.insert("BLANK".to_string(), "  ".to_string());
    assert_eq!(env_args_or(&env, "BLANK", "NONE"), None);

    let file = FileConfig {
        tts: TtsFileConfig {
            voice: text("file-voice"),
            model: text("file-tts"),
            ..TtsFileConfig::default()
        },
        ..FileConfig::default()
    };
    let cli = TtsCliConfigInput {
        base_url: None,
        model: None,
        voice: None,
        speed: None,
        response_format: text("mp3"),
        player: None,
        player_args: vec![],
    };
    let config = resolve_tts_config(tts_config_input(cli, &env, Some(single(1.5)), &file));
    assert_eq!(config.model, "file-tts");
    assert_eq!(config.voice, "amy");
    assert_eq!(config.speed, single(1.5));
    assert_eq!(config.response_format, "mp3");
    assert_eq!(config.player_args, ["--raw", "--rate", "24000"]);
}
