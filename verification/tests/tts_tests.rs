use speaches_companion::endpoint::{health_url, speech_url, UrlError};
use speaches_companion::single::Single;
use speaches_companion::tts::{
    after_clipboard_selection, after_primary_selection, default_playback_dir,
    ensure_player_success, normalize_read_aloud_text, parse_playback_pid, playback_pid_text,
    playback_was_cancelled, player_command_args, read_aloud_input, removes_playback_pid,
    sanitized_extension, selection_text, speech_audio, speech_file_extension, speech_file_name,
    speech_request, PlaybackState, SelectionStep, SpeechOptions, TtsError,
};

#[test]
fn speech_url_uses_openai_compatible_audio_speech_path() {
    let url = speech_url("http://localhost:8000/base?ignored=true").unwrap();

    assert_eq!(url.as_str(), "http://localhost:8000/base/v1/audio/speech");
}

#[test]
fn read_aloud_text_is_trimmed_and_rejects_empty_input() {
    assert_eq!(
        normalize_read_aloud_text("  read this\n"),
        Some("read this".to_string())
    );
    assert_eq!(normalize_read_aloud_text(" \n\t"), None);
}

#[test]
fn synthesize_speech_posts_openai_compatible_json() {
    assert_eq!(
        speech_url("http://127.0.0.1:8000").unwrap(),
        "http://127.0.0.1:8000/v1/audio/speech"
    );
    let options = SpeechOptions {
        model: "tts-1".to_string(),
        voice: "lessac".to_string(),
        speed: Single {
            bits: 1.2f32.to_bits(),
        },
        response_format: "wav".to_string(),
    };
    let request = speech_request(" hello window ", &options).unwrap();
    assert_eq!(request.input, "hello window");
    assert_eq!(request.model, "tts-1");
    assert_eq!(request.voice, "lessac");
    assert_eq!(f32::from_bits(request.speed.bits), 1.2);
    assert_eq!(request.response_format, "wav");
    assert_eq!(
        speech_request(" \n", &options),
        Err(TtsError::EmptyInput)
    );

    let audio = speech_audio(true, "200 OK", b"RIFF fake wav".to_vec(), "").unwrap();

    assert_eq!(audio, b"RIFF fake wav");
}

#[test]
fn play_audio_file_passes_player_args_before_path() {
    let args = player_command_args(
        &vec![
            "-c".to_string(),
            "--raw".to_string(),
            "--rate".to_string(),
            "24000".to_string(),
        ],
        "/tmp/audio.pcm",
    );

    assert_eq!(args, ["-c", "--raw", "--rate", "24000", "/tmp/audio.pcm"]);
}

#[test]
fn play_audio_file_stops_prior_recorded_playback() {
    let recorded = parse_playback_pid(&playback_pid_text(4_711));
    assert_eq!(recorded, Some(4_711));
    assert!(removes_playback_pid(recorded, 4_711));
    assert!(!removes_playback_pid(recorded, 4_712));
    assert!(!removes_playback_pid(None, 4_711));

    assert_eq!(
        ensure_player_success("pw-play", false, Some(15), "signal: 15 (SIGTERM)"),
        Ok(())
    );
}

#[test]
fn empty_input_and_empty_answers_are_errors() {
    assert_eq!(read_aloud_input(" \n"), Err(TtsError::EmptyInput));
    assert_eq!(TtsError::EmptyInput.message(), "read-aloud input is empty");
    assert_eq!(
        speech_audio(true, "200 OK", vec![], ""),
        Err(TtsError::EmptyAudio)
    );
    assert_eq!(
        TtsError::EmptyAudio.message(),
        "speech request returned an empty audio response"
    );
    assert_eq!(
        speech_audio(false, "404 Not Found", vec![1], "no voice")
            .unwrap_err()
            .message(),
        "speech request failed with HTTP 404 Not Found: no voice"
    );
}

#[test]
fn the_selection_comes_before_the_clipboard() {
    assert_eq!(
        after_primary_selection(Ok(Some("marked".to_string()))),
        SelectionStep::Use("marked".to_string())
    );
    assert_eq!(
        after_primary_selection(Ok(None)),
        SelectionStep::TryClipboard(None)
    );
    assert_eq!(
        after_primary_selection(Err("no xclip".to_string())),
        SelectionStep::TryClipboard(Some("no xclip".to_string()))
    );
    assert_eq!(
        after_clipboard_selection(Some("no xclip".to_string()), Ok(Some("copied".to_string()))),
        Ok("copied".to_string())
    );
    assert_eq!(
        after_clipboard_selection(None, Ok(None)).unwrap_err().message(),
        "no selected text or clipboard text available for read-aloud"
    );
    assert_eq!(
        after_clipboard_selection(Some("first".to_string()), Ok(None))
            .unwrap_err()
            .message(),
        "first"
    );
    assert_eq!(
        after_clipboard_selection(Some("first".to_string()), Err("second".to_string()))
            .unwrap_err()
            .message(),
        "second"
    );
}

#[test]
fn selections_are_trimmed_text() {
    assert_eq!(
        selection_text(true, b" marked \n".to_vec()),
        Some("marked".to_string())
    );
    assert_eq!(selection_text(false, b"marked".to_vec()), None);
    assert_eq!(selection_text(true, vec![0xff, 0xfe]), None);
    assert_eq!(selection_text(true, b" ".to_vec()), None);
}

#[test]
fn formats_become_file_extensions() {
    assert_eq!(speech_file_extension(" .WAV "), "wav");
    assert_eq!(speech_file_extension("..pcm16/../x"), "pcm16x");
    assert_eq!(speech_file_extension("averyveryverylongformat"), "averyveryver");
    assert_eq!(speech_file_extension("..."), "audio");
    assert_eq!(sanitized_extension(""), "audio");
    assert_eq!(
        speech_file_name(12, 34_567, "wav"),
        "speaches-companion-tts-12-34567.wav"
    );
}

#[test]
fn playback_files_stand_in_the_runtime_directory() {
    assert_eq!(
        default_playback_dir(Some("/run/user/1000"), "/tmp", 1_000),
        "/run/user/1000/speaches-companion"
    );
    assert_eq!(
        default_playback_dir(Some(""), "/tmp", 1_000),
        "/tmp/speaches-companion-1000"
    );
    assert_eq!(
        default_playback_dir(None, "/tmp/", 7),
        "/tmp/speaches-companion-7"
    );
    let state = PlaybackState::in_dir("/run/user/1000/speaches-companion");
    assert_eq!(
        state.pid_path(),
        "/run/user/1000/speaches-companion/read-aloud-player.pid"
    );
    assert_eq!(
        state.lock_path(),
        "/run/user/1000/speaches-companion/read-aloud-player.lock"
    );
}

#[test]
fn only_positive_process_numbers_are_taken() {
    assert_eq!(parse_playback_pid(" 42\n"), Some(42));
    assert_eq!(parse_playback_pid("+42"), Some(42));
    assert_eq!(parse_playback_pid("0"), None);
    assert_eq!(parse_playback_pid("-42"), None);
    assert_eq!(parse_playback_pid("2147483648"), None);
    assert_eq!(parse_playback_pid("2147483647"), Some(i32::MAX));
    assert_eq!(parse_playback_pid("pid"), None);
}

#[test]
fn players_that_fail_are_named() {
    assert_eq!(ensure_player_success("pw-play", true, None, ""), Ok(()));
    assert!(playback_was_cancelled(Some(9)));
    assert!(!playback_was_cancelled(Some(2)));
    assert!(!playback_was_cancelled(None));
    assert_eq!(
        ensure_player_success("pw-play", false, None, "exit status: 1")
            .unwrap_err()
            .message(),
        "audio player pw-play failed with exit status: 1"
    );
}

#[test]
fn endpoints_need_a_url() {
    assert_eq!(
        health_url("http://localhost:8000/ignored?x=1").unwrap(),
        "http://localhost:8000/health"
    );
    let error = health_url("not a url").unwrap_err();
    assert!(matches!(error, UrlError::Invalid { .. }));
    assert!(error
        .message()
        .starts_with("invalid Speaches base URL: not a url"));
}

#[test]
fn single_floats_are_ordered_by_their_bits() {
    let single = |value: f32| Single {
        bits: value.to_bits(),
    };
    for a in [-1.5f32, -0.0, 0.0, 0.25, 0.5, 1.0, f32::INFINITY, f32::NAN] {
        assert_eq!(single(a).is_nan(), a.is_nan());
        assert_eq!(
            single(a).is_positive_and_finite(),
            a.is_finite() && a > 0.0
        );
        for b in [-2.0f32, -0.0, 0.0, 0.5, 1.0, f32::NEG_INFINITY, f32::NAN] {
            assert_eq!(single(a).at_least(single(b)), a >= b, "{a} {b}");
            if a != b {
                let max = f32::from_bits(single(a).max(single(b)).bits);
                assert!(max == a.max(b) || (max.is_nan() && a.is_nan() && b.is_nan()));
            }
        }
    }
    assert_eq!(Single::one(), single(1.0));
}
