use speaches_companion::clock::Duration;
use speaches_companion::notification::{
    dictation_error_body, final_notification, listening_notification, partial_notification,
    truncate_notification_body, NoopErrorNotifier, NoopTranscriptNotifier, NoopWakewordNotifier,
    ErrorNotifier, TranscriptNotifier, WakewordNotifier, DICTATION_FINAL_SUMMARY,
    DICTATION_PARTIAL_SUMMARY,
};
use speaches_companion::shell::{
    default_shell_path, shell_typing_steps, ShellStep, ShellTypingDemoOptions,
};
use speaches_companion::single::Single;
use speaches_companion::text::{
    contains, decimal_text, ends_with, file_name, is_absolute, is_white_space, join, join_path,
    lines_of, non_empty_str, non_empty_string, parse_i32, parse_u32, split_on, starts_with,
    to_ascii_lowercase, trim, words_of,
};
use speaches_companion::transcript::{
    final_choice, FinalChoice, choose_final_transcript, ends_at_stable_boundary, final_transcript_looks_truncated,
    transcript_preview, word_count,
};

#[test]
fn non_empty_string_trims_values() {
    assert_eq!(
        non_empty_string("  text  ".to_string()),
        Some("text".to_string())
    );
    assert_eq!(non_empty_string("   ".to_string()), None);
}

#[test]
fn non_empty_str_trims_values() {
    assert_eq!(non_empty_str("  text  "), Some("text"));
    assert_eq!(non_empty_str("   "), None);
}

#[test]
fn default_shell_path_falls_back_to_bin_sh() {
    for shell in [None, Some(""), Some("fish")] {
        assert_eq!(default_shell_path(shell), "/bin/sh");
    }
    assert_eq!(default_shell_path(Some("/usr/bin/fish")), "/usr/bin/fish");
}

#[test]
fn pty_process_receives_typed_input() {
    let mut options = ShellTypingDemoOptions::new(
        "/bin/sh".to_string(),
        "echo typed through speaches-companion".to_string(),
    );
    options.char_delay = Duration::zero();
    let steps = shell_typing_steps(&options);

    let typed: String = steps
        .iter()
        .filter_map(|step| match step {
            ShellStep::Type(c) => Some(*c),
            ShellStep::Enter => Some('\r'),
            _ => None,
        })
        .collect();
    assert_eq!(typed, "echo typed through speaches-companion\r");
    assert_eq!(steps[0], ShellStep::Pause(Duration::from_millis(400)));
    assert_eq!(steps.last(), Some(&ShellStep::TryEnter));
}

#[test]
fn shell_demos_pause_between_characters() {
    let mut options = ShellTypingDemoOptions::new("/bin/sh".to_string(), "a".to_string());
    options.startup_delay = Duration::zero();
    options.settle_delay = Duration::zero();
    let pause = ShellStep::Pause(Duration::from_millis(50));
    let mut expected = vec![ShellStep::Type('a'), pause.clone(), ShellStep::Enter];
    for c in "exit".chars() {
        expected.push(ShellStep::TryType(c));
        expected.push(pause.clone());
    }
    expected.push(ShellStep::TryEnter);
    assert_eq!(shell_typing_steps(&options), expected);
}

#[test]
fn white_space_is_that_of_unicode() {
    for code in 0..=0x3100u32 {
        if let Some(c) = char::from_u32(code) {
            assert_eq!(is_white_space(c), c.is_whitespace(), "{code:x}");
        }
    }
}

#[test]
fn texts_are_cut_as_in_std() {
    for text in ["", " a b ", "\u{a0}x\u{3000}", "a\r\nb\n\nc\r", "\n", "  "] {
        assert_eq!(trim(text), text.trim());
        assert_eq!(lines_of(text), text.lines().collect::<Vec<_>>());
        assert_eq!(words_of(text), text.split_whitespace().collect::<Vec<_>>());
        assert_eq!(word_count(text), text.split_whitespace().count());
        assert_eq!(split_on(text, "\n"), text.split("\n").collect::<Vec<_>>());
        for part in ["", "a", "\n", "b\n\nc"] {
            assert_eq!(contains(text, part), text.contains(part));
            assert_eq!(starts_with(text, part), text.starts_with(part));
            assert_eq!(ends_with(text, part), text.ends_with(part));
        }
    }
    assert_eq!(split_on("a--b--", "--"), ["a", "b", ""]);
    assert_eq!(join(&vec!["a".to_string(), "b".to_string()], "; "), "a; b");
    assert_eq!(to_ascii_lowercase("ÄBc"), "Äbc");
}

#[test]
fn numbers_are_read_and_written() {
    for n in [0u128, 7, 10, 1_700_000_000_123, u128::MAX] {
        assert_eq!(decimal_text(n), n.to_string());
    }
    for text in ["", "0", "+7", "-7", "4294967295", "4294967296", "1a", "+", "-"] {
        assert_eq!(parse_u32(text), text.parse::<u32>().ok(), "{text}");
        assert_eq!(parse_i32(text), text.parse::<i32>().ok(), "{text}");
    }
    assert_eq!(parse_i32("-2147483648"), Some(i32::MIN));
}

#[test]
fn paths_are_joined_and_cut() {
    assert_eq!(join_path("/a", "b"), "/a/b");
    assert_eq!(join_path("/a/", "b"), "/a/b");
    assert_eq!(join_path("", "b"), "b");
    assert!(is_absolute("/a"));
    assert!(!is_absolute("a/"));
    for path in ["/a/b.wav", "b.wav", "/", "", "a/..", "a/./", "a//b/", "."] {
        assert_eq!(
            file_name(path),
            std::path::Path::new(path)
                .file_name()
                .map(|name| name.to_str().unwrap().to_string()),
            "{path}"
        );
    }
}

#[test]
fn notifications_show_the_beginning_of_long_transcripts() {
    let long = "é".repeat(241);
    let shown = truncate_notification_body(&long);
    assert_eq!(shown, format!("{}...", "é".repeat(240)));
    assert_eq!(truncate_notification_body(&"é".repeat(240)), "é".repeat(240));
    assert_eq!(
        dictation_error_body("Transcription failed", "refused"),
        "Transcription failed: refused"
    );

    let listening = listening_notification();
    assert_eq!(listening.summary, DICTATION_PARTIAL_SUMMARY);
    assert_eq!(listening.body, "listening...");
    assert_eq!(listening.timeout_ms, 2_000);
    let partial = partial_notification(&long);
    assert_eq!(partial.summary, DICTATION_PARTIAL_SUMMARY);
    assert_eq!(partial.body, shown);
    let last = final_notification("done");
    assert_eq!(last.summary, DICTATION_FINAL_SUMMARY);
    assert_eq!(last.body, "done");
    assert_eq!(last.timeout_ms, 3_000);
}

#[test]
fn nobody_is_told_by_default() {
    let mut errors = NoopErrorNotifier;
    let mut transcripts = NoopTranscriptNotifier;
    let mut wakewords = NoopWakewordNotifier;
    assert_eq!(errors.notify_error("a", "b"), Ok(()));
    assert_eq!(transcripts.notify_listening(), Ok(()));
    assert_eq!(transcripts.notify_partial("a"), Ok(()));
    assert_eq!(transcripts.notify_final("a"), Ok(()));
    assert_eq!(
        wakewords.notify_detected("alexa", Single::one()),
        Ok(())
    );
}

#[test]
fn boundaries_are_spaces_and_punctuation() {
    assert!(ends_at_stable_boundary("hello "));
    assert!(ends_at_stable_boundary("hello."));
    assert!(!ends_at_stable_boundary("hello"));
    assert!(!ends_at_stable_boundary(""));
}

#[test]
fn truncated_finals_give_way_to_the_partial() {
    let partial = "this is a rather long dictation that the live session has understood well";
    assert!(final_transcript_looks_truncated("this", partial));
    assert_eq!(
        choose_final_transcript("this".to_string(), Some(partial)),
        partial
    );
    let longer = format!("{partial} indeed");
    assert_eq!(
        choose_final_transcript(longer.clone(), Some(partial)),
        longer
    );
    assert_eq!(choose_final_transcript("final".to_string(), None), "final");
}

#[test]
fn previews_are_one_short_line() {
    assert_eq!(transcript_preview("short"), "short");
    let long = "x".repeat(97);
    assert_eq!(transcript_preview(&long), format!("{}...", "x".repeat(96)));
    assert!(!transcript_preview("a\nb").contains('\n'));
}

#[test]
fn only_shorter_finals_are_a_choice() {
    let live = "one two three four five six seven eight nine ten";
    assert_eq!(final_choice("nine ten", None), None);
    assert_eq!(final_choice("nine ten", Some("  ")), None);
    assert_eq!(final_choice(live, Some(live)), None);
    assert_eq!(final_choice("nine ten", Some(live)), Some(FinalChoice::Partial));
    assert_eq!(
        final_choice("one two three four five six", Some(live)),
        Some(FinalChoice::Final)
    );
}
