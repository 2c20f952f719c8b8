use std::sync::{Arc, Mutex};

use speaches_companion::inject::{
    common_prefix_len, erasing_unsupported, moving_unsupported, DesktopTextInjector, EditPlan,
    FocusedWindow, InjectError, SpeculativeTextSession, TextInjector,
    DEFAULT_PASTE_SETTLE_DELAY_MS,
};
use speaches_companion::json::Json;
use speaches_companion::sway::{
    clipboard_offer, copy_retry_delay_ms, display_from_environ, environ_entries,
    focused_sway_node_id, focused_target_is_terminal, focused_window, is_sway_socket_name,
    is_terminal_identity, is_text_mime_type, newest_socket, sway_node_identity,
    sway_pid_from_socket_path, ClipboardOffer, CommandLine, PasteMode, PasteOutcome, SocketEntry,
    SwayTextInjector,
};

#[test]
fn speculative_replacement_appends_shared_prefix_without_backspace() {
    let injector = FakeInjector::default();
    let operations = injector.operations.clone();
    let mut session = SpeculativeTextSession::start(injector).unwrap();

    session.replace_text("hel").unwrap();
    session.replace_text("hello win").unwrap();
    session.replace_text("hello window").unwrap();

    assert_eq!(
        *operations.lock().unwrap(),
        vec![
            InjectOperation::Type("hel".to_string()),
            InjectOperation::Type("lo win".to_string()),
            InjectOperation::Type("dow".to_string()),
        ]
    );
}

#[test]
fn speculative_replacement_backspaces_only_changed_tail() {
    let injector = FakeInjector::default();
    let operations = injector.operations.clone();
    let mut session = SpeculativeTextSession::start(injector).unwrap();

    session.replace_text("hello win").unwrap();
    session.replace_text("hello world").unwrap();

    assert_eq!(
        *operations.lock().unwrap(),
        vec![
            InjectOperation::Type("hello win".to_string()),
            InjectOperation::Backspace(2),
            InjectOperation::Type("orld".to_string()),
        ]
    );
}

#[test]
fn speculative_replacement_can_shrink_text() {
    let injector = FakeInjector::default();
    let operations = injector.operations.clone();
    let mut session = SpeculativeTextSession::start(injector).unwrap();

    session.replace_text("hello world").unwrap();
    session.replace_text("hello").unwrap();

    assert_eq!(
        *operations.lock().unwrap(),
        vec![
            InjectOperation::Type("hello world".to_string()),
            InjectOperation::Backspace(6),
        ]
    );
}

#[test]
fn speculative_replacement_counts_unicode_tail_chars() {
    let injector = FakeInjector::default();
    let operations = injector.operations.clone();
    let mut session = SpeculativeTextSession::start(injector).unwrap();

    session.replace_text("héllø win").unwrap();
    session.replace_text("héllø world").unwrap();

    assert_eq!(
        *operations.lock().unwrap(),
        vec![
            InjectOperation::Type("héllø win".to_string()),
            InjectOperation::Backspace(2),
            InjectOperation::Type("orld".to_string()),
        ]
    );
}

#[test]
fn speculative_replacement_uses_single_tail_replacement_call() {
    let injector = TailReplacingInjector::default();
    let replacements = injector.replacements.clone();
    let mut session = SpeculativeTextSession::start(injector).unwrap();

    session.replace_text("💬").unwrap();
    session.replace_text("hello").unwrap();

    assert_eq!(
        *replacements.lock().unwrap(),
        vec![(0, "💬".to_string()), (1, "hello".to_string())]
    );
}

#[test]
fn focused_sway_node_id_finds_nested_focused_node() {
    let tree = Json::parse(
        r#"{
        "id": 1,
        "focused": false,
        "nodes": [{
            "id": 2,
            "focused": false,
            "nodes": [{
                "id": 3,
                "focused": true,
                "nodes": []
            }],
            "floating_nodes": []
        }],
        "floating_nodes": []
    }"#,
    )
    .unwrap();

    assert_eq!(focused_sway_node_id(&tree), Some(3));
}

#[test]
fn focused_sway_node_id_checks_floating_nodes() {
    let tree = Json::parse(
        r#"{
        "id": 1,
        "focused": false,
        "nodes": [],
        "floating_nodes": [{
            "id": 4,
            "focused": true
        }]
    }"#,
    )
    .unwrap();

    assert_eq!(focused_sway_node_id(&tree), Some(4));
}

#[test]
fn focused_sway_node_id_returns_none_without_focus() {
    let tree = Json::parse(
        r#"{
        "id": 1,
        "focused": false,
        "nodes": [{"id": 2, "focused": false}],
        "floating_nodes": []
    }"#,
    )
    .unwrap();

    assert_eq!(focused_sway_node_id(&tree), None);
}

#[test]
fn sway_pid_from_socket_path_parses_standard_socket_name() {
    assert_eq!(
        sway_pid_from_socket_path("/run/user/1001/sway-ipc.1001.77911.sock"),
        Some(77911)
    );
}

#[test]
fn sway_pid_from_socket_path_rejects_other_socket_names() {
    assert_eq!(
        sway_pid_from_socket_path("/run/user/1001/wayland-1"),
        None
    );
}

#[test]
fn sway_text_command_uses_delay_as_initial_settle_and_key_delay() {
    let injector = test_sway_injector(20);
    let command = injector.replacement_command(0, true, 20);

    assert_eq!(command_args(&command), vec!["-s", "20", "-d", "20", "-"]);
}

#[test]
fn sway_text_command_omits_timing_args_without_delay() {
    let injector = test_sway_injector(0);
    let command = injector.replacement_command(0, true, 0);

    assert_eq!(command_args(&command), vec!["-"]);
}

#[test]
fn sway_replacement_command_combines_backspaces_and_text() {
    let injector = test_sway_injector(20);
    let command = injector.replacement_command(2, true, 20);

    assert_eq!(
        command_args(&command),
        vec![
            "-s",
            "20",
            "-d",
            "20",
            "-k",
            "BackSpace",
            "-k",
            "BackSpace",
            "-"
        ]
    );
}

#[test]
fn sway_gui_fallback_command_omits_delay() {
    let injector = test_sway_injector(20);
    let command = injector.replacement_command(2, true, 0);

    assert_eq!(
        command_args(&command),
        vec!["-k", "BackSpace", "-k", "BackSpace", "-"]
    );
}

#[test]
fn sway_paste_command_combines_backspaces_and_paste_shortcut() {
    let injector = test_sway_injector(20);
    let command = injector.paste_command(2, PasteMode::Gui);

    assert_eq!(
        command_args(&command),
        vec![
            "-s",
            "20",
            "-d",
            "20",
            "-k",
            "BackSpace",
            "-k",
            "BackSpace",
            "-s",
            "20",
            "-M",
            "ctrl",
            "-P",
            "v",
            "-p",
            "v",
            "-m",
            "ctrl"
        ]
    );
}

#[test]
fn sway_terminal_paste_command_uses_ctrl_shift_v() {
    let injector = test_sway_injector(20);
    let command = injector.paste_command(2, PasteMode::Terminal);

    assert_eq!(
        command_args(&command),
        vec![
            "-s",
            "20",
            "-d",
            "20",
            "-k",
            "BackSpace",
            "-k",
            "BackSpace",
            "-s",
            "20",
            "-M",
            "ctrl",
            "-M",
            "shift",
            "-P",
            "v",
            "-p",
            "v",
            "-m",
            "shift",
            "-m",
            "ctrl"
        ]
    );
}

#[test]
fn sway_terminal_identity_matches_common_terminal_nodes() {
    assert!(is_terminal_identity("Alacritty".to_string()));
    assert!(is_terminal_identity("org.wezfurlong.wezterm".to_string()));
    assert!(!is_terminal_identity("firefox\tBrowser".to_string()));
}

#[test]
fn text_mime_type_matches_wayland_text_offers() {
    assert!(is_text_mime_type("text/plain;charset=utf-8"));
    assert!(is_text_mime_type("UTF8_STRING"));
    assert!(!is_text_mime_type("image/png"));
}

#[derive(Debug, Clone, PartialEq, Eq)]
enum InjectOperation {
    Type(String),
    Backspace(usize),
}

#[derive(Clone, Default)]
struct FakeInjector {
    operations: Arc<Mutex<Vec<InjectOperation>>>,
}

impl TextInjector for FakeInjector {
    fn inject_text(&mut self, text: &str) -> Result<(), InjectError> {
        if !text.is_empty() {
            self.operations
                .lock()
                .unwrap()
                .push(InjectOperation::Type(text.to_string()));
        }
        Ok(())
    }

    fn erase_chars(&mut self, count: usize) -> Result<(), InjectError> {
        if count > 0 {
            self.operations
                .lock()
                .unwrap()
                .push(InjectOperation::Backspace(count));
        }
        Ok(())
    }

    fn should_show_listening_marker(&mut self) -> Result<bool, InjectError> {
        Ok(true)
    }

    fn press_enter(&mut self) -> Result<(), InjectError> {
        self.type_enter()
    }

    fn move_cursor_left(&mut self, count: usize) -> Result<(), InjectError> {
        moving_unsupported(count)
    }

    fn move_cursor_right(&mut self, count: usize) -> Result<(), InjectError> {
        moving_unsupported(count)
    }

    fn replace_tail(&mut self, erase_count: usize, text_suffix: &str) -> Result<(), InjectError> {
        self.erase_and_type(erase_count, text_suffix)
    }

    fn focused_window(&mut self) -> Result<Option<FocusedWindow>, InjectError> {
        Ok(None)
    }
}

#[derive(Clone, Default)]
struct TailReplacingInjector {
    replacements: Arc<Mutex<Vec<(usize, String)>>>,
}

fn test_sway_injector(delay_millis: u32) -> SwayTextInjector {
    SwayTextInjector {
        delay_millis,
        paste_settle_delay_ms: DEFAULT_PASTE_SETTLE_DELAY_MS,
        paste_in_terminals: false,
        sway_socket: "/run/user/1001/sway-ipc.1001.42.sock".to_string(),
        wayland_display: None,
    }
}

fn command_args(command: &CommandLine) -> Vec<String> {
    assert_eq!(command.program, "wtype");
    command.args.clone()
}

impl TextInjector for TailReplacingInjector {
    fn inject_text(&mut self, text: &str) -> Result<(), InjectError> {
        self.replace_tail(0, text)
    }

    fn replace_tail(&mut self, erase_count: usize, text_suffix: &str) -> Result<(), InjectError> {
        self.replacements
            .lock()
            .unwrap()
            .push((erase_count, text_suffix.to_string()));
        Ok(())
    }

    fn should_show_listening_marker(&mut self) -> Result<bool, InjectError> {
        Ok(true)
    }

    fn press_enter(&mut self) -> Result<(), InjectError> {
        self.type_enter()
    }

    fn erase_chars(&mut self, count: usize) -> Result<(), InjectError> {
        erasing_unsupported(count)
    }

    fn move_cursor_left(&mut self, count: usize) -> Result<(), InjectError> {
        moving_unsupported(count)
    }

    fn move_cursor_right(&mut self, count: usize) -> Result<(), InjectError> {
        moving_unsupported(count)
    }

    fn focused_window(&mut self) -> Result<Option<FocusedWindow>, InjectError> {
        Ok(None)
    }
}

#[test]
fn replacing_a_text_by_itself_does_nothing() {
    let injector = FakeInjector::default();
    let operations = injector.operations.clone();
    let mut session = SpeculativeTextSession::start(injector).unwrap();

    assert_eq!(session.replace_text("hello"), Ok(true));
    assert_eq!(session.replace_text("hello"), Ok(false));

    assert_eq!(session.inserted_text(), "hello");
    assert_eq!(operations.lock().unwrap().len(), 1);
}

#[test]
fn aborted_sessions_type_nothing() {
    let injector = FakeInjector::default();
    let operations = injector.operations.clone();
    let mut session = SpeculativeTextSession::start(injector).unwrap();
    session.replace_text("hello").unwrap();
    session.abort();
    assert!(session.is_aborted());

    let error = session.replace_text("hello world").unwrap_err();

    assert_eq!(
        error.message(),
        "dictation target is no longer safe for replacement"
    );
    assert_eq!(session.inserted_text(), "hello");
    assert_eq!(operations.lock().unwrap().len(), 1);
}

#[derive(Clone, Default)]
struct FocusedInjector {
    focus: Arc<Mutex<Option<u64>>>,
}

impl TextInjector for FocusedInjector {
    fn inject_text(&mut self, _text: &str) -> Result<(), InjectError> {
        Ok(())
    }

    fn focused_window(&mut self) -> Result<Option<FocusedWindow>, InjectError> {
        Ok((*self.focus.lock().unwrap()).map(FocusedWindow))
    }

    fn should_show_listening_marker(&mut self) -> Result<bool, InjectError> {
        Ok(true)
    }

    fn press_enter(&mut self) -> Result<(), InjectError> {
        self.type_enter()
    }

    fn erase_chars(&mut self, count: usize) -> Result<(), InjectError> {
        erasing_unsupported(count)
    }

    fn move_cursor_left(&mut self, count: usize) -> Result<(), InjectError> {
        moving_unsupported(count)
    }

    fn move_cursor_right(&mut self, count: usize) -> Result<(), InjectError> {
        moving_unsupported(count)
    }

    fn replace_tail(&mut self, erase_count: usize, text_suffix: &str) -> Result<(), InjectError> {
        self.erase_and_type(erase_count, text_suffix)
    }
}

#[test]
fn a_lost_focus_aborts_the_session() {
    let injector = FocusedInjector::default();
    let focus = injector.focus.clone();
    *focus.lock().unwrap() = Some(3);
    let mut session = SpeculativeTextSession::start(injector).unwrap();
    assert_eq!(session.replace_text("a"), Ok(true));

    *focus.lock().unwrap() = Some(4);
    assert_eq!(
        session.replace_text("ab").unwrap_err().message(),
        "focused desktop target changed from 3 to 4; aborting replacement"
    );
    *focus.lock().unwrap() = Some(3);
    assert!(session.replace_text("ab").is_err());

    let injector = FocusedInjector::default();
    let focus = injector.focus.clone();
    *focus.lock().unwrap() = Some(3);
    let mut session = SpeculativeTextSession::start(injector).unwrap();
    *focus.lock().unwrap() = None;
    assert_eq!(
        session.replace_text("a").unwrap_err().message(),
        "focused desktop target is unavailable; aborting replacement"
    );
    assert!(session.is_aborted());
}

#[test]
fn every_focus_gets_its_verdict() {
    let started = || {
        let injector = FocusedInjector::default();
        *injector.focus.lock().unwrap() = Some(3);
        SpeculativeTextSession::start(injector).unwrap()
    };

    let mut session = started();
    assert_eq!(session.judge_focus(Ok(Some(FocusedWindow(3)))), Ok(()));
    let unsupported = InjectError::EraseUnsupported { count: 1 };
    assert_eq!(
        session.judge_focus(Err(InjectError::EraseUnsupported { count: 1 })),
        Err(unsupported)
    );
    assert!(!session.is_aborted());
    assert_eq!(
        session.judge_focus(Ok(Some(FocusedWindow(4)))),
        Err(InjectError::FocusChanged { from: 3, to: 4 })
    );
    assert!(session.is_aborted());
    assert_eq!(
        session.judge_focus(Ok(Some(FocusedWindow(3)))),
        Err(InjectError::TargetUnsafe)
    );

    let mut session = started();
    assert_eq!(
        session.judge_focus(Ok(None)),
        Err(InjectError::FocusUnavailable)
    );
    assert!(session.is_aborted());

    let mut session = SpeculativeTextSession::start(FakeInjector::default()).unwrap();
    assert_eq!(session.judge_focus(Ok(Some(FocusedWindow(9)))), Ok(()));
    assert_eq!(session.judge_focus(Ok(None)), Ok(()));
}

#[test]
fn plans_erase_what_differs_and_type_the_rest() {
    let mut session = SpeculativeTextSession::start(FakeInjector::default()).unwrap();
    let plan = |erase: usize, suffix: &str| EditPlan {
        erase,
        suffix: suffix.to_string(),
    };
    assert_eq!(session.edit_plan("hello"), plan(0, "hello"));
    session.replace_text("hello win").unwrap();
    assert_eq!(session.edit_plan("hello world"), plan(2, "orld"));
    assert_eq!(session.edit_plan("hello win"), plan(0, ""));
    assert_eq!(session.edit_plan(""), plan(9, ""));
}

#[test]
fn sessions_edit_once_they_are_opened() {
    let injector = FakeInjector::default();
    let operations = injector.operations.clone();
    let mut session = SpeculativeTextSession::unopened(injector);
    assert_eq!(session.replace_text("a"), Err(InjectError::TargetUnsafe));
    assert!(operations.lock().unwrap().is_empty());

    session.open().unwrap();
    assert_eq!(session.replace_text("a"), Ok(true));
    session.open().unwrap();
    assert_eq!(session.inserted_text(), "");
    assert_eq!(session.replace_text("b"), Ok(true));
    assert_eq!(
        *operations.lock().unwrap(),
        vec![
            InjectOperation::Type("a".to_string()),
            InjectOperation::Type("b".to_string()),
        ]
    );
}

#[test]
fn tails_are_erased_before_they_are_typed() {
    let mut injector = FakeInjector::default();
    assert_eq!(injector.erase_and_type(2, "x"), Ok(()));
    assert_eq!(injector.type_enter(), Ok(()));
    assert_eq!(
        *injector.operations.lock().unwrap(),
        vec![
            InjectOperation::Backspace(2),
            InjectOperation::Type("x".to_string()),
            InjectOperation::Type("\n".to_string()),
        ]
    );
    assert_eq!(
        FocusedInjector::default().erase_and_type(2, "x"),
        Err(InjectError::EraseUnsupported { count: 2 })
    );
    assert_eq!(
        moving_unsupported(3),
        Err(InjectError::CursorUnsupported { count: 3 })
    );
    assert_eq!(moving_unsupported(0), Ok(()));
}

#[test]
fn injectors_that_cannot_erase_say_so() {
    let mut injector = FocusedInjector::default();
    assert_eq!(injector.erase_chars(0), Ok(()));
    assert_eq!(
        injector.erase_chars(2),
        Err(InjectError::EraseUnsupported { count: 2 })
    );
    assert_eq!(injector.should_show_listening_marker(), Ok(true));
    assert!(injector.replace_tail(1, "x").is_err());
    assert_eq!(injector.replace_tail(0, "x"), Ok(()));
    assert_eq!(injector.press_enter(), Ok(()));
}

#[test]
fn common_prefixes_are_counted_in_characters() {
    assert_eq!(common_prefix_len("", "abc"), 0);
    assert_eq!(common_prefix_len("héllo", "hélas"), 3);
    assert_eq!(common_prefix_len("abc", "abc"), 3);
}

#[test]
fn desktop_injectors_keep_their_options() {
    let injector = DesktopTextInjector::new(5);
    assert_eq!(injector.delay_microsecs(), 5);
    assert_eq!(
        injector.paste_settle_delay_ms(),
        DEFAULT_PASTE_SETTLE_DELAY_MS
    );
    assert!(!injector.paste_in_terminals());
    let injector = DesktopTextInjector::new_with_paste_settle_delay(0, 9);
    assert_eq!(injector.paste_settle_delay_ms(), 9);
    let injector = DesktopTextInjector::new_with_options(1, 2, true);
    assert!(injector.paste_in_terminals());
    assert_eq!(DesktopTextInjector::default().delay_microsecs(), 0);
}

#[test]
fn sway_is_detected_by_its_socket() {
    let text = |value: &str| Some(value.to_string());
    assert!(SwayTextInjector::detect(0, 0, false, None, text("wayland-1"), None).is_none());

    let injector =
        SwayTextInjector::detect(1_001, 7, true, text("/run/sway.sock"), text(""), text("w2"))
            .unwrap();
    assert_eq!(injector.delay_millis, 2);
    assert_eq!(injector.paste_settle_delay_ms, 7);
    assert!(injector.paste_in_terminals);
    assert_eq!(injector.sway_socket, "/run/sway.sock");
    assert_eq!(injector.wayland_display, text("w2"));
    let injector =
        SwayTextInjector::detect(0, 0, false, text("/run/sway.sock"), text("w1"), text("w2"))
            .unwrap();
    assert_eq!(injector.delay_millis, 0);
    assert_eq!(injector.wayland_display, text("w1"));
    let tree = injector.tree_command();
    assert_eq!(tree.program, "swaymsg");
    assert_eq!(tree.args, ["-s", "/run/sway.sock", "-r", "-t", "get_tree"]);
}

#[test]
fn the_newest_socket_is_the_last_changed_one() {
    let socket = |path: &str, modified: Option<i128>| SocketEntry {
        path: path.to_string(),
        modified,
    };
    assert_eq!(newest_socket(&vec![]), None);
    assert_eq!(
        newest_socket(&vec![
            socket("a", Some(5)),
            socket("b", Some(9)),
            socket("c", None),
            socket("d", Some(9)),
            socket("e", Some(7)),
        ]),
        Some("d".to_string())
    );
    assert_eq!(
        newest_socket(&vec![socket("a", None), socket("b", None)]),
        Some("b".to_string())
    );
    assert!(is_sway_socket_name("sway-ipc.1001.42.sock"));
    assert!(!is_sway_socket_name("wayland-1"));
}

#[test]
fn displays_are_found_in_environments() {
    let entries = environ_entries(b"HOME=/root\0BAD=\xff\0WAYLAND_DISPLAY=wayland-1\0");
    assert_eq!(
        entries,
        ["HOME=/root", "WAYLAND_DISPLAY=wayland-1", ""]
    );
    assert_eq!(
        display_from_environ(&entries),
        Some("wayland-1".to_string())
    );
    assert_eq!(
        display_from_environ(&environ_entries(b"WAYLAND_DISPLAY=\0WAYLAND_DISPLAY=x")),
        None
    );
    assert_eq!(display_from_environ(&environ_entries(b"")), None);
}

fn terminal_tree(app_id: &str) -> Json {
    Json::parse(&format!(
        "{{\"nodes\":[{{\"id\":9,\"focused\":true,\"app_id\":\"{app_id}\",\"name\":\"tab\"}}]}}"
    ))
    .unwrap()
}

#[test]
fn terminals_are_known_by_their_window() {
    assert!(focused_target_is_terminal(&terminal_tree("foot")));
    assert!(!focused_target_is_terminal(&terminal_tree("firefox")));
    assert_eq!(
        focused_window(&terminal_tree("foot")),
        Some(FocusedWindow(9))
    );
    let node = Json::parse(
        r#"{"app_id": "", "window_properties": {"class": "XTerm"}, "name": "shell"}"#,
    )
    .unwrap();
    assert_eq!(sway_node_identity(&node), Some("XTerm\tshell".to_string()));
    assert_eq!(sway_node_identity(&Json::parse("{}").unwrap()), None);
}

#[test]
fn suffixes_are_pasted_or_typed_by_target() {
    let mut injector = test_sway_injector(20);
    assert_eq!(
        injector.paste_mode_for_suffix("", &terminal_tree("firefox")),
        None
    );
    assert_eq!(
        injector.paste_mode_for_suffix("x", &terminal_tree("firefox")),
        Some(PasteMode::Gui)
    );
    assert_eq!(
        injector.paste_mode_for_suffix("x", &terminal_tree("foot")),
        None
    );
    assert!(injector.shows_listening_marker(&terminal_tree("foot")));
    injector.paste_in_terminals = true;
    assert_eq!(
        injector.paste_mode_for_suffix("x", &terminal_tree("foot")),
        Some(PasteMode::Terminal)
    );
    assert!(!injector.shows_listening_marker(&terminal_tree("foot")));
    assert_eq!(injector.typed_delay_millis(None), 20);
    assert_eq!(injector.typed_delay_millis(Some(PasteMode::Gui)), 0);
    injector.paste_settle_delay_ms = 5;
    assert_eq!(injector.paste_delivery_delay_ms(), 20);
    injector.paste_settle_delay_ms = 50;
    assert_eq!(injector.paste_delivery_delay_ms(), 50);
}

#[test]
fn typing_follows_where_pasting_did_not_work() {
    let injector = test_sway_injector(20);
    let gui = Some(PasteMode::Gui);
    assert!(injector
        .typed_replacement(2, "x", gui, PasteOutcome::Delivered)
        .is_none());
    for outcome in [PasteOutcome::Occupied, PasteOutcome::Failed] {
        assert_eq!(
            injector.typed_replacement(1, "x", gui, outcome).unwrap().args,
            ["-k", "BackSpace", "-"]
        );
    }
    assert_eq!(
        injector
            .typed_replacement(0, "x", None, PasteOutcome::Failed)
            .unwrap()
            .args,
        ["-s", "20", "-d", "20", "-"]
    );
    assert!(injector
        .typed_replacement(0, "", None, PasteOutcome::Failed)
        .is_none());
    assert!(injector.key_command("Return", 0).is_none());
    assert_eq!(
        test_sway_injector(0).key_command("Return", 1).unwrap().args,
        ["-k", "Return"]
    );
}

#[test]
fn clipboards_are_kept_where_they_hold_text() {
    assert_eq!(clipboard_offer(""), ClipboardOffer::Empty);
    assert_eq!(clipboard_offer("image/png\n"), ClipboardOffer::NonText);
    assert_eq!(
        clipboard_offer("image/png\nTEXT\n"),
        ClipboardOffer::Text
    );
    assert_eq!(copy_retry_delay_ms(0), Some(25));
    assert_eq!(copy_retry_delay_ms(1), Some(50));
    assert_eq!(copy_retry_delay_ms(2), None);
}
