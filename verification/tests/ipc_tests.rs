use speaches_companion::daemon::{
    answer_client, prepare_socket, ClientError, DaemonResponse, DaemonState, HotkeyHandler,
    SocketPathState, SocketPreparation,
};
use speaches_companion::ipc::{
    command_line, default_socket_path, parse_command, request_text, response_text, IpcCommand,
};
use speaches_companion::settings::connection_error;

#[test]
fn ipc_command_lines_match_i3_hotkey_commands() {
    assert_eq!(command_line(IpcCommand::HotkeyDown), "hotkey down");
    assert_eq!(command_line(IpcCommand::HotkeyUp), "hotkey up");
}

#[test]
fn parses_hotkey_commands_from_i3_clients() {
    assert_eq!(
        parse_command("hotkey down\n").unwrap(),
        IpcCommand::HotkeyDown
    );
    assert_eq!(parse_command(" hotkey up ").unwrap(), IpcCommand::HotkeyUp);
    assert!(parse_command("hotkey repeat").is_err());
}

#[test]
fn daemon_state_is_idempotent_for_repeated_down_and_up() {
    let mut state = DaemonState::default();

    assert_eq!(
        state.handle(IpcCommand::HotkeyDown),
        DaemonResponse::Started
    );
    assert!(state.is_recording());
    assert_eq!(
        state.handle(IpcCommand::HotkeyDown),
        DaemonResponse::AlreadyRecording
    );
    assert!(state.is_recording());
    assert_eq!(state.handle(IpcCommand::HotkeyUp), DaemonResponse::Stopped);
    assert!(!state.is_recording());
    assert_eq!(
        state.handle(IpcCommand::HotkeyUp),
        DaemonResponse::AlreadyIdle
    );
}

#[test]
fn response_strings_are_stable_for_i3_clients() {
    assert_eq!(DaemonResponse::Started.as_str(), "started");
    assert_eq!(
        DaemonResponse::AlreadyRecording.as_str(),
        "already-recording"
    );
    assert_eq!(DaemonResponse::Stopped.as_str(), "stopped");
    assert_eq!(DaemonResponse::AlreadyIdle.as_str(), "already-idle");
}

#[test]
fn default_socket_path_uses_runtime_directory_when_available() {
    let path = default_socket_path(Some("/run/user/1000"));
    assert_eq!(path, "/run/user/1000/speaches-companion.sock");

    for runtime_dir in [None, Some(""), Some("relative")] {
        let path = default_socket_path(runtime_dir);
        assert!(path.ends_with("speaches-companion.sock"));
        assert!(path.starts_with('/'));
    }
}

#[test]
fn hotkey_client_sends_command_to_unix_socket() {
    assert_eq!(request_text(IpcCommand::HotkeyDown), "hotkey down\n");
    assert_eq!(request_text(IpcCommand::HotkeyUp), "hotkey up\n");
    assert_eq!(response_text(""), "");
    assert_eq!(response_text("started\n"), "started");
}

#[test]
fn requests_are_read_back_as_the_commands_they_are() {
    for command in [IpcCommand::HotkeyDown, IpcCommand::HotkeyUp] {
        assert_eq!(parse_command(&request_text(command)), Ok(command));
    }
}

#[test]
fn unknown_commands_are_named() {
    let error = parse_command("  hotkey sideways \n").unwrap_err();
    assert_eq!(error.message(), "unknown trec IPC command: hotkey sideways");
}

struct Recorder {
    state: DaemonState,
    broken: bool,
}

impl HotkeyHandler for Recorder {
    type Failure = String;

    fn handle_hotkey(&mut self, command: IpcCommand) -> Result<DaemonResponse, String> {
        if self.broken {
            Err("microphone is gone".to_string())
        } else {
            Ok(self.state.handle(command))
        }
    }
}

#[test]
fn clients_are_answered_line_by_line() {
    let mut recorder = Recorder {
        state: DaemonState::default(),
        broken: false,
    };
    assert_eq!(
        answer_client(&mut recorder, "hotkey down\n").ok(),
        Some("started\n".to_string())
    );
    assert_eq!(
        answer_client(&mut recorder, "hotkey up").ok(),
        Some("stopped\n".to_string())
    );
    match answer_client(&mut recorder, "stop") {
        Err(ClientError::Unknown(error)) => assert_eq!(error.command, "stop"),
        _ => panic!("an unknown command was served"),
    }

    recorder.broken = true;
    match answer_client(&mut recorder, "hotkey down") {
        Err(ClientError::Failed(error)) => assert_eq!(error, "microphone is gone"),
        _ => panic!("a failure was not passed on"),
    }
}

#[test]
fn only_sockets_are_removed_from_the_socket_path() {
    assert!(matches!(
        prepare_socket(SocketPathState::Missing),
        SocketPreparation::Nothing
    ));
    assert!(matches!(
        prepare_socket(SocketPathState::Socket),
        SocketPreparation::RemoveStaleSocket
    ));
    assert!(matches!(
        prepare_socket(SocketPathState::Other),
        SocketPreparation::Refuse
    ));
}

#[test]
fn connection_errors_name_the_socket() {
    let message = connection_error("/run/user/1000/speaches-companion.sock", "refused");
    assert_eq!(
        message,
        "failed to connect to speaches-companion daemon at \
         /run/user/1000/speaches-companion.sock: refused"
    );
}
