//! The daemon that hotkeys talk to.

use vstd::prelude::*;
use vstd::string::*;

use crate::ipc;
use crate::ipc::{parse_command, IpcCommand, UnknownCommand};

verus! {

/// Whether the daemon is recording.
#[derive(Debug)]
pub struct DaemonState {
    recording: bool,
}

/// What the daemon answers to a command.
#[derive(Debug, Clone, Copy, PartialEq, Eq, Structural)]
pub enum DaemonResponse {
    Started,
    AlreadyRecording,
    Stopped,
    AlreadyIdle,
}

/// What acts on hotkeys.
pub trait HotkeyHandler: Send + Sized {
    /// Why a hotkey could not be served.
    type Failure;

    open spec fn hotkey_reply(
        &self,
        command: IpcCommand,
        after: Self,
        reply: Result<DaemonResponse, Self::Failure>,
    ) -> bool {
        true
    }

    /// Acts on a hotkey.
    fn handle_hotkey(&mut self, command: IpcCommand) -> (r: Result<DaemonResponse, Self::Failure>)
        ensures
            old(self).hotkey_reply(command, *final(self), r),
    ;
}

/// The text of a response.
pub open spec fn response_name(response: DaemonResponse) -> Seq<char> {
    match response {
        DaemonResponse::Started => "started"@,
        DaemonResponse::AlreadyRecording => "already-recording"@,
        DaemonResponse::Stopped => "stopped"@,
        DaemonResponse::AlreadyIdle => "already-idle"@,
    }
}

impl DaemonResponse {
    /// The text of a response.
    pub fn as_str(self) -> (r: &'static str)
        ensures
            r@ == response_name(self),
    {
        match self {
            DaemonResponse::Started => "started",
            DaemonResponse::AlreadyRecording => "already-recording",
            DaemonResponse::Stopped => "stopped",
            DaemonResponse::AlreadyIdle => "already-idle",
        }
    }
}

/// Whether a daemon records after a command.
pub open spec fn recording_after(command: IpcCommand) -> bool {
    command == IpcCommand::HotkeyDown
}

/// What a daemon answers to a command.
pub open spec fn response_to(recording: bool, command: IpcCommand) -> DaemonResponse {
    match command {
        IpcCommand::HotkeyDown => if recording {
            DaemonResponse::AlreadyRecording
        } else {
            DaemonResponse::Started
        },
        IpcCommand::HotkeyUp => if recording {
            DaemonResponse::Stopped
        } else {
            DaemonResponse::AlreadyIdle
        },
    }
}

impl Default for DaemonState {
    fn default() -> (r: Self)
        ensures
            !r@,
    {
        DaemonState { recording: false }
    }
}

impl DaemonState {
    /// Whether the daemon is recording.
    pub closed spec fn view(&self) -> bool {
        self.recording
    }

    /// Whether the daemon is recording.
    pub fn is_recording(&self) -> (r: bool)
        ensures
            r == self@,
    {
        self.recording
    }

    /// Acts on a command.
    pub fn handle(&mut self, command: IpcCommand) -> (r: DaemonResponse)
        ensures
            final(self)@ == recording_after(command),
            r == response_to(old(self)@, command),
    {
        match command {
            IpcCommand::HotkeyDown => {
                if self.recording {
                    DaemonResponse::AlreadyRecording
                } else {
                    self.recording = true;
                    DaemonResponse::Started
                }
            },
            IpcCommand::HotkeyUp => {
                if self.recording {
                    self.recording = false;
                    DaemonResponse::Stopped
                } else {
                    DaemonResponse::AlreadyIdle
                }
            },
        }
    }
}

/// A repeated command changes nothing, and the answer says so.
pub proof fn repeated_commands_change_nothing(recording: bool, command: IpcCommand)
    ensures
        ({
            let again = response_to(recording_after(command), command);
            again == if command == IpcCommand::HotkeyDown {
                DaemonResponse::AlreadyRecording
            } else {
                DaemonResponse::AlreadyIdle
            }
        }),
{
}

/// Whatever the state, going down and up leaves the daemon idle, and the way up reports a stop.
pub proof fn down_and_up_leave_the_daemon_idle(recording: bool)
    ensures
        response_to(recording_after(IpcCommand::HotkeyDown), IpcCommand::HotkeyUp)
            == DaemonResponse::Stopped,
        !recording_after(IpcCommand::HotkeyUp),
{
}

/// Why a client got no answer.
#[derive(Debug)]
pub enum ClientError<F> {
    /// The request was no command.
    Unknown(UnknownCommand),
    /// The command could not be served.
    Failed(F),
}

/// Serves the request of a client. The answer is the text of the response, ended by a newline.
pub fn answer_client<H: HotkeyHandler>(handler: &mut H, request: &str) -> (r: Result<
    String,
    ClientError<H::Failure>,
>)
    ensures
        match ipc::parsed_command(request@) {
            None => *final(handler) == *old(handler) && (r matches Err(ClientError::Unknown(error))
                && error.command@ == crate::text::trimmed(request@)),
            Some(command) => match r {
                Ok(line) => exists|response: DaemonResponse|
                    line@ == response_name(response).push('\n') && #[trigger] old(
                        handler,
                    ).hotkey_reply(command, *final(handler), Ok(response)),
                Err(ClientError::Failed(error)) => old(handler).hotkey_reply(
                    command,
                    *final(handler),
                    Err(error),
                ),
                Err(ClientError::Unknown(_)) => false,
            },
        },
{
    match parse_command(request) {
        Err(error) => Err(ClientError::Unknown(error)),
        Ok(command) => match handler.handle_hotkey(command) {
            Ok(response) => {
                let mut line = response.as_str().to_owned();
                line.push('\n');
                Ok(line)
            },
            Err(error) => Err(ClientError::Failed(error)),
        },
    }
}

/// What stands at the path of the daemon's socket before it is bound.
#[derive(Debug, Clone, Copy, PartialEq, Eq, Structural)]
pub enum SocketPathState {
    Missing,
    Socket,
    Other,
}

/// What is done about it.
#[derive(Debug, Clone, Copy, PartialEq, Eq, Structural)]
pub enum SocketPreparation {
    Nothing,
    RemoveStaleSocket,
    Refuse,
}

/// What is done about what stands at the path of the daemon's socket: an old socket is removed,
/// anything else is left alone and keeps the daemon from starting.
pub fn prepare_socket(state: SocketPathState) -> (r: SocketPreparation)
    ensures
        r == match state {
            SocketPathState::Missing => SocketPreparation::Nothing,
            SocketPathState::Socket => SocketPreparation::RemoveStaleSocket,
            SocketPathState::Other => SocketPreparation::Refuse,
        },
{
    match state {
        SocketPathState::Missing => SocketPreparation::Nothing,
        SocketPathState::Socket => SocketPreparation::RemoveStaleSocket,
        SocketPathState::Other => SocketPreparation::Refuse,
    }
}

/// A hotkey that goes down starts a recording where none runs, and one that comes up stops it; the
/// daemon records exactly between the two.
pub proof fn hotkeys_start_and_stop(recording: bool)
    ensures
        response_to(false, IpcCommand::HotkeyDown) == DaemonResponse::Started,
        response_to(true, IpcCommand::HotkeyDown) == DaemonResponse::AlreadyRecording,
        response_to(true, IpcCommand::HotkeyUp) == DaemonResponse::Stopped,
        response_to(false, IpcCommand::HotkeyUp) == DaemonResponse::AlreadyIdle,
        recording_after(IpcCommand::HotkeyDown),
        !recording_after(IpcCommand::HotkeyUp),
{
}

/// Each response has a text of its own, which trimming leaves as it is.
pub proof fn responses_are_told_apart(a: DaemonResponse, b: DaemonResponse)
    ensures
        response_name(a) == response_name(b) ==> a == b,
{
    reveal_strlit("started");
    reveal_strlit("already-recording");
    reveal_strlit("stopped");
    reveal_strlit("already-idle");
    assert("started"@.len() == 7 && "stopped"@.len() == 7);
    assert("already-recording"@.len() == 17);
    assert("already-idle"@.len() == 12);
    assert("started"@[2] == 'a' && "stopped"@[2] == 'o');
}

} // verus!
