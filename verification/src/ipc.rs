//! The commands that a hotkey sends to the daemon.

use vstd::prelude::*;
use vstd::string::*;

use crate::text;

verus! {

/// A command to the daemon.
#[derive(Debug, Clone, Copy, PartialEq, Eq, Structural)]
pub enum IpcCommand {
    HotkeyDown,
    HotkeyUp,
}

/// A line that is no command, trimmed.
#[derive(Debug, Clone, PartialEq, Eq)]
pub struct UnknownCommand {
    pub command: String,
}

/// The name of the daemon's socket.
pub const SOCKET_NAME: &'static str = "speaches-companion.sock";

/// The line of a command.
pub open spec fn line_of(command: IpcCommand) -> Seq<char> {
    match command {
        IpcCommand::HotkeyDown => "hotkey down"@,
        IpcCommand::HotkeyUp => "hotkey up"@,
    }
}

/// The command of a line, whatever white space stands round it.
pub open spec fn parsed_command(line: Seq<char>) -> Option<IpcCommand> {
    if text::trimmed(line) == "hotkey down"@ {
        Some(IpcCommand::HotkeyDown)
    } else if text::trimmed(line) == "hotkey up"@ {
        Some(IpcCommand::HotkeyUp)
    } else {
        None
    }
}

impl UnknownCommand {
    /// The text of this error.
    pub fn message(&self) -> (r: String)
        ensures
            r@ == "unknown trec IPC command: "@ + self.command@,
    {
        let mut out = "unknown trec IPC command: ".to_owned();
        out.append(self.command.as_str());
        out
    }
}

/// The command of a line, whatever white space stands round it.
pub fn parse_command(line: &str) -> (r: Result<IpcCommand, UnknownCommand>)
    ensures
        match r {
            Ok(command) => parsed_command(line@) == Some(command),
            Err(error) => parsed_command(line@) is None && error.command@ == text::trimmed(line@),
        },
{
    let command = text::trim(line);
    if text::same_text(command, "hotkey down") {
        Ok(IpcCommand::HotkeyDown)
    } else if text::same_text(command, "hotkey up") {
        Ok(IpcCommand::HotkeyUp)
    } else {
        Err(UnknownCommand { command: command.to_owned() })
    }
}

/// The line of a command.
pub fn command_line(command: IpcCommand) -> (r: &'static str)
    ensures
        r@ == line_of(command),
{
    match command {
        IpcCommand::HotkeyDown => "hotkey down",
        IpcCommand::HotkeyUp => "hotkey up",
    }
}

/// What is sent to the daemon for a command: its line, ended by a newline.
pub fn request_text(command: IpcCommand) -> (r: String)
    ensures
        r@ == line_of(command).push('\n'),
{
    let mut out = command_line(command).to_owned();
    out.push('\n');
    out
}

/// The daemon's answer as the client prints it.
pub fn response_text(response: &str) -> (r: String)
    ensures
        r@ == text::trimmed(response@),
{
    text::trim(response).to_owned()
}

/// Where the daemon's socket is, given the runtime directory of the user.
pub open spec fn socket_path(runtime_dir: Option<Seq<char>>) -> Seq<char> {
    let base = match runtime_dir {
        Some(dir) => if text::absolute(dir) {
            dir
        } else {
            "/tmp"@
        },
        None => "/tmp"@,
    };
    text::joined_path(base, SOCKET_NAME@)
}

/// Where the daemon's socket is, given the runtime directory of the user: in that directory if
/// it is absolute, else in `/tmp`.
pub fn default_socket_path(runtime_dir: Option<&str>) -> (r: String)
    ensures
        r@ == socket_path(text::opt_str_view(runtime_dir)),
        text::absolute(r@),
{
    proof {
        reveal_strlit("/tmp");
    }
    let base = match runtime_dir {
        Some(dir) => if text::is_absolute(dir) {
            dir
        } else {
            "/tmp"
        },
        None => "/tmp",
    };
    text::join_path(base, SOCKET_NAME)
}

/// White space round a text that begins and ends without any is all that trimming removes.
pub proof fn trimming_removes_padding(before: Seq<char>, line: Seq<char>, after: Seq<char>)
    requires
        forall|i: int| 0 <= i < before.len() ==> text::white_space(#[trigger] before[i]),
        forall|i: int| 0 <= i < after.len() ==> text::white_space(#[trigger] after[i]),
        line.len() > 0,
        !text::white_space(line[0]),
        !text::white_space(line.last()),
    ensures
        text::trimmed(before + line + after) == line,
    decreases before.len() + after.len(),
{
    let s = before + line + after;
    if before.len() > 0 {
        assert(s[0] == before[0]);
        assert(s.drop_first() =~= before.drop_first() + line + after);
        assert forall|i: int| 0 <= i < before.drop_first().len() implies text::white_space(
            #[trigger] before.drop_first()[i],
        ) by {
            assert(before.drop_first()[i] == before[i + 1]);
        }
        trimming_removes_padding(before.drop_first(), line, after);
    } else if after.len() > 0 {
        assert(s[0] == line[0]);
        assert(s.last() == after.last());
        assert(s.drop_last() =~= before + line + after.drop_last());
        trimming_removes_padding(before, line, after.drop_last());
    } else {
        assert(s =~= line);
    }
}

/// A command survives the way to the daemon: its line is read back as the command, with any
/// white space round it.
pub proof fn commands_survive_the_wire(command: IpcCommand, before: Seq<char>, after: Seq<char>)
    requires
        forall|i: int| 0 <= i < before.len() ==> text::white_space(#[trigger] before[i]),
        forall|i: int| 0 <= i < after.len() ==> text::white_space(#[trigger] after[i]),
    ensures
        parsed_command(before + line_of(command) + after) == Some(command),
{
    reveal_strlit("hotkey down");
    reveal_strlit("hotkey up");
    assert("hotkey down"@[0] == 'h');
    assert("hotkey up"@[0] == 'h');
    assert("hotkey down"@.len() == 11);
    assert("hotkey up"@.len() == 9);
    assert("hotkey down"@[10] == 'n');
    assert("hotkey up"@[8] == 'p');
    trimming_removes_padding(before, line_of(command), after);
}

/// A line is a command only if it is the line of that command, but for white space round it.
pub proof fn only_command_lines_are_commands(line: Seq<char>)
    ensures
        parsed_command(line) == Some(IpcCommand::HotkeyDown) <==> text::trimmed(line)
            == "hotkey down"@,
        parsed_command(line) == Some(IpcCommand::HotkeyUp) <==> text::trimmed(line)
            == "hotkey up"@,
        line_of(IpcCommand::HotkeyDown) == "hotkey down"@,
        line_of(IpcCommand::HotkeyUp) == "hotkey up"@,
{
    reveal_strlit("hotkey down");
    reveal_strlit("hotkey up");
    assert("hotkey down"@.len() == 11);
    assert("hotkey up"@.len() == 9);
}

/// The socket is in the runtime directory if that is absolute, else in the directory for temporary
/// files.
pub proof fn sockets_are_in_the_runtime_directory(dir: Seq<char>)
    ensures
        dir.len() > 0 && dir[0] == '/' ==> socket_path(Some(dir)) == text::joined_path(
            dir,
            "speaches-companion.sock"@,
        ),
        dir.len() == 0 || dir[0] != '/' ==> socket_path(Some(dir)) == socket_path(None),
        socket_path(None) == text::joined_path("/tmp"@, "speaches-companion.sock"@),
{
}

} // verus!
