//! Reading text aloud.

use vstd::prelude::*;
use vstd::string::*;

use crate::single::Single;
use crate::text;

verus! {

/// How long a player has to end before it is ended by force, in milliseconds.
pub const PLAYBACK_STOP_GRACE: u64 = 150;

/// The signal that asks a process to end.
pub const SIGNAL_TERMINATE: i32 = 15;

/// The signal that ends a process.
pub const SIGNAL_KILL: i32 = 9;

/// How text is spoken.
#[derive(Debug, Clone, PartialEq, Eq)]
pub struct SpeechOptions {
    pub model: String,
    pub voice: String,
    pub speed: Single,
    pub response_format: String,
}

/// Why text could not be read aloud.
#[derive(Debug, Clone, PartialEq, Eq)]
pub enum TtsError {
    /// There is nothing to read.
    EmptyInput,
    /// Neither is text selected nor is any on the clipboard.
    NoSelection,
    /// What reading the selection or the clipboard reports.
    Selection(String),
    /// The server refused.
    Http { status: String, body: String },
    /// The server sent no sound.
    EmptyAudio,
    /// The player failed.
    Player { player: String, status: String },
}

/// The text of a [`TtsError`].
pub open spec fn tts_error_text(error: TtsError) -> Seq<char> {
    match error {
        TtsError::EmptyInput => "read-aloud input is empty"@,
        TtsError::NoSelection => "no selected text or clipboard text available for read-aloud"@,
        TtsError::Selection(message) => message@,
        TtsError::Http { status, body } => "speech request failed with HTTP "@ + status@ + ": "@
            + body@,
        TtsError::EmptyAudio => "speech request returned an empty audio response"@,
        TtsError::Player { player, status } => "audio player "@ + player@ + " failed with "@
            + status@,
    }
}

impl TtsError {
    /// The text of this error.
    pub fn message(&self) -> (r: String)
        ensures
            r@ == tts_error_text(*self),
    {
        match self {
            TtsError::EmptyInput => "read-aloud input is empty".to_owned(),
            TtsError::NoSelection =>
                "no selected text or clipboard text available for read-aloud".to_owned(),
            TtsError::Selection(message) => message.clone(),
            TtsError::Http { status, body } => {
                let mut out = "speech request failed with HTTP ".to_owned();
                out.append(status.as_str());
                out.append(": ");
                out.append(body.as_str());
                out
            },
            TtsError::EmptyAudio => "speech request returned an empty audio response".to_owned(),
            TtsError::Player { player, status } => {
                let mut out = "audio player ".to_owned();
                out.append(player.as_str());
                out.append(" failed with ");
                out.append(status.as_str());
                out
            },
        }
    }
}

/// A text as it is read aloud: trimmed, or nothing if nothing is left.
pub fn normalize_read_aloud_text(text: &str) -> (r: Option<String>)
    ensures
        text::opt_view(r) == text::non_empty(text@),
{
    match text::non_empty_str(text) {
        Some(text) => Some(text.to_owned()),
        None => None,
    }
}

/// The text to read aloud; there must be some.
pub fn read_aloud_input(text: &str) -> (r: Result<String, TtsError>)
    ensures
        match r {
            Ok(input) => text::non_empty(text@) == Some(input@),
            Err(error) => text::non_empty(text@) is None && error == TtsError::EmptyInput,
        },
{
    match normalize_read_aloud_text(text) {
        Some(input) => Ok(input),
        None => Err(TtsError::EmptyInput),
    }
}

/// A request to speak a text.
#[derive(Debug, Clone, PartialEq, Eq)]
pub struct SpeechRequest {
    pub input: String,
    pub model: String,
    pub voice: String,
    pub speed: Single,
    pub response_format: String,
}

/// The request to speak a text; there must be some.
pub fn speech_request(text: &str, options: &SpeechOptions) -> (r: Result<SpeechRequest, TtsError>)
    ensures
        match r {
            Ok(request) => {
                &&& text::non_empty(text@) == Some(request.input@)
                &&& request.model@ == options.model@
                &&& request.voice@ == options.voice@
                &&& request.speed == options.speed
                &&& request.response_format@ == options.response_format@
            },
            Err(error) => text::non_empty(text@) is None && error == TtsError::EmptyInput,
        },
{
    match read_aloud_input(text) {
        Ok(input) => Ok(
            SpeechRequest {
                input,
                model: options.model.as_str().to_owned(),
                voice: options.voice.as_str().to_owned(),
                speed: options.speed,
                response_format: options.response_format.as_str().to_owned(),
            },
        ),
        Err(error) => Err(error),
    }
}

/// The text that a program printed, if it succeeded and printed any.
pub fn selection_text(succeeded: bool, output: Vec<u8>) -> (r: Option<String>)
    ensures
        text::opt_view(r) == if succeeded && vstd::utf8::valid_utf8(output@) {
            text::non_empty(vstd::utf8::decode_utf8(output@))
        } else {
            None
        },
{
    if !succeeded {
        return None;
    }
    match text::text_from_utf8(output) {
        Some(text) => normalize_read_aloud_text(text.as_str()),
        None => None,
    }
}

/// What is done once the selection was read.
#[derive(Debug, Clone, PartialEq, Eq)]
pub enum SelectionStep {
    /// Its text is read aloud.
    Use(String),
    /// The clipboard is read; the failure to read the selection is kept.
    TryClipboard(Option<String>),
}

/// What is done once the selection was read.
pub fn after_primary_selection(primary: Result<Option<String>, String>) -> (r: SelectionStep)
    ensures
        r == match primary {
            Ok(Some(text)) => SelectionStep::Use(text),
            Ok(None) => SelectionStep::TryClipboard(None),
            Err(error) => SelectionStep::TryClipboard(Some(error)),
        },
{
    match primary {
        Ok(Some(text)) => SelectionStep::Use(text),
        Ok(None) => SelectionStep::TryClipboard(None),
        Err(error) => SelectionStep::TryClipboard(Some(error)),
    }
}

/// The text to read aloud once the clipboard was read. Where it is empty, a failure to read the
/// selection comes first.
pub fn after_clipboard_selection(
    primary_error: Option<String>,
    clipboard: Result<Option<String>, String>,
) -> (r: Result<String, TtsError>)
    ensures
        r == match clipboard {
            Ok(Some(text)) => Ok::<String, TtsError>(text),
            Ok(None) => match primary_error {
                Some(error) => Err(TtsError::Selection(error)),
                None => Err(TtsError::NoSelection),
            },
            Err(error) => Err(TtsError::Selection(error)),
        },
{
    match clipboard {
        Ok(Some(text)) => Ok(text),
        Ok(None) => match primary_error {
            Some(error) => Err(TtsError::Selection(error)),
            None => Err(TtsError::NoSelection),
        },
        Err(error) => Err(TtsError::Selection(error)),
    }
}

/// The sound in the answer of the server; there must be some.
pub fn speech_audio(
    succeeded: bool,
    status: &str,
    audio: Vec<u8>,
    body: &str,
) -> (r: Result<Vec<u8>, TtsError>)
    ensures
        if !succeeded {
            r matches Err(TtsError::Http { status: s, body: b }) && s@ == status@ && b@ == body@
        } else if audio@.len() == 0 {
            r == Err::<Vec<u8>, TtsError>(TtsError::EmptyAudio)
        } else {
            r == Ok::<Vec<u8>, TtsError>(audio)
        },
{
    if !succeeded {
        return Err(TtsError::Http { status: status.to_owned(), body: body.to_owned() });
    }
    if audio.len() == 0 {
        return Err(TtsError::EmptyAudio);
    }
    Ok(audio)
}

/// Whether a character is an ASCII letter or digit.
pub open spec fn ascii_alphanumeric(c: char) -> bool {
    ('0' <= c && c <= '9') || ('a' <= c && c <= 'z') || ('A' <= c && c <= 'Z')
}

/// The first `n` ASCII letters and digits of a text.
pub open spec fn first_alphanumerics(s: Seq<char>, n: nat) -> Seq<char>
    decreases s.len(),
{
    if s.len() == 0 || n == 0 {
        seq![]
    } else if ascii_alphanumeric(s[0]) {
        seq![s[0]] + first_alphanumerics(s.drop_first(), (n - 1) as nat)
    } else {
        first_alphanumerics(s.drop_first(), n)
    }
}

/// A text without the dots at its start.
pub open spec fn without_start_dots(s: Seq<char>) -> Seq<char>
    decreases s.len(),
{
    if s.len() > 0 && s[0] == '.' {
        without_start_dots(s.drop_first())
    } else {
        s
    }
}

/// The file extension for a format in lower case: its first letters and digits, or else `audio`.
pub open spec fn extension_of(lower: Seq<char>) -> Seq<char> {
    let letters = first_alphanumerics(lower, 12);
    if letters.len() == 0 {
        "audio"@
    } else {
        letters
    }
}

/// The file extension for a format in lower case.
pub fn sanitized_extension(lower: &str) -> (r: String)
    ensures
        r@ == extension_of(lower@),
{
    let chars = text::chars_of(lower);
    let len: usize = chars.len();
    let mut out = String::new();
    let mut count: usize = 0;
    let mut i: usize = 0;
    proof {
        assert(lower@.skip(0) =~= lower@);
        assert(out@ + first_alphanumerics(lower@, 12) =~= first_alphanumerics(lower@, 12));
    }
    while i < len && count < 12
        invariant
            i <= len == chars@.len(),
            chars@ == lower@,
            count <= 12,
            out@.len() == count,
            first_alphanumerics(lower@, 12) == out@ + first_alphanumerics(
                lower@.skip(i as int),
                (12 - count) as nat,
            ),
        decreases len - i,
    {
        let c = chars[i];
        let ghost rest = lower@.skip(i as int);
        let ghost before = out@;
        proof {
            assert(rest.drop_first() =~= lower@.skip(i + 1));
        }
        if ('0' <= c && c <= '9') || ('a' <= c && c <= 'z') || ('A' <= c && c <= 'Z') {
            out.push(c);
            proof {
                let tail = first_alphanumerics(lower@.skip(i + 1), (11 - count) as nat);
                assert(before + (seq![c] + tail) =~= out@ + tail);
            }
            count += 1;
        }
        i += 1;
    }
    proof {
        assert(out@ + first_alphanumerics(lower@.skip(i as int), (12 - count) as nat) =~= out@);
    }
    if count == 0 {
        "audio".to_owned()
    } else {
        out
    }
}

/// The file extension for a format.
pub fn speech_file_extension(response_format: &str) -> (r: String)
    ensures
        r@ == extension_of(
            text::lowercase(without_start_dots(text::trimmed(response_format@))),
        ),
{
    let name = text::trim(response_format);
    let len = name.unicode_len();
    let mut from: usize = 0;
    proof {
        assert(name@.skip(0) =~= name@);
    }
    while from < len && name.get_char(from) == '.'
        invariant
            from <= len == name@.len(),
            without_start_dots(name@) == without_start_dots(name@.skip(from as int)),
        decreases len - from,
    {
        proof {
            assert(name@.skip(from as int).drop_first() =~= name@.skip(from + 1));
        }
        from += 1;
    }
    let rest = name.substring_char(from, len);
    proof {
        assert(rest@ =~= name@.skip(from as int));
    }
    sanitized_extension(text::to_lowercase(rest).as_str())
}

/// The name of a file with spoken text.
pub fn speech_file_name(pid: u32, millis: u128, extension: &str) -> (r: String)
    ensures
        r@ == "speaches-companion-tts-"@ + text::decimal(pid as nat) + "-"@ + text::decimal(
            millis as nat,
        ) + "."@ + extension@,
{
    let mut out = "speaches-companion-tts-".to_owned();
    out.append(text::decimal_text(pid as u128).as_str());
    out.append("-");
    out.append(text::decimal_text(millis).as_str());
    out.append(".");
    out.append(extension);
    out
}

/// The files that tell of the player that runs.
#[derive(Debug, Clone, PartialEq, Eq)]
pub struct PlaybackState {
    pid_path: String,
    lock_path: String,
}

impl PlaybackState {
    /// The file that holds the player's process number.
    pub closed spec fn pid_file(&self) -> Seq<char> {
        self.pid_path@
    }

    /// The file that is locked while a player is started.
    pub closed spec fn lock_file(&self) -> Seq<char> {
        self.lock_path@
    }

    /// The files in a directory.
    pub fn in_dir(dir: &str) -> (r: Self)
        ensures
            r.pid_file() == text::joined_path(dir@, "read-aloud-player.pid"@),
            r.lock_file() == text::joined_path(dir@, "read-aloud-player.lock"@),
    {
        Self {
            pid_path: text::join_path(dir, "read-aloud-player.pid"),
            lock_path: text::join_path(dir, "read-aloud-player.lock"),
        }
    }

    /// The file that holds the player's process number.
    pub fn pid_path(&self) -> (r: &str)
        ensures
            r@ == self.pid_file(),
    {
        self.pid_path.as_str()
    }

    /// The file that is locked while a player is started.
    pub fn lock_path(&self) -> (r: &str)
        ensures
            r@ == self.lock_file(),
    {
        self.lock_path.as_str()
    }
}

/// The directory of these files: below the runtime directory of the user, or else below the
/// directory for temporary files, under the number of the user.
pub open spec fn playback_dir(
    runtime_dir: Option<Seq<char>>,
    temp_dir: Seq<char>,
    uid: u32,
) -> Seq<char> {
    if runtime_dir is Some && runtime_dir->0.len() > 0 {
        text::joined_path(runtime_dir->0, "speaches-companion"@)
    } else {
        text::joined_path(temp_dir, "speaches-companion-"@ + text::decimal(uid as nat))
    }
}

/// The directory of the files that tell of the player.
pub fn default_playback_dir(runtime_dir: Option<&str>, temp_dir: &str, uid: u32) -> (r: String)
    ensures
        r@ == playback_dir(text::opt_str_view(runtime_dir), temp_dir@, uid),
{
    if let Some(dir) = runtime_dir {
        if dir.unicode_len() > 0 {
            return text::join_path(dir, "speaches-companion");
        }
    }
    let mut name = "speaches-companion-".to_owned();
    name.append(text::decimal_text(uid as u128).as_str());
    text::join_path(temp_dir, name.as_str())
}

/// The process number in a file, if there is one.
pub open spec fn recorded_pid(contents: Seq<char>) -> Option<int> {
    match text::parsed_signed(text::trimmed(contents), i32::MAX as nat) {
        Some(pid) => if pid > 0 {
            Some(pid)
        } else {
            None
        },
        None => None,
    }
}

/// The process number in a file, if there is one.
pub fn parse_playback_pid(contents: &str) -> (r: Option<i32>)
    ensures
        match r {
            Some(pid) => recorded_pid(contents@) == Some(pid as int),
            None => recorded_pid(contents@) is None,
        },
{
    match text::parse_i32(text::trim(contents)) {
        Some(pid) => if pid > 0 {
            Some(pid)
        } else {
            None
        },
        None => None,
    }
}

/// What is written into the file for a process.
pub fn playback_pid_text(pid: i32) -> (r: String)
    requires
        pid >= 0,
    ensures
        r@ == text::decimal(pid as nat).push('\n'),
{
    let mut out = text::decimal_text(pid as u128);
    out.push('\n');
    out
}

/// Whether the file is removed once a player has ended: only if it still tells of that player.
pub fn removes_playback_pid(recorded: Option<i32>, pid: i32) -> (r: bool)
    ensures
        r == (recorded == Some(pid)),
{
    match recorded {
        Some(recorded) => recorded == pid,
        None => false,
    }
}

/// Whether a player was ended by a signal that asks it to.
pub fn playback_was_cancelled(signal: Option<i32>) -> (r: bool)
    ensures
        r == (signal == Some(SIGNAL_TERMINATE) || signal == Some(SIGNAL_KILL)),
{
    match signal {
        Some(signal) => signal == SIGNAL_TERMINATE || signal == SIGNAL_KILL,
        None => false,
    }
}

/// Whether a player did what it was to do: it succeeded, or it was asked to end.
pub fn ensure_player_success(player: &str, succeeded: bool, signal: Option<i32>, status: &str) -> (r:
    Result<(), TtsError>)
    ensures
        if succeeded || signal == Some(SIGNAL_TERMINATE) || signal == Some(SIGNAL_KILL) {
            r == Ok::<(), TtsError>(())
        } else {
            r matches Err(TtsError::Player { player: p, status: s }) && p@ == player@ && s@
                == status@
        },
{
    if succeeded || playback_was_cancelled(signal) {
        Ok(())
    } else {
        Err(TtsError::Player { player: player.to_owned(), status: status.to_owned() })
    }
}

/// The arguments of a player: its own, then the file.
pub fn player_command_args(player_args: &Vec<String>, path: &str) -> (r: Vec<String>)
    ensures
        text::views(r@) == text::views(player_args@).push(path@),
{
    let mut args = text::clone_texts(player_args);
    text::push_text(&mut args, path);
    args
}

/// A decimal notation is one or more digits, and its value is the number.
pub proof fn decimal_round_trip(n: nat)
    ensures
        text::is_number(text::decimal(n)),
        text::number_value(text::decimal(n)) == n,
    decreases n,
{
    if n >= 10 {
        decimal_round_trip(n / 10);
        let head = text::decimal(n / 10);
        let all = text::decimal(n);
        assert(all.drop_last() =~= head);
        assert forall|i: int| 0 <= i < all.len() implies text::is_digit_char(#[trigger] all[i]) by {
            if i < head.len() {
                assert(all[i] == head[i]);
            }
        }
    } else {
        reveal_with_fuel(text::number_value, 2);
        assert(text::decimal(n).drop_last() =~= seq![]);
    }
}

/// The process number that is written for a player is read back.
pub proof fn written_pids_are_read_back(pid: nat)
    requires
        0 < pid <= i32::MAX,
    ensures
        recorded_pid(text::decimal(pid).push('\n')) == Some(pid as int),
{
    let digits = text::decimal(pid);
    decimal_round_trip(pid);
    assert(text::is_digit_char(digits[0]));
    assert(text::is_digit_char(digits[digits.len() - 1]));
    let file = digits.push('\n');
    assert(file[0] == digits[0]);
    assert(file.last() == '\n');
    assert(file.drop_last() =~= digits);
    assert(text::trimmed(digits) == digits);
    assert(text::trimmed(file) == digits);
}

/// Letters and digits of ASCII are kept in their order up to a number, and all else is left out.
pub proof fn only_letters_and_digits_are_kept(s: Seq<char>, n: nat)
    ensures
        first_alphanumerics(s, n).len() <= n,
        forall|i: int|
            0 <= i < first_alphanumerics(s, n).len() ==> ascii_alphanumeric(
                #[trigger] first_alphanumerics(s, n)[i],
            ),
        s.len() <= n && (forall|i: int| 0 <= i < s.len() ==> ascii_alphanumeric(#[trigger] s[i]))
            ==> first_alphanumerics(s, n) == s,
    decreases s.len(),
{
    if s.len() > 0 && n > 0 {
        let rest = s.drop_first();
        let m = if ascii_alphanumeric(s[0]) {
            (n - 1) as nat
        } else {
            n
        };
        only_letters_and_digits_are_kept(rest, m);
        assert forall|i: int| 0 <= i < first_alphanumerics(s, n).len() implies ascii_alphanumeric(
            #[trigger] first_alphanumerics(s, n)[i],
        ) by {
            if ascii_alphanumeric(s[0]) && i > 0 {
                assert(first_alphanumerics(s, n)[i] == first_alphanumerics(rest, m)[i - 1]);
            }
        }
        if s.len() <= n && forall|i: int| 0 <= i < s.len() ==> ascii_alphanumeric(#[trigger] s[i]) {
            assert(ascii_alphanumeric(s[0]));
            assert forall|i: int| 0 <= i < rest.len() implies ascii_alphanumeric(
                #[trigger] rest[i],
            ) by {
                assert(rest[i] == s[i + 1]);
            }
            assert(seq![s[0]] + rest =~= s);
        }
    } else if s.len() == 0 {
        assert(first_alphanumerics(s, n) =~= s);
    }
}

/// A character that may not be kept changes nothing, and one that may is kept where there is room.
pub proof fn characters_are_kept_one_by_one(c: char, s: Seq<char>, n: nat)
    ensures
        !ascii_alphanumeric(c) ==> first_alphanumerics(seq![c] + s, n) == first_alphanumerics(s, n),
        ascii_alphanumeric(c) && n > 0 ==> first_alphanumerics(seq![c] + s, n) == seq![c]
            + first_alphanumerics(s, (n - 1) as nat),
        ascii_alphanumeric(c) <==> ('0' <= c && c <= '9') || ('a' <= c && c <= 'z') || ('A' <= c && c
            <= 'Z'),
{
    assert((seq![c] + s).drop_first() =~= s);
    if n == 0 {
        assert(first_alphanumerics(s, n) =~= seq![]);
    }
}

/// The extension of a file is never empty and never long: up to twelve letters and digits, or `audio`
/// where a format has none.
pub proof fn extensions_are_plain(lower: Seq<char>)
    ensures
        0 < extension_of(lower).len() <= 12,
        first_alphanumerics(lower, 12).len() == 0 ==> extension_of(lower) == "audio"@,
        first_alphanumerics(lower, 12).len() > 0 ==> extension_of(lower) == first_alphanumerics(
            lower,
            12,
        ),
        (forall|i: int| 0 <= i < extension_of(lower).len() ==> extension_of(lower)[i] != '/'),
{
    reveal_strlit("audio");
    only_letters_and_digits_are_kept(lower, 12);
    assert("audio"@.len() == 5);
    assert("audio"@[0] == 'a' && "audio"@[1] == 'u' && "audio"@[2] == 'd' && "audio"@[3] == 'i'
        && "audio"@[4] == 'o');
    assert forall|i: int| 0 <= i < extension_of(lower).len() implies extension_of(lower)[i] != '/' by {
        if first_alphanumerics(lower, 12).len() > 0 {
            assert(ascii_alphanumeric(first_alphanumerics(lower, 12)[i]));
        }
    }
}

/// Dots at the start are left out, and nothing else.
pub proof fn leading_dots_are_left_out(s: Seq<char>)
    ensures
        s.len() == 0 || s[0] != '.' ==> without_start_dots(s) == s,
        without_start_dots(seq!['.'] + s) == without_start_dots(s),
{
    assert((seq!['.'] + s).drop_first() =~= s);
}

/// The files that tell of the player are below the runtime directory of the user, or else below the
/// one for temporary files, apart for each user.
pub proof fn players_are_told_of_below_the_runtime_directory(
    dir: Seq<char>,
    temp_dir: Seq<char>,
    uid: u32,
)
    ensures
        dir.len() > 0 ==> playback_dir(Some(dir), temp_dir, uid) == text::joined_path(
            dir,
            "speaches-companion"@,
        ),
        playback_dir(Some(seq![]), temp_dir, uid) == playback_dir(None, temp_dir, uid),
        playback_dir(None, temp_dir, uid) == text::joined_path(
            temp_dir,
            "speaches-companion-"@ + text::decimal(uid as nat),
        ),
{
}

/// Only a number above zero is that of a process.
pub proof fn processes_have_positive_numbers(contents: Seq<char>)
    ensures
        recorded_pid(contents) matches Some(pid) ==> 0 < pid <= i32::MAX && text::parsed_signed(
            text::trimmed(contents),
            i32::MAX as nat,
        ) == Some(pid),
        text::parsed_signed(text::trimmed(contents), i32::MAX as nat) matches Some(pid) ==> (pid
            > 0 ==> recorded_pid(contents) == Some(pid)),
{
}

/// The message of an error ends with what is wrong, and names who failed.
pub proof fn errors_say_what_is_wrong(error: TtsError)
    ensures
        error matches TtsError::Selection(message) ==> tts_error_text(error) == message@,
        error matches TtsError::Http { status, body } ==> text::ends(tts_error_text(error), body@)
            && text::occurs(tts_error_text(error), status@),
        error matches TtsError::Player { player, status } ==> text::ends(
            tts_error_text(error),
            status@,
        ) && text::occurs(tts_error_text(error), player@),
{
    match error {
        TtsError::Http { status, body } => {
            let head = "speech request failed with HTTP "@;
            text::parts_are_found(head + status@ + ": "@, body@, body@);
            text::parts_are_found(head, status@, ": "@ + body@);
            assert(head + status@ + (": "@ + body@) =~= tts_error_text(error));
        },
        TtsError::Player { player, status } => {
            let head = "audio player "@;
            text::parts_are_found(head + player@ + " failed with "@, status@, status@);
            text::parts_are_found(head, player@, " failed with "@ + status@);
            assert(head + player@ + (" failed with "@ + status@) =~= tts_error_text(error));
        },
        _ => {},
    }
}

} // verus!
