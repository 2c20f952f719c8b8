//! Configuration: what the command line, the environment and the configuration file say, and which
//! of it counts.

use vstd::prelude::*;
use vstd::string::*;

use crate::environment;
use crate::environment::Environment;
use crate::single;
use crate::single::Single;
use crate::text;
use crate::wakeword::{OpenWakewordStockModel, WakewordEngine};

verus! {

pub const DEFAULT_BASE_URL: &'static str = "http://ono.tail:8000";

pub const DEFAULT_MODEL: &'static str = "Systran/faster-whisper-large-v3";

pub const DEFAULT_TTS_MODEL: &'static str = "tts-1";

pub const DEFAULT_TTS_PLAYER: &'static str = "pw-play";

pub const DEFAULT_TTS_RESPONSE_FORMAT: &'static str = "wav";

/// The bits of the default speed: one.
pub const DEFAULT_TTS_SPEED: u32 = 0x3f80_0000;

pub const DEFAULT_TTS_VOICE: &'static str = "en_US-lessac-medium";

/// How long a live session lasts by default, in seconds.
pub const DEFAULT_DURATION_SECONDS: u64 = 10;

/// What a configuration file says.
#[derive(Debug, Clone, Default, PartialEq, Eq)]
pub struct FileConfig {
    pub speaches: SpeachesFileConfig,
    pub stt: SttFileConfig,
    pub tts: TtsFileConfig,
    pub dictation: DictationFileConfig,
    pub wakeword: WakewordFileConfig,
}

/// What a configuration file says of the server.
#[derive(Debug, Clone, Default, PartialEq, Eq)]
pub struct SpeachesFileConfig {
    pub base_url: Option<String>,
}

/// What a configuration file says of transcription.
#[derive(Debug, Clone, Default, PartialEq, Eq)]
pub struct SttFileConfig {
    pub model: Option<String>,
    pub language: Option<String>,
}

/// What a configuration file says of reading aloud.
#[derive(Debug, Clone, Default, PartialEq, Eq)]
pub struct TtsFileConfig {
    pub model: Option<String>,
    pub voice: Option<String>,
    pub speed: Option<Single>,
    pub response_format: Option<String>,
    pub player: Option<String>,
    pub player_args: Vec<String>,
}

/// What a configuration file says of dictation.
#[derive(Debug, Clone, Default, PartialEq, Eq)]
pub struct DictationFileConfig {
    pub transcript_dir: Option<String>,
    pub record_dir: Option<String>,
    pub stream_response: Option<bool>,
    pub realtime_partials: Option<bool>,
    pub final_pass: Option<bool>,
    pub listening_marker: Option<String>,
    pub inline_partials: Option<bool>,
    pub partial_chunking: Option<bool>,
    pub partial_chunk_delay_ms: Option<u64>,
    pub partial_chunk_max_delay_ms: Option<u64>,
    pub append_space: Option<bool>,
    pub inject_delay_microsecs: Option<u32>,
    pub paste_settle_delay_ms: Option<u64>,
    pub paste_in_terminals: Option<bool>,
    pub leading_silence_ms: Option<u64>,
    pub preroll_ms: Option<u64>,
    pub denoise: Option<bool>,
}

/// What a configuration file says of wakewords.
#[derive(Debug, Clone, Default, PartialEq, Eq)]
pub struct WakewordFileConfig {
    pub name: Option<String>,
    pub engine: Option<WakewordEngine>,
    pub stock_model: Option<OpenWakewordStockModel>,
    pub assets_dir: Option<String>,
    pub root_dir: Option<String>,
    pub threshold: Option<Single>,
    pub frame_ms: Option<u64>,
    pub silence_timeout_ms: Option<u64>,
    pub activation_grace_ms: Option<u64>,
    pub max_recording_ms: Option<u64>,
    pub press_enter: Option<bool>,
    pub notify_on_detect: Option<bool>,
    pub realtime_partials: Option<bool>,
    pub stop_words: Vec<String>,
}

/// A configuration file.
#[derive(Debug, Clone, PartialEq, Eq)]
pub struct LoadedFileConfig {
    pub path: String,
    pub config: FileConfig,
}

/// How a live session is done.
#[derive(Debug, Clone, PartialEq, Eq)]
pub struct DictateLiveConfig {
    pub base_url: String,
    pub model: String,
    pub language: Option<String>,
    pub duration_seconds: u64,
    pub trace_path: String,
}

/// How text is read aloud.
#[derive(Debug, Clone, PartialEq, Eq)]
pub struct TtsConfig {
    pub base_url: String,
    pub model: String,
    pub voice: String,
    pub speed: Single,
    pub response_format: String,
    pub player: String,
    pub player_args: Vec<String>,
}

/// What is said of transcription, by where it is said.
#[derive(Debug, Clone, Default, PartialEq, Eq)]
pub struct ConfigInput {
    pub cli_base_url: Option<String>,
    pub cli_model: Option<String>,
    pub cli_language: Option<String>,
    pub cli_duration_seconds: Option<u64>,
    pub cli_trace_path: Option<String>,
    pub env_base_url: Option<String>,
    pub env_model: Option<String>,
    pub env_language: Option<String>,
    pub file_base_url: Option<String>,
    pub file_model: Option<String>,
    pub file_language: Option<String>,
}

/// What is said of reading aloud, by where it is said.
#[derive(Debug, Clone, Default, PartialEq, Eq)]
pub struct TtsConfigInput {
    pub cli_base_url: Option<String>,
    pub cli_model: Option<String>,
    pub cli_voice: Option<String>,
    pub cli_speed: Option<Single>,
    pub cli_response_format: Option<String>,
    pub cli_player: Option<String>,
    pub cli_player_args: Vec<String>,
    pub env_base_url: Option<String>,
    pub env_model: Option<String>,
    pub env_voice: Option<String>,
    pub env_speed: Option<Single>,
    pub env_response_format: Option<String>,
    pub env_player: Option<String>,
    pub env_player_args: Option<Vec<String>>,
    pub file_base_url: Option<String>,
    pub file_model: Option<String>,
    pub file_voice: Option<String>,
    pub file_speed: Option<Single>,
    pub file_response_format: Option<String>,
    pub file_player: Option<String>,
    pub file_player_args: Vec<String>,
}

/// What an optional text says: nothing, if it is blank.
pub open spec fn said(value: Option<Seq<char>>) -> Option<Seq<char>> {
    match value {
        Some(value) => text::non_empty(value),
        None => None,
    }
}

/// The first of three texts that says anything, or else the default.
pub open spec fn chosen_text(
    cli: Option<Seq<char>>,
    env: Option<Seq<char>>,
    file: Option<Seq<char>>,
    default: Seq<char>,
) -> Seq<char> {
    match said(cli) {
        Some(value) => value,
        None => match said(env) {
            Some(value) => value,
            None => match said(file) {
                Some(value) => value,
                None => default,
            },
        },
    }
}

/// The first of three values that is there.
pub open spec fn first_given<T>(cli: Option<T>, env: Option<T>, file: Option<T>) -> Option<T> {
    if cli is Some {
        cli
    } else if env is Some {
        env
    } else {
        file
    }
}

fn said_text(value: Option<String>) -> (r: Option<String>)
    ensures
        text::opt_view(r) == said(text::opt_view(value)),
{
    match value {
        Some(value) => text::non_empty_string(value),
        None => None,
    }
}

/// The first of three texts that says anything, or else the default.
pub fn choose_text(
    cli: Option<String>,
    env: Option<String>,
    file: Option<String>,
    default: &str,
) -> (r: String)
    ensures
        r@ == chosen_text(
            text::opt_view(cli),
            text::opt_view(env),
            text::opt_view(file),
            default@,
        ),
{
    if let Some(value) = said_text(cli) {
        return value;
    }
    if let Some(value) = said_text(env) {
        return value;
    }
    if let Some(value) = said_text(file) {
        return value;
    }
    default.to_owned()
}

/// The speed: the first of three that is given, if it is above zero and finite, or else one.
pub open spec fn chosen_speed(
    cli: Option<Single>,
    env: Option<Single>,
    file: Option<Single>,
) -> Single {
    match first_given(cli, env, file) {
        Some(speed) => if single::positive_and_finite(speed) {
            speed
        } else {
            Single { bits: DEFAULT_TTS_SPEED }
        },
        None => Single { bits: DEFAULT_TTS_SPEED },
    }
}

/// The speed: the first of three that is given, if it is above zero and finite, or else one.
pub fn choose_speed(cli: Option<Single>, env: Option<Single>, file: Option<Single>) -> (r: Single)
    ensures
        r == chosen_speed(cli, env, file),
{
    let given = if cli.is_some() {
        cli
    } else if env.is_some() {
        env
    } else {
        file
    };
    match given {
        Some(speed) => if speed.is_positive_and_finite() {
            speed
        } else {
            Single { bits: DEFAULT_TTS_SPEED }
        },
        None => Single { bits: DEFAULT_TTS_SPEED },
    }
}

/// The first of three lists that is not empty.
pub open spec fn chosen_list(
    cli: Seq<String>,
    env: Option<Seq<String>>,
    file: Seq<String>,
) -> Seq<String> {
    if cli.len() > 0 {
        cli
    } else if env is Some && env->0.len() > 0 {
        env->0
    } else {
        file
    }
}

/// The first of three lists that is not empty.
pub fn choose_vec(cli: Vec<String>, env: Option<Vec<String>>, file: Vec<String>) -> (r: Vec<String>)
    ensures
        r@ == chosen_list(
            cli@,
            match env {
                Some(env) => Some(env@),
                None => None,
            },
            file@,
        ),
{
    if cli.len() > 0 {
        return cli;
    }
    if let Some(env) = env {
        if env.len() > 0 {
            return env;
        }
    }
    file
}

/// Where the record of a live session goes by default.
pub open spec fn trace_path_at(millis: u128) -> Seq<char> {
    text::joined_path(
        text::joined_path("target"@, "speaches-companion-traces"@),
        "dictate-live-"@ + text::decimal(millis as nat) + ".jsonl"@,
    )
}

/// Where the record of a live session goes by default, at a time in milliseconds.
pub fn default_trace_path(millis: u128) -> (r: String)
    ensures
        r@ == trace_path_at(millis),
{
    let dir = text::join_path("target", "speaches-companion-traces");
    let mut name = "dictate-live-".to_owned();
    name.append(text::decimal_text(millis).as_str());
    name.append(".jsonl");
    text::join_path(dir.as_str(), name.as_str())
}

/// How a live session is done, by what is said of it, at a time in milliseconds. The first language
/// that is given counts, even if it is blank.
pub fn resolve_config(input: ConfigInput, millis: u128) -> (r: DictateLiveConfig)
    ensures
        r.base_url@ == chosen_text(
            text::opt_view(input.cli_base_url),
            text::opt_view(input.env_base_url),
            text::opt_view(input.file_base_url),
            DEFAULT_BASE_URL@,
        ),
        r.model@ == chosen_text(
            text::opt_view(input.cli_model),
            text::opt_view(input.env_model),
            text::opt_view(input.file_model),
            DEFAULT_MODEL@,
        ),
        text::opt_view(r.language) == said(
            first_given(
                text::opt_view(input.cli_language),
                text::opt_view(input.env_language),
                text::opt_view(input.file_language),
            ),
        ),
        r.duration_seconds == match input.cli_duration_seconds {
            Some(seconds) => seconds,
            None => DEFAULT_DURATION_SECONDS,
        },
        r.trace_path@ == match input.cli_trace_path {
            Some(path) => path@,
            None => trace_path_at(millis),
        },
{
    let language = if input.cli_language.is_some() {
        input.cli_language
    } else if input.env_language.is_some() {
        input.env_language
    } else {
        input.file_language
    };
    DictateLiveConfig {
        base_url: choose_text(
            input.cli_base_url,
            input.env_base_url,
            input.file_base_url,
            DEFAULT_BASE_URL,
        ),
        model: choose_text(input.cli_model, input.env_model, input.file_model, DEFAULT_MODEL),
        language: said_text(language),
        duration_seconds: match input.cli_duration_seconds {
            Some(seconds) => seconds,
            None => DEFAULT_DURATION_SECONDS,
        },
        trace_path: match input.cli_trace_path {
            Some(path) => path,
            None => default_trace_path(millis),
        },
    }
}

/// How text is read aloud, by what is said of it.
pub fn resolve_tts_config(input: TtsConfigInput) -> (r: TtsConfig)
    ensures
        r.base_url@ == chosen_text(
            text::opt_view(input.cli_base_url),
            text::opt_view(input.env_base_url),
            text::opt_view(input.file_base_url),
            DEFAULT_BASE_URL@,
        ),
        r.model@ == chosen_text(
            text::opt_view(input.cli_model),
            text::opt_view(input.env_model),
            text::opt_view(input.file_model),
            DEFAULT_TTS_MODEL@,
        ),
        r.voice@ == chosen_text(
            text::opt_view(input.cli_voice),
            text::opt_view(input.env_voice),
            text::opt_view(input.file_voice),
            DEFAULT_TTS_VOICE@,
        ),
        r.speed == chosen_speed(input.cli_speed, input.env_speed, input.file_speed),
        r.response_format@ == chosen_text(
            text::opt_view(input.cli_response_format),
            text::opt_view(input.env_response_format),
            text::opt_view(input.file_response_format),
            DEFAULT_TTS_RESPONSE_FORMAT@,
        ),
        r.player@ == chosen_text(
            text::opt_view(input.cli_player),
            text::opt_view(input.env_player),
            text::opt_view(input.file_player),
            DEFAULT_TTS_PLAYER@,
        ),
        r.player_args@ == chosen_list(
            input.cli_player_args@,
            match input.env_player_args {
                Some(env) => Some(env@),
                None => None,
            },
            input.file_player_args@,
        ),
{
    TtsConfig {
        base_url: choose_text(
            input.cli_base_url,
            input.env_base_url,
            input.file_base_url,
            DEFAULT_BASE_URL,
        ),
        model: choose_text(input.cli_model, input.env_model, input.file_model, DEFAULT_TTS_MODEL),
        voice: choose_text(input.cli_voice, input.env_voice, input.file_voice, DEFAULT_TTS_VOICE),
        speed: choose_speed(input.cli_speed, input.env_speed, input.file_speed),
        response_format: choose_text(
            input.cli_response_format,
            input.env_response_format,
            input.file_response_format,
            DEFAULT_TTS_RESPONSE_FORMAT,
        ),
        player: choose_text(
            input.cli_player,
            input.env_player,
            input.file_player,
            DEFAULT_TTS_PLAYER,
        ),
        player_args: choose_vec(
            input.cli_player_args,
            input.env_player_args,
            input.file_player_args,
        ),
    }
}

/// Why no configuration file is known: neither directory is set.
#[derive(Debug, Clone, Copy, PartialEq, Eq, Structural)]
pub struct NoConfigPath;

impl NoConfigPath {
    /// The text of this error.
    pub fn message(self) -> (r: &'static str)
        ensures
            r@
                == "failed to resolve speaches-companion config path: XDG_CONFIG_HOME and HOME are unset"@,
    {
        "failed to resolve speaches-companion config path: XDG_CONFIG_HOME and HOME are unset"
    }
}

/// The default configuration file, given the environment.
pub open spec fn default_config_path(
    config_home: Option<Seq<char>>,
    home: Option<Seq<char>>,
) -> Option<Seq<char>> {
    match said(config_home) {
        Some(dir) => Some(
            text::joined_path(text::joined_path(dir, "speaches-companion"@), "config.toml"@),
        ),
        None => match said(home) {
            Some(home) => Some(
                text::joined_path(
                    text::joined_path(
                        text::joined_path(home, ".config"@),
                        "speaches-companion"@,
                    ),
                    "config.toml"@,
                ),
            ),
            None => None,
        },
    }
}

/// The configuration file: the one that the command line names, or the one that the environment
/// names, or the default one.
pub open spec fn config_path(
    cli: Option<Seq<char>>,
    named: Option<Seq<char>>,
    config_home: Option<Seq<char>>,
    home: Option<Seq<char>>,
) -> Option<Seq<char>> {
    match cli {
        Some(path) => Some(path),
        None => match said(named) {
            Some(path) => Some(path),
            None => default_config_path(config_home, home),
        },
    }
}

fn said_variable<'a>(env: &'a Environment, name: &str) -> (r: Option<&'a str>)
    ensures
        text::opt_str_view(r) == said(env.value_of(name@)),
{
    match env.get(name) {
        Some(value) => text::non_empty_str(value),
        None => None,
    }
}

/// The default configuration file, given the environment.
pub fn default_config_path_with_env(env: &Environment) -> (r: Result<String, NoConfigPath>)
    ensures
        match r {
            Ok(path) => default_config_path(
                env.value_of("XDG_CONFIG_HOME"@),
                env.value_of("HOME"@),
            ) == Some(path@),
            Err(_) => default_config_path(
                env.value_of("XDG_CONFIG_HOME"@),
                env.value_of("HOME"@),
            ) is None,
        },
{
    if let Some(dir) = said_variable(env, "XDG_CONFIG_HOME") {
        let dir = text::join_path(dir, "speaches-companion");
        return Ok(text::join_path(dir.as_str(), "config.toml"));
    }
    if let Some(home) = said_variable(env, "HOME") {
        let dir = text::join_path(home, ".config");
        let dir = text::join_path(dir.as_str(), "speaches-companion");
        return Ok(text::join_path(dir.as_str(), "config.toml"));
    }
    Err(NoConfigPath)
}

/// The configuration file, given the command line and the environment.
pub fn resolve_config_path_with_env(cli_config_path: Option<String>, env: &Environment) -> (r: Result<
    String,
    NoConfigPath,
>)
    ensures
        ({
            let wanted = config_path(
                text::opt_view(cli_config_path),
                env.value_of("SPEACHES_COMPANION_CONFIG"@),
                env.value_of("XDG_CONFIG_HOME"@),
                env.value_of("HOME"@),
            );
            match r {
                Ok(path) => wanted == Some(path@),
                Err(_) => wanted is None,
            }
        }),
{
    if let Some(path) = cli_config_path {
        return Ok(path);
    }
    if let Some(path) = said_variable(env, "SPEACHES_COMPANION_CONFIG") {
        return Ok(path.to_owned());
    }
    default_config_path_with_env(env)
}

/// What is said first counts: the command line before the environment, the environment before the
/// file, and the file before the default.
pub proof fn earlier_sources_win(
    cli: Option<Seq<char>>,
    env: Option<Seq<char>>,
    file: Option<Seq<char>>,
    default: Seq<char>,
)
    ensures
        said(cli) is Some ==> chosen_text(cli, env, file, default) == said(cli)->0,
        said(cli) is None && said(env) is Some ==> chosen_text(cli, env, file, default) == said(
            env,
        )->0,
        said(cli) is None && said(env) is None && said(file) is Some ==> chosen_text(
            cli,
            env,
            file,
            default,
        ) == said(file)->0,
        said(cli) is None && said(env) is None && said(file) is None ==> chosen_text(
            cli,
            env,
            file,
            default,
        ) == default,
{
}

/// A speed is always above zero and finite.
pub proof fn speeds_are_usable(cli: Option<Single>, env: Option<Single>, file: Option<Single>)
    ensures
        single::positive_and_finite(chosen_speed(cli, env, file)),
{
}

fn own_text(value: Option<&str>) -> (r: Option<String>)
    ensures
        text::opt_view(r) == text::opt_str_view(value),
{
    match value {
        Some(value) => Some(value.to_owned()),
        None => None,
    }
}

/// What is said of transcription, given the command line, the environment and the file.
pub fn stt_config_input(
    cli_base_url: Option<String>,
    cli_model: Option<String>,
    cli_language: Option<String>,
    env: &Environment,
    file_config: &FileConfig,
) -> (r: ConfigInput)
    ensures
        r.cli_base_url == cli_base_url,
        r.cli_model == cli_model,
        r.cli_language == cli_language,
        r.cli_duration_seconds is None,
        r.cli_trace_path is None,
        text::opt_view(r.env_base_url) == env.value_of("SPEACHES_BASE_URL"@),
        text::opt_view(r.env_model) == environment::either(
            env.value_of("SPEACHES_COMPANION_MODEL"@),
            env.value_of("SPEACHES_STT_MODEL"@),
        ),
        text::opt_view(r.env_language) == env.value_of("SPEACHES_COMPANION_LANGUAGE"@),
        text::opt_view(r.file_base_url) == text::opt_view(file_config.speaches.base_url),
        text::opt_view(r.file_model) == text::opt_view(file_config.stt.model),
        text::opt_view(r.file_language) == text::opt_view(file_config.stt.language),
{
    ConfigInput {
        cli_base_url,
        cli_model,
        cli_language,
        cli_duration_seconds: None,
        cli_trace_path: None,
        env_base_url: own_text(env.get("SPEACHES_BASE_URL")),
        env_model: own_text(env.get_or("SPEACHES_COMPANION_MODEL", "SPEACHES_STT_MODEL")),
        env_language: own_text(env.get("SPEACHES_COMPANION_LANGUAGE")),
        file_base_url: text::clone_optional(&file_config.speaches.base_url),
        file_model: text::clone_optional(&file_config.stt.model),
        file_language: text::clone_optional(&file_config.stt.language),
    }
}

/// The words of a variable, if it has any.
pub open spec fn variable_words(value: Option<Seq<char>>) -> Option<Seq<Seq<char>>> {
    match value {
        Some(value) => if text::words(value).len() > 0 {
            Some(text::words(value))
        } else {
            None
        },
        None => None,
    }
}

/// The words of a variable, or of another where that one is not set; nothing if there are none.
pub fn env_args_or(env: &Environment, primary: &str, fallback: &str) -> (r: Option<Vec<String>>)
    ensures
        (match r {
            Some(args) => Some(text::views(args@)),
            None => None,
        }) == variable_words(
            environment::either(env.value_of(primary@), env.value_of(fallback@)),
        ),
{
    match env.get_or(primary, fallback) {
        Some(value) => {
            let args = text::words_of(value);
            proof {
                assert(text::views(args@).len() == args@.len());
            }
            if args.len() > 0 {
                Some(args)
            } else {
                None
            }
        },
        None => None,
    }
}

/// What the command line says of reading aloud.
#[derive(Debug, Clone, Default, PartialEq, Eq)]
pub struct TtsCliConfigInput {
    pub base_url: Option<String>,
    pub model: Option<String>,
    pub voice: Option<String>,
    pub speed: Option<Single>,
    pub response_format: Option<String>,
    pub player: Option<String>,
    pub player_args: Vec<String>,
}

/// What is said of reading aloud, given the command line, the environment and the file. The speed
/// in the environment is given as the number that it was read as.
pub fn tts_config_input(
    cli: TtsCliConfigInput,
    env: &Environment,
    env_speed: Option<Single>,
    file_config: &FileConfig,
) -> (r: TtsConfigInput)
    ensures
        r.cli_base_url == cli.base_url,
        r.cli_model == cli.model,
        r.cli_voice == cli.voice,
        r.cli_speed == cli.speed,
        r.cli_response_format == cli.response_format,
        r.cli_player == cli.player,
        r.cli_player_args == cli.player_args,
        text::opt_view(r.env_base_url) == env.value_of("SPEACHES_BASE_URL"@),
        text::opt_view(r.env_model) == environment::either(
            env.value_of("SPEACHES_COMPANION_TTS_MODEL"@),
            env.value_of("SPEACHES_TTS_MODEL"@),
        ),
        text::opt_view(r.env_voice) == environment::either(
            env.value_of("SPEACHES_COMPANION_TTS_VOICE"@),
            env.value_of("SPEACHES_TTS_VOICE"@),
        ),
        r.env_speed == env_speed,
        text::opt_view(r.env_response_format) == environment::either(
            env.value_of("SPEACHES_COMPANION_TTS_RESPONSE_FORMAT"@),
            env.value_of("SPEACHES_TTS_RESPONSE_FORMAT"@),
        ),
        text::opt_view(r.env_player) == environment::either(
            env.value_of("SPEACHES_COMPANION_TTS_PLAYER"@),
            env.value_of("SPEACHES_TTS_PLAYER"@),
        ),
        (match r.env_player_args {
            Some(args) => Some(text::views(args@)),
            None => None,
        }) == variable_words(
            environment::either(
                env.value_of("SPEACHES_COMPANION_TTS_PLAYER_ARGS"@),
                env.value_of("SPEACHES_TTS_PLAYER_ARGS"@),
            ),
        ),
        text::opt_view(r.file_base_url) == text::opt_view(file_config.speaches.base_url),
        text::opt_view(r.file_model) == text::opt_view(file_config.tts.model),
        text::opt_view(r.file_voice) == text::opt_view(file_config.tts.voice),
        r.file_speed == file_config.tts.speed,
        text::opt_view(r.file_response_format) == text::opt_view(
            file_config.tts.response_format,
        ),
        text::opt_view(r.file_player) == text::opt_view(file_config.tts.player),
        text::views(r.file_player_args@) == text::views(file_config.tts.player_args@),
{
    TtsConfigInput {
        cli_base_url: cli.base_url,
        cli_model: cli.model,
        cli_voice: cli.voice,
        cli_speed: cli.speed,
        cli_response_format: cli.response_format,
        cli_player: cli.player,
        cli_player_args: cli.player_args,
        env_base_url: own_text(env.get("SPEACHES_BASE_URL")),
        env_model: own_text(env.get_or("SPEACHES_COMPANION_TTS_MODEL", "SPEACHES_TTS_MODEL")),
        env_voice: own_text(env.get_or("SPEACHES_COMPANION_TTS_VOICE", "SPEACHES_TTS_VOICE")),
        env_speed,
        env_response_format: own_text(
            env.get_or("SPEACHES_COMPANION_TTS_RESPONSE_FORMAT", "SPEACHES_TTS_RESPONSE_FORMAT"),
        ),
        env_player: own_text(env.get_or("SPEACHES_COMPANION_TTS_PLAYER", "SPEACHES_TTS_PLAYER")),
        env_player_args: env_args_or(
            env,
            "SPEACHES_COMPANION_TTS_PLAYER_ARGS",
            "SPEACHES_TTS_PLAYER_ARGS",
        ),
        file_base_url: text::clone_optional(&file_config.speaches.base_url),
        file_model: text::clone_optional(&file_config.tts.model),
        file_voice: text::clone_optional(&file_config.tts.voice),
        file_speed: file_config.tts.speed,
        file_response_format: text::clone_optional(&file_config.tts.response_format),
        file_player: text::clone_optional(&file_config.tts.player),
        file_player_args: text::clone_texts(&file_config.tts.player_args),
    }
}

/// What is said of a text counts without the white space at its ends, and a blank one says nothing: the
/// command line goes first, then the environment, then the file, then the default.
pub proof fn blank_sources_are_passed_over(
    cli: Seq<char>,
    env: Seq<char>,
    file: Seq<char>,
    default: Seq<char>,
)
    ensures
        text::trimmed(cli).len() > 0 ==> chosen_text(Some(cli), Some(env), Some(file), default)
            == text::trimmed(cli),
        text::trimmed(cli).len() == 0 ==> chosen_text(Some(cli), Some(env), Some(file), default)
            == chosen_text(None, Some(env), Some(file), default),
        text::trimmed(env).len() > 0 ==> chosen_text(None, Some(env), Some(file), default)
            == text::trimmed(env),
        text::trimmed(env).len() == 0 ==> chosen_text(None, Some(env), Some(file), default)
            == chosen_text(None, None, Some(file), default),
        text::trimmed(file).len() > 0 ==> chosen_text(None, None, Some(file), default)
            == text::trimmed(file),
        text::trimmed(file).len() == 0 ==> chosen_text(None, None, Some(file), default) == default,
        chosen_text(None, None, None, default) == default,
        text::trimmed(cli).len() > 0 ==> chosen_text(Some(cli), None, None, default)
            == text::trimmed(cli),
        text::trimmed(cli).len() > 0 ==> said(Some(cli)) == Some(text::trimmed(cli)),
        text::trimmed(cli).len() == 0 ==> said(Some(cli)) is None,
        said(None) is None,
{
}

/// The speed that is given first counts, if it can be used; else it is one, even if a later one could
/// be.
pub proof fn the_first_speed_counts(
    first: Single,
    env: Option<Single>,
    file: Option<Single>,
)
    ensures
        0 < first.bits < 0x7f80_0000 ==> chosen_speed(Some(first), env, file) == first
            && chosen_speed(None, Some(first), file) == first && chosen_speed(
            None,
            None,
            Some(first),
        ) == first,
        !(0 < first.bits < 0x7f80_0000) ==> chosen_speed(Some(first), env, file).bits == 0x3f80_0000
            && chosen_speed(None, Some(first), file).bits == 0x3f80_0000 && chosen_speed(
            None,
            None,
            Some(first),
        ).bits == 0x3f80_0000,
        chosen_speed(None, None, None).bits == 0x3f80_0000,
{
}

/// The first language, or other value, that is given counts.
pub proof fn the_first_given_counts<T>(first: T, env: Option<T>, file: Option<T>)
    ensures
        first_given(Some(first), env, file) == Some(first),
        first_given(None, Some(first), file) == Some(first),
        first_given(None, None, file) == file,
{
}

/// The first list that holds anything counts.
pub proof fn the_first_filled_list_counts(
    cli: Seq<String>,
    env: Seq<String>,
    file: Seq<String>,
)
    ensures
        cli.len() > 0 ==> chosen_list(cli, Some(env), file) == cli && chosen_list(cli, None, file)
            == cli,
        cli.len() == 0 && env.len() > 0 ==> chosen_list(cli, Some(env), file) == env,
        cli.len() == 0 && env.len() == 0 ==> chosen_list(cli, Some(env), file) == file,
        cli.len() == 0 ==> chosen_list(cli, None, file) == file,
{
}

/// The configuration is the file that the command line names, as it stands; else the one that the
/// environment names; else the one in the directory for configurations; else the one in the home.
pub proof fn configurations_are_found_in_turn(
    path: Seq<char>,
    named: Seq<char>,
    config_home: Seq<char>,
    home: Seq<char>,
)
    requires
        text::trimmed(named).len() > 0,
        text::trimmed(config_home).len() > 0,
        text::trimmed(home).len() > 0,
    ensures
        config_path(Some(path), Some(named), Some(config_home), Some(home)) == Some(path),
        config_path(None, Some(named), Some(config_home), Some(home)) == Some(text::trimmed(named)),
        config_path(None, None, Some(config_home), Some(home)) == Some(
            text::joined_path(
                text::joined_path(text::trimmed(config_home), "speaches-companion"@),
                "config.toml"@,
            ),
        ),
        config_path(None, None, None, Some(home)) == Some(
            text::joined_path(
                text::joined_path(
                    text::joined_path(text::trimmed(home), ".config"@),
                    "speaches-companion"@,
                ),
                "config.toml"@,
            ),
        ),
        config_path(None, None, None, None) is None,
{
}

/// Blank variables name no file.
pub proof fn blank_variables_name_no_file(blank: Seq<char>, home: Option<Seq<char>>)
    requires
        text::trimmed(blank).len() == 0,
    ensures
        config_path(None, Some(blank), None, home) == config_path(None, None, None, home),
        config_path(None, None, Some(blank), home) == config_path(None, None, None, home),
        config_path(None, None, None, Some(blank)) is None,
{
}

/// The words of a variable count only if there are some.
pub proof fn variables_without_words_say_nothing(value: Seq<char>)
    ensures
        variable_words(None) is None,
        text::words(value).len() == 0 ==> variable_words(Some(value)) is None,
        text::words(value).len() > 0 ==> variable_words(Some(value)) == Some(text::words(value)),
{
}

/// The record of a live session is named by the time at which it began.
pub proof fn records_are_named_by_their_time(millis: u128)
    ensures
        text::ends(
            trace_path_at(millis),
            "dictate-live-"@ + text::decimal(millis as nat) + ".jsonl"@,
        ),
        text::begins(trace_path_at(millis), "target"@),
{
    reveal_strlit("target");
    reveal_strlit("speaches-companion-traces");
    let dir = text::joined_path("target"@, "speaches-companion-traces"@);
    let name = "dictate-live-"@ + text::decimal(millis as nat) + ".jsonl"@;
    text::paths_are_joined_by_one_slash("target"@, "speaches-companion-traces"@);
    text::paths_are_joined_by_one_slash(dir, name);
    assert("target"@.last() == 't');
    assert(dir.last() == "speaches-companion-traces"@.last());
    assert("speaches-companion-traces"@.last() == 's');
    let path = trace_path_at(millis);
    assert(path == dir + seq!['/'] + name);
    text::parts_are_found(dir + seq!['/'], name, name);
    assert(path.take("target"@.len() as int) =~= "target"@);
}

} // verus!
