//! The settings of the commands: what the command line says, or else the configuration file, or
//! else the defaults.

use vstd::prelude::*;
use vstd::string::*;

use crate::audio;
use crate::clock::Duration;
use crate::config::{DictateLiveConfig, DictationFileConfig, FileConfig};
use crate::inject::{DesktopTextInjector, TextInjector, DEFAULT_PASTE_SETTLE_DELAY_MS};
use crate::notification::{
    ErrorNotifier, NoopErrorNotifier, NoopTranscriptNotifier, TranscriptNotifier,
};
use crate::partial::PartialChunkingConfig;
use crate::phase::PhaseResult;
use crate::single::Single;
use crate::streaming::StreamingDictationController;
use crate::stt::{ResponseFormat, TranscribeOptions};
use crate::text;
use crate::transcriber::{dictation_options, FinalHttpTranscriber, RealtimeTranscriber};
use crate::wakeword::{
    OpenWakewordStockModel, WakewordEngine, WakewordSettings, DEFAULT_WAKEWORD_ACTIVATION_GRACE_MS,
    DEFAULT_WAKEWORD_FRAME_MS, DEFAULT_WAKEWORD_MAX_RECORDING_MS, DEFAULT_WAKEWORD_NAME,
    DEFAULT_WAKEWORD_PRESS_ENTER, DEFAULT_WAKEWORD_SILENCE_TIMEOUT_MS, DEFAULT_WAKEWORD_THRESHOLD,
};

verus! {

pub const DEFAULT_LISTENING_MARKER: &'static str = "💬";

pub const DEFAULT_INJECT_DELAY_MICROSECS: u32 = 0;

pub const DEFAULT_PASTE_IN_TERMINALS: bool = false;

pub const DEFAULT_LEADING_SILENCE_MS: u64 = 250;

pub const DEFAULT_PARTIAL_CHUNK_DELAY_MS: u64 = 80;

pub const DEFAULT_PARTIAL_CHUNK_MAX_DELAY_MS: u64 = 250;

pub const DEFAULT_PARTIAL_CHUNKING: bool = true;

pub const DEFAULT_PREROLL_MS: u64 = 750;

pub const DEFAULT_WAKEWORD_NOTIFY_ON_DETECT: bool = false;

/// The first of two values that is given, or else the default.
pub open spec fn given_or<T>(cli: Option<T>, file: Option<T>, default: T) -> T {
    match cli {
        Some(value) => value,
        None => match file {
            Some(value) => value,
            None => default,
        },
    }
}

/// A flag: on or off where the command line says so, else what the file says, else the default.
pub open spec fn flag(on: bool, off: bool, file: Option<bool>, default: bool) -> bool {
    if on {
        true
    } else if off {
        false
    } else {
        given_or(None, file, default)
    }
}

/// The first of two values that is given, or else the default.
fn value_or<T>(cli: Option<T>, file: Option<T>, default: T) -> (r: T)
    ensures
        r == given_or(cli, file, default),
{
    match cli {
        Some(value) => value,
        None => match file {
            Some(value) => value,
            None => default,
        },
    }
}

/// A flag.
pub fn resolve_flag(on: bool, off: bool, file: Option<bool>, default: bool) -> (r: bool)
    ensures
        r == flag(on, off, file, default),
{
    if on {
        true
    } else if off {
        false
    } else {
        match file {
            Some(value) => value,
            None => default,
        }
    }
}

/// The first of two optional texts that is given.
pub open spec fn first_text(cli: Option<Seq<char>>, file: Option<Seq<char>>) -> Option<Seq<char>> {
    match cli {
        Some(value) => Some(value),
        None => file,
    }
}

fn text_or(cli: &Option<String>, file: &Option<String>) -> (r: Option<String>)
    ensures
        text::opt_view(r) == first_text(text::opt_view(*cli), text::opt_view(*file)),
{
    if cli.is_some() {
        text::clone_optional(cli)
    } else {
        text::clone_optional(file)
    }
}

/// What the command line says of the daemon.
#[derive(Debug, Clone, Default, PartialEq, Eq)]
pub struct DaemonArgs {
    pub transcript_dir: Option<String>,
    pub record_dir: Option<String>,
    pub stream_response: bool,
    pub no_stream_response: bool,
    pub realtime_partials: bool,
    pub no_realtime_partials: bool,
    pub final_pass: bool,
    pub no_final_pass: bool,
    pub listening_marker: Option<String>,
    pub no_listening_marker: bool,
    pub inline_partials: bool,
    pub no_inline_partials: bool,
    pub partial_chunking: bool,
    pub no_partial_chunking: bool,
    pub partial_chunk_delay_ms: Option<u64>,
    pub partial_chunk_max_delay_ms: Option<u64>,
    pub append_space: bool,
    pub no_append_space: bool,
    pub inject_delay_microsecs: Option<u32>,
    pub paste_settle_delay_ms: Option<u64>,
    pub paste_in_terminals: bool,
    pub no_paste_in_terminals: bool,
    pub leading_silence_ms: Option<u64>,
    pub preroll_ms: Option<u64>,
}

/// How the daemon works.
#[derive(Debug, Clone, PartialEq, Eq)]
pub struct DaemonSettings {
    pub transcript_dir: Option<String>,
    pub record_dir: Option<String>,
    pub stream_response: bool,
    pub realtime_partials: bool,
    pub final_pass: bool,
    pub listening_marker: Option<String>,
    pub inline_partials: bool,
    pub partial_chunking: bool,
    pub partial_chunk_delay_ms: u64,
    pub partial_chunk_max_delay_ms: u64,
    pub append_space: bool,
    pub inject_delay_microsecs: u32,
    pub paste_settle_delay_ms: u64,
    pub paste_in_terminals: bool,
    pub leading_silence_ms: u64,
    pub preroll_ms: u64,
}

/// The marker that is shown while dictation goes on: the first that is given, or else the default
/// one; none if it is blank.
pub open spec fn marker(cli: Option<Seq<char>>, file: Option<Seq<char>>) -> Option<Seq<char>> {
    text::non_empty(
        match first_text(cli, file) {
            Some(marker) => marker,
            None => DEFAULT_LISTENING_MARKER@,
        },
    )
}

/// The marker that is shown while dictation goes on.
fn listening_marker(cli: &Option<String>, file: &Option<String>) -> (r: Option<String>)
    ensures
        text::opt_view(r) == marker(text::opt_view(*cli), text::opt_view(*file)),
{
    match text_or(cli, file) {
        Some(marker) => text::non_empty_string(marker),
        None => text::non_empty_string(DEFAULT_LISTENING_MARKER.to_owned()),
    }
}

/// The marker that the daemon shows.
pub fn resolve_listening_marker(args: &DaemonArgs, file_config: &FileConfig) -> (r: Option<String>)
    ensures
        text::opt_view(r) == if args.no_listening_marker {
            None
        } else {
            marker(
                text::opt_view(args.listening_marker),
                text::opt_view(file_config.dictation.listening_marker),
            )
        },
{
    if args.no_listening_marker {
        return None;
    }
    listening_marker(&args.listening_marker, &file_config.dictation.listening_marker)
}

/// Whether live transcripts are had over a realtime session.
pub fn resolve_realtime_partials(args: &DaemonArgs, file_config: &FileConfig) -> (r: bool)
    ensures
        r == flag(
            args.realtime_partials,
            args.no_realtime_partials,
            file_config.dictation.realtime_partials,
            false,
        ),
{
    resolve_flag(
        args.realtime_partials,
        args.no_realtime_partials,
        file_config.dictation.realtime_partials,
        false,
    )
}

/// Whether a final transcript replaces the live one.
pub fn resolve_final_pass(args: &DaemonArgs, file_config: &FileConfig) -> (r: bool)
    ensures
        r == flag(args.final_pass, args.no_final_pass, file_config.dictation.final_pass, true),
{
    resolve_flag(args.final_pass, args.no_final_pass, file_config.dictation.final_pass, true)
}

/// Whether the transcript is streamed by the server.
pub fn resolve_stream_response(args: &DaemonArgs, file_config: &FileConfig) -> (r: bool)
    ensures
        r == flag(
            args.stream_response,
            args.no_stream_response,
            file_config.dictation.stream_response,
            false,
        ),
{
    resolve_flag(
        args.stream_response,
        args.no_stream_response,
        file_config.dictation.stream_response,
        false,
    )
}

/// Whether live transcripts are shown.
pub fn resolve_inline_partials(args: &DaemonArgs, file_config: &FileConfig) -> (r: bool)
    ensures
        r == flag(
            args.inline_partials,
            args.no_inline_partials,
            file_config.dictation.inline_partials,
            true,
        ),
{
    resolve_flag(
        args.inline_partials,
        args.no_inline_partials,
        file_config.dictation.inline_partials,
        true,
    )
}

/// Whether changes of live transcripts are collected.
pub fn resolve_partial_chunking(args: &DaemonArgs, file_config: &FileConfig) -> (r: bool)
    ensures
        r == flag(
            args.partial_chunking,
            args.no_partial_chunking,
            file_config.dictation.partial_chunking,
            DEFAULT_PARTIAL_CHUNKING,
        ),
{
    resolve_flag(
        args.partial_chunking,
        args.no_partial_chunking,
        file_config.dictation.partial_chunking,
        DEFAULT_PARTIAL_CHUNKING,
    )
}

/// Whether a space follows each transcript.
pub fn resolve_append_space(args: &DaemonArgs, file_config: &FileConfig) -> (r: bool)
    ensures
        r == flag(
            args.append_space,
            args.no_append_space,
            file_config.dictation.append_space,
            true,
        ),
{
    resolve_flag(
        args.append_space,
        args.no_append_space,
        file_config.dictation.append_space,
        true,
    )
}

/// Whether text is pasted into terminals.
pub fn resolve_paste_in_terminals(args: &DaemonArgs, file_config: &FileConfig) -> (r: bool)
    ensures
        r == flag(
            args.paste_in_terminals,
            args.no_paste_in_terminals,
            file_config.dictation.paste_in_terminals,
            DEFAULT_PASTE_IN_TERMINALS,
        ),
{
    resolve_flag(
        args.paste_in_terminals,
        args.no_paste_in_terminals,
        file_config.dictation.paste_in_terminals,
        DEFAULT_PASTE_IN_TERMINALS,
    )
}

/// How the daemon works.
pub fn resolve_daemon_settings(args: &DaemonArgs, file_config: &FileConfig) -> (r: DaemonSettings)
    ensures
        text::opt_view(r.transcript_dir) == first_text(
            text::opt_view(args.transcript_dir),
            text::opt_view(file_config.dictation.transcript_dir),
        ),
        text::opt_view(r.record_dir) == first_text(
            text::opt_view(args.record_dir),
            text::opt_view(file_config.dictation.record_dir),
        ),
        r.stream_response == flag(
            args.stream_response,
            args.no_stream_response,
            file_config.dictation.stream_response,
            false,
        ),
        r.realtime_partials == flag(
            args.realtime_partials,
            args.no_realtime_partials,
            file_config.dictation.realtime_partials,
            false,
        ),
        r.final_pass == flag(
            args.final_pass,
            args.no_final_pass,
            file_config.dictation.final_pass,
            true,
        ),
        text::opt_view(r.listening_marker) == if args.no_listening_marker {
            None
        } else {
            marker(
                text::opt_view(args.listening_marker),
                text::opt_view(file_config.dictation.listening_marker),
            )
        },
        r.inline_partials == flag(
            args.inline_partials,
            args.no_inline_partials,
            file_config.dictation.inline_partials,
            true,
        ),
        r.partial_chunking == flag(
            args.partial_chunking,
            args.no_partial_chunking,
            file_config.dictation.partial_chunking,
            DEFAULT_PARTIAL_CHUNKING,
        ),
        r.partial_chunk_delay_ms == given_or(
            args.partial_chunk_delay_ms,
            file_config.dictation.partial_chunk_delay_ms,
            DEFAULT_PARTIAL_CHUNK_DELAY_MS,
        ),
        r.partial_chunk_max_delay_ms == given_or(
            args.partial_chunk_max_delay_ms,
            file_config.dictation.partial_chunk_max_delay_ms,
            DEFAULT_PARTIAL_CHUNK_MAX_DELAY_MS,
        ),
        r.append_space == flag(
            args.append_space,
            args.no_append_space,
            file_config.dictation.append_space,
            true,
        ),
        r.inject_delay_microsecs == given_or(
            args.inject_delay_microsecs,
            file_config.dictation.inject_delay_microsecs,
            DEFAULT_INJECT_DELAY_MICROSECS,
        ),
        r.paste_settle_delay_ms == given_or(
            args.paste_settle_delay_ms,
            file_config.dictation.paste_settle_delay_ms,
            DEFAULT_PASTE_SETTLE_DELAY_MS,
        ),
        r.paste_in_terminals == flag(
            args.paste_in_terminals,
            args.no_paste_in_terminals,
            file_config.dictation.paste_in_terminals,
            DEFAULT_PASTE_IN_TERMINALS,
        ),
        r.leading_silence_ms == given_or(
            args.leading_silence_ms,
            file_config.dictation.leading_silence_ms,
            DEFAULT_LEADING_SILENCE_MS,
        ),
        r.preroll_ms == given_or(
            args.preroll_ms,
            file_config.dictation.preroll_ms,
            DEFAULT_PREROLL_MS,
        ),
{
    DaemonSettings {
        transcript_dir: text_or(&args.transcript_dir, &file_config.dictation.transcript_dir),
        record_dir: text_or(&args.record_dir, &file_config.dictation.record_dir),
        stream_response: resolve_stream_response(args, file_config),
        realtime_partials: resolve_realtime_partials(args, file_config),
        final_pass: resolve_final_pass(args, file_config),
        listening_marker: resolve_listening_marker(args, file_config),
        inline_partials: resolve_inline_partials(args, file_config),
        partial_chunking: resolve_partial_chunking(args, file_config),
        partial_chunk_delay_ms: value_or(
            args.partial_chunk_delay_ms,
            file_config.dictation.partial_chunk_delay_ms,
            DEFAULT_PARTIAL_CHUNK_DELAY_MS,
        ),
        partial_chunk_max_delay_ms: value_or(
            args.partial_chunk_max_delay_ms,
            file_config.dictation.partial_chunk_max_delay_ms,
            DEFAULT_PARTIAL_CHUNK_MAX_DELAY_MS,
        ),
        append_space: resolve_append_space(args, file_config),
        inject_delay_microsecs: value_or(
            args.inject_delay_microsecs,
            file_config.dictation.inject_delay_microsecs,
            DEFAULT_INJECT_DELAY_MICROSECS,
        ),
        paste_settle_delay_ms: value_or(
            args.paste_settle_delay_ms,
            file_config.dictation.paste_settle_delay_ms,
            DEFAULT_PASTE_SETTLE_DELAY_MS,
        ),
        paste_in_terminals: resolve_paste_in_terminals(args, file_config),
        leading_silence_ms: value_or(
            args.leading_silence_ms,
            file_config.dictation.leading_silence_ms,
            DEFAULT_LEADING_SILENCE_MS,
        ),
        preroll_ms: value_or(
            args.preroll_ms,
            file_config.dictation.preroll_ms,
            DEFAULT_PREROLL_MS,
        ),
    }
}

impl DaemonSettings {
    /// When changes of live transcripts are shown.
    pub fn chunking(&self) -> (r: PartialChunkingConfig)
        ensures
            r.enabled == self.partial_chunking,
            r.delay@ == self.partial_chunk_delay_ms * 1_000_000,
            r.max_delay@ == self.partial_chunk_max_delay_ms * 1_000_000,
    {
        PartialChunkingConfig {
            enabled: self.partial_chunking,
            delay: Duration::from_millis(self.partial_chunk_delay_ms),
            max_delay: Duration::from_millis(self.partial_chunk_max_delay_ms),
        }
    }

    /// Whether a final transcript is written: where it is wanted, and wherever there is no live one.
    pub fn writes_final_transcript(&self) -> (r: bool)
        ensures
            r == (self.final_pass || !self.realtime_partials),
    {
        self.final_pass || !self.realtime_partials
    }
}

/// What the command line says of wakewords.
#[derive(Debug, Clone, Default, PartialEq, Eq)]
pub struct WakewordArgs {
    pub name: Option<String>,
    pub engine: Option<WakewordEngine>,
    pub stock_model: Option<OpenWakewordStockModel>,
    pub assets_dir: Option<String>,
    pub root_dir: Option<String>,
    pub threshold: Option<Single>,
    pub frame_ms: Option<u64>,
    pub silence_timeout_ms: Option<u64>,
    pub activation_grace_ms: Option<u64>,
    pub max_recording_ms: Option<u64>,
    pub press_enter: bool,
    pub no_press_enter: bool,
    pub append_space: bool,
    pub no_append_space: bool,
    pub notify_on_detect: bool,
    pub no_notify_on_detect: bool,
    pub inject_delay_microsecs: Option<u32>,
}

/// A text, or else another.
pub open spec fn text_or_default(value: Option<Seq<char>>, default: Seq<char>) -> Seq<char> {
    match value {
        Some(value) => value,
        None => default,
    }
}

fn owned_or(value: Option<String>, default: &str) -> (r: String)
    ensures
        r@ == text_or_default(text::opt_view(value), default@),
{
    match value {
        Some(value) => value,
        None => default.to_owned(),
    }
}

/// How wakewords are recognized, given the directory where they are by default.
pub fn resolve_wakeword_settings(
    args: &WakewordArgs,
    file_config: &FileConfig,
    default_root: &str,
) -> (r: WakewordSettings)
    ensures
        r.name@ == text_or_default(
            first_text(text::opt_view(args.name), text::opt_view(file_config.wakeword.name)),
            DEFAULT_WAKEWORD_NAME@,
        ),
        r.engine == given_or(
            args.engine,
            file_config.wakeword.engine,
            WakewordEngine::Openwakeword,
        ),
        r.stock_model == given_or(
            args.stock_model,
            file_config.wakeword.stock_model,
            OpenWakewordStockModel::Alexa,
        ),
        text::opt_view(r.assets_dir) == first_text(
            text::opt_view(args.assets_dir),
            text::opt_view(file_config.wakeword.assets_dir),
        ),
        r.root_dir@ == text_or_default(
            first_text(
                text::opt_view(args.root_dir),
                text::opt_view(file_config.wakeword.root_dir),
            ),
            default_root@,
        ),
        r.threshold == given_or(
            args.threshold,
            file_config.wakeword.threshold,
            Single { bits: DEFAULT_WAKEWORD_THRESHOLD },
        ),
        r.frame@ == given_or(
            args.frame_ms,
            file_config.wakeword.frame_ms,
            DEFAULT_WAKEWORD_FRAME_MS,
        ) * 1_000_000,
        r.silence_timeout@ == given_or(
            args.silence_timeout_ms,
            file_config.wakeword.silence_timeout_ms,
            DEFAULT_WAKEWORD_SILENCE_TIMEOUT_MS,
        ) * 1_000_000,
        r.activation_grace@ == given_or(
            args.activation_grace_ms,
            file_config.wakeword.activation_grace_ms,
            DEFAULT_WAKEWORD_ACTIVATION_GRACE_MS,
        ) * 1_000_000,
        r.max_recording@ == given_or(
            args.max_recording_ms,
            file_config.wakeword.max_recording_ms,
            DEFAULT_WAKEWORD_MAX_RECORDING_MS,
        ) * 1_000_000,
        r.press_enter == flag(
            args.press_enter,
            args.no_press_enter,
            file_config.wakeword.press_enter,
            DEFAULT_WAKEWORD_PRESS_ENTER,
        ),
{
    WakewordSettings {
        name: owned_or(text_or(&args.name, &file_config.wakeword.name), DEFAULT_WAKEWORD_NAME),
        engine: value_or(
            args.engine,
            file_config.wakeword.engine,
            WakewordEngine::Openwakeword,
        ),
        stock_model: value_or(
            args.stock_model,
            file_config.wakeword.stock_model,
            OpenWakewordStockModel::Alexa,
        ),
        assets_dir: text_or(&args.assets_dir, &file_config.wakeword.assets_dir),
        root_dir: owned_or(text_or(&args.root_dir, &file_config.wakeword.root_dir), default_root),
        threshold: value_or(
            args.threshold,
            file_config.wakeword.threshold,
            Single { bits: DEFAULT_WAKEWORD_THRESHOLD },
        ),
        frame: Duration::from_millis(
            value_or(args.frame_ms, file_config.wakeword.frame_ms, DEFAULT_WAKEWORD_FRAME_MS),
        ),
        silence_timeout: Duration::from_millis(
            value_or(
                args.silence_timeout_ms,
                file_config.wakeword.silence_timeout_ms,
                DEFAULT_WAKEWORD_SILENCE_TIMEOUT_MS,
            ),
        ),
        activation_grace: Duration::from_millis(
            value_or(
                args.activation_grace_ms,
                file_config.wakeword.activation_grace_ms,
                DEFAULT_WAKEWORD_ACTIVATION_GRACE_MS,
            ),
        ),
        max_recording: Duration::from_millis(
            value_or(
                args.max_recording_ms,
                file_config.wakeword.max_recording_ms,
                DEFAULT_WAKEWORD_MAX_RECORDING_MS,
            ),
        ),
        press_enter: resolve_flag(
            args.press_enter,
            args.no_press_enter,
            file_config.wakeword.press_enter,
            DEFAULT_WAKEWORD_PRESS_ENTER,
        ),
    }
}

/// Whether a space follows each transcript that a wakeword began.
pub fn resolve_wakeword_append_space(args: &WakewordArgs, file_config: &FileConfig) -> (r: bool)
    ensures
        r == flag(
            args.append_space,
            args.no_append_space,
            file_config.dictation.append_space,
            true,
        ),
{
    resolve_flag(
        args.append_space,
        args.no_append_space,
        file_config.dictation.append_space,
        true,
    )
}

/// Whether the user is told when the wakeword is heard.
pub fn resolve_wakeword_notify_on_detect(args: &WakewordArgs, file_config: &FileConfig) -> (r: bool)
    ensures
        r == flag(
            args.notify_on_detect,
            args.no_notify_on_detect,
            file_config.wakeword.notify_on_detect,
            DEFAULT_WAKEWORD_NOTIFY_ON_DETECT,
        ),
{
    resolve_flag(
        args.notify_on_detect,
        args.no_notify_on_detect,
        file_config.wakeword.notify_on_detect,
        DEFAULT_WAKEWORD_NOTIFY_ON_DETECT,
    )
}

/// The time between keys, in microseconds.
pub fn resolve_wakeword_inject_delay(args: &WakewordArgs, file_config: &FileConfig) -> (r: u32)
    ensures
        r == given_or(
            args.inject_delay_microsecs,
            file_config.dictation.inject_delay_microsecs,
            DEFAULT_INJECT_DELAY_MICROSECS,
        ),
{
    value_or(
        args.inject_delay_microsecs,
        file_config.dictation.inject_delay_microsecs,
        DEFAULT_INJECT_DELAY_MICROSECS,
    )
}

/// How long a pasted text stays on the clipboard, in milliseconds.
pub fn resolve_wakeword_paste_settle_delay_ms(file_config: &FileConfig) -> (r: u64)
    ensures
        r == given_or(
            None,
            file_config.dictation.paste_settle_delay_ms,
            DEFAULT_PASTE_SETTLE_DELAY_MS,
        ),
{
    value_or(None, file_config.dictation.paste_settle_delay_ms, DEFAULT_PASTE_SETTLE_DELAY_MS)
}

/// Whether text is pasted into terminals.
pub fn resolve_wakeword_paste_in_terminals(file_config: &FileConfig) -> (r: bool)
    ensures
        r == given_or(
            None,
            file_config.dictation.paste_in_terminals,
            DEFAULT_PASTE_IN_TERMINALS,
        ),
{
    value_or(None, file_config.dictation.paste_in_terminals, DEFAULT_PASTE_IN_TERMINALS)
}

/// How a live dictation that a wakeword began is done.
#[derive(Debug, Clone, PartialEq, Eq)]
pub struct WakewordStreamingConfig {
    pub transcriber: RealtimeTranscriber,
    pub listening_marker: Option<String>,
    pub inline_partials: bool,
    pub partial_chunking: PartialChunkingConfig,
    pub final_transcript: bool,
}

/// Whether a live dictation that a wakeword began is done as the files say.
pub open spec fn streams_as_told(
    config: DictateLiveConfig,
    dictation: DictationFileConfig,
    streaming: WakewordStreamingConfig,
) -> bool {
    &&& streaming.transcriber.base_url@ == config.base_url@
    &&& streaming.transcriber.model@ == config.model@
    &&& text::opt_view(streaming.transcriber.language) == text::opt_view(config.language)
    &&& text::opt_view(streaming.transcriber.record_dir) == text::opt_view(dictation.record_dir)
    &&& streaming.transcriber.preroll@ == 0
    &&& streaming.transcriber.sample_rate == audio::SAMPLE_RATE
    &&& streaming.transcriber.final_pass == given_or(None, dictation.final_pass, true)
    &&& text::opt_view(streaming.listening_marker) == marker(
        None,
        text::opt_view(dictation.listening_marker),
    )
    &&& streaming.inline_partials == given_or(None, dictation.inline_partials, true)
    &&& streaming.partial_chunking.enabled == given_or(
        None,
        dictation.partial_chunking,
        DEFAULT_PARTIAL_CHUNKING,
    )
    &&& streaming.partial_chunking.delay@ == given_or(
        None,
        dictation.partial_chunk_delay_ms,
        DEFAULT_PARTIAL_CHUNK_DELAY_MS,
    ) * 1_000_000
    &&& streaming.partial_chunking.max_delay@ == given_or(
        None,
        dictation.partial_chunk_max_delay_ms,
        DEFAULT_PARTIAL_CHUNK_MAX_DELAY_MS,
    ) * 1_000_000
    &&& streaming.final_transcript == given_or(None, dictation.final_pass, true)
}

/// How a live dictation that a wakeword began is done, where there is to be one. The wakeword is
/// heard by a capture of its own, so no sound from before belongs to the dictation.
pub fn build_wakeword_streaming_config(config: &DictateLiveConfig, file_config: &FileConfig) -> (r:
    Option<WakewordStreamingConfig>)
    ensures
        match r {
            None => !given_or(None, file_config.dictation.realtime_partials, false),
            Some(streaming) => given_or(None, file_config.dictation.realtime_partials, false)
                && streams_as_told(*config, file_config.dictation, streaming),
        },
{
    let dictation = &file_config.dictation;
    if !value_or(None, dictation.realtime_partials, false) {
        return None;
    }
    let final_pass: bool = value_or(None, dictation.final_pass, true);
    let transcriber = RealtimeTranscriber::new(
        config.base_url.clone(),
        config.model.clone(),
        text::clone_optional(&config.language),
    ).with_preroll(Duration::zero()).with_final_pass(final_pass).with_record_dir(
        text::clone_optional(&dictation.record_dir),
    );
    Some(
        WakewordStreamingConfig {
            transcriber,
            listening_marker: listening_marker(&None, &dictation.listening_marker),
            inline_partials: value_or(None, dictation.inline_partials, true),
            partial_chunking: PartialChunkingConfig {
                enabled: value_or(None, dictation.partial_chunking, DEFAULT_PARTIAL_CHUNKING),
                delay: Duration::from_millis(
                    value_or(
                        None,
                        dictation.partial_chunk_delay_ms,
                        DEFAULT_PARTIAL_CHUNK_DELAY_MS,
                    ),
                ),
                max_delay: Duration::from_millis(
                    value_or(
                        None,
                        dictation.partial_chunk_max_delay_ms,
                        DEFAULT_PARTIAL_CHUNK_MAX_DELAY_MS,
                    ),
                ),
            },
            final_transcript: final_pass,
        },
    )
}

/// How dictation by wakeword is done.
#[derive(Debug, Clone, PartialEq, Eq)]
pub struct WakewordRunConfig {
    pub settings: WakewordSettings,
    pub base_url: String,
    pub stt_options: TranscribeOptions,
    pub append_space: bool,
    pub notify_on_detect: bool,
    pub streaming: Option<WakewordStreamingConfig>,
}

/// What transcribes for the daemon.
#[derive(Debug, Clone, PartialEq, Eq)]
pub enum DaemonTranscriber {
    /// Live, over a realtime session.
    Realtime(RealtimeTranscriber),
    /// At the end of each dictation.
    Final(FinalHttpTranscriber),
}

/// Whether a realtime transcriber is the one that the settings ask for.
pub open spec fn realtime_as_told(
    settings: DaemonSettings,
    config: DictateLiveConfig,
    transcriber: RealtimeTranscriber,
) -> bool {
    &&& transcriber.base_url == config.base_url
    &&& transcriber.model == config.model
    &&& transcriber.language == config.language
    &&& text::opt_view(transcriber.record_dir) == text::opt_view(settings.record_dir)
    &&& transcriber.preroll@ == settings.preroll_ms * 1_000_000
    &&& transcriber.sample_rate == audio::SAMPLE_RATE
    &&& transcriber.final_pass == settings.final_pass
}

/// Whether a transcriber of whole dictations is the one that the settings ask for.
pub open spec fn final_as_told(
    settings: DaemonSettings,
    config: DictateLiveConfig,
    transcriber: FinalHttpTranscriber,
) -> bool {
    &&& transcriber.base_url == config.base_url
    &&& transcriber.options == (TranscribeOptions {
        model: config.model,
        response_format: ResponseFormat::Text,
        language: config.language,
        prompt: None,
        hotwords: None,
        without_timestamps: true,
        stream: settings.stream_response,
    })
    &&& text::opt_view(transcriber.transcript_dir) == text::opt_view(settings.transcript_dir)
    &&& text::opt_view(transcriber.record_dir) == text::opt_view(settings.record_dir)
    &&& transcriber.leading_silence@ == settings.leading_silence_ms * 1_000_000
    &&& transcriber.preroll@ == settings.preroll_ms * 1_000_000
    &&& transcriber.sample_rate == audio::STT_SAMPLE_RATE
}

/// What transcribes for the daemon: live where live transcripts are wanted.
pub fn daemon_transcriber(settings: &DaemonSettings, config: DictateLiveConfig) -> (r:
    DaemonTranscriber)
    ensures
        match r {
            DaemonTranscriber::Realtime(transcriber) => settings.realtime_partials
                && realtime_as_told(*settings, config, transcriber),
            DaemonTranscriber::Final(transcriber) => !settings.realtime_partials && final_as_told(
                *settings,
                config,
                transcriber,
            ),
        },
{
    let preroll = Duration::from_millis(settings.preroll_ms);
    let record_dir = text::clone_optional(&settings.record_dir);
    if settings.realtime_partials {
        DaemonTranscriber::Realtime(
            RealtimeTranscriber::new(
                config.base_url,
                config.model,
                config.language,
            ).with_preroll(preroll).with_final_pass(settings.final_pass).with_record_dir(
                record_dir,
            ),
        )
    } else {
        let options = dictation_options(config.model, config.language, settings.stream_response);
        DaemonTranscriber::Final(
            FinalHttpTranscriber::new(config.base_url, options).with_leading_silence(
                Duration::from_millis(settings.leading_silence_ms),
            ).with_preroll(preroll).with_transcript_dir(
                text::clone_optional(&settings.transcript_dir),
            ).with_record_dir(record_dir),
        )
    }
}

/// The controller of the daemon.
pub fn daemon_controller<S, I: TextInjector, V: TranscriptNotifier, N: ErrorNotifier>(
    settings: &DaemonSettings,
    injector: I,
    transcript_notifier: V,
    error_notifier: N,
) -> (r: StreamingDictationController<S, I, V, N>)
    ensures
        r.is_idle_with(injector, transcript_notifier, error_notifier),
        r.options().listening_marker == match text::opt_view(settings.listening_marker) {
            Some(marker) => text::non_empty(marker),
            None => None,
        },
        r.options().partial.inline_partials == settings.inline_partials,
        r.options().partial.chunking.enabled == settings.partial_chunking,
        r.options().partial.chunking.delay@ == settings.partial_chunk_delay_ms * 1_000_000,
        r.options().partial.chunking.max_delay@ == settings.partial_chunk_max_delay_ms * 1_000_000,
        r.options().final_transcript == (settings.final_pass || !settings.realtime_partials),
        r.options().append_space == settings.append_space,
{
    StreamingDictationController::new_with_notifiers(
        injector,
        transcript_notifier,
        error_notifier,
    ).with_listening_marker(text::clone_optional(&settings.listening_marker)).with_inline_partials(
        settings.inline_partials,
    ).with_partial_chunking_config(settings.chunking()).with_final_transcript(
        settings.writes_final_transcript(),
    ).with_append_space(settings.append_space)
}

/// The controller of a live dictation that a wakeword began.
pub fn wakeword_controller<S, I: TextInjector>(
    streaming: &WakewordStreamingConfig,
    append_space: bool,
    injector: I,
) -> (r: StreamingDictationController<S, I, NoopTranscriptNotifier, NoopErrorNotifier>)
    ensures
        r.is_idle_with(injector, NoopTranscriptNotifier, NoopErrorNotifier),
        r.options().listening_marker == match text::opt_view(streaming.listening_marker) {
            Some(marker) => text::non_empty(marker),
            None => None,
        },
        r.options().partial.inline_partials == streaming.inline_partials,
        r.options().partial.chunking == streaming.partial_chunking,
        r.options().final_transcript == streaming.final_transcript,
        r.options().append_space == append_space,
{
    StreamingDictationController::new(injector).with_listening_marker(
        text::clone_optional(&streaming.listening_marker),
    ).with_inline_partials(streaming.inline_partials).with_partial_chunking_config(
        streaming.partial_chunking,
    ).with_final_transcript(streaming.final_transcript).with_append_space(append_space)
}

/// How dictation by wakeword is done, given how the server is reached and how live dictation is
/// done.
pub fn wakeword_run_config(
    args: &WakewordArgs,
    file_config: &FileConfig,
    settings: WakewordSettings,
    config: DictateLiveConfig,
    streaming: Option<WakewordStreamingConfig>,
) -> (r: WakewordRunConfig)
    ensures
        r.settings == settings,
        r.base_url == config.base_url,
        r.stt_options == (TranscribeOptions {
            model: config.model,
            response_format: ResponseFormat::Text,
            language: config.language,
            prompt: None,
            hotwords: None,
            without_timestamps: true,
            stream: false,
        }),
        r.append_space == flag(
            args.append_space,
            args.no_append_space,
            file_config.dictation.append_space,
            true,
        ),
        r.notify_on_detect == flag(
            args.notify_on_detect,
            args.no_notify_on_detect,
            file_config.wakeword.notify_on_detect,
            DEFAULT_WAKEWORD_NOTIFY_ON_DETECT,
        ),
        r.streaming == streaming,
{
    WakewordRunConfig {
        settings,
        base_url: config.base_url,
        stt_options: dictation_options(config.model, config.language, false),
        append_space: resolve_wakeword_append_space(args, file_config),
        notify_on_detect: resolve_wakeword_notify_on_detect(args, file_config),
        streaming,
    }
}

/// The injector for a daemon.
pub fn daemon_injector(settings: &DaemonSettings) -> (r: DesktopTextInjector)
    ensures
        r.delay() == settings.inject_delay_microsecs,
        r.settle_delay() == settings.paste_settle_delay_ms,
        r.pastes_in_terminals() == settings.paste_in_terminals,
{
    DesktopTextInjector::new_with_options(
        settings.inject_delay_microsecs,
        settings.paste_settle_delay_ms,
        settings.paste_in_terminals,
    )
}

/// How long a smoke test records, in seconds: at least one.
pub fn smoke_seconds(record_seconds: u64) -> (r: u64)
    ensures
        r == if record_seconds < 1 {
            1
        } else {
            record_seconds
        },
{
    if record_seconds < 1 {
        1
    } else {
        record_seconds
    }
}

/// The exit code of a live session.
pub fn phase_exit_code(result: PhaseResult) -> (r: u8)
    ensures
        r == match result {
            PhaseResult::Passed => 0u8,
            PhaseResult::Failed => 1u8,
            PhaseResult::Blocked => 2u8,
            PhaseResult::Incomplete => 3u8,
        },
{
    match result {
        PhaseResult::Passed => 0,
        PhaseResult::Failed => 1,
        PhaseResult::Blocked => 2,
        PhaseResult::Incomplete => 3,
    }
}

/// The message where the daemon cannot be reached.
pub fn connection_error(socket_path: &str, cause: &str) -> (r: String)
    ensures
        r@ == "failed to connect to speaches-companion daemon at "@ + socket_path@ + ": "@ + cause@,
{
    let mut out = "failed to connect to speaches-companion daemon at ".to_owned();
    out.append(socket_path);
    out.append(": ");
    out.append(cause);
    out
}

/// What a daemon needs before it can serve hotkeys.
///
/// Each `.._reply` relation holds of the answers that an implementation may give, and of the state
/// that it may have then.
pub trait RealtimeDaemonStartup: Sized {
    open spec fn capture_reply(&self, after: Self, reply: Result<(), String>) -> bool {
        true
    }

    open spec fn warm_up_reply(&self, after: Self, reply: Result<(), String>) -> bool {
        true
    }

    /// Begins to capture sound.
    fn prepare_capture(&mut self) -> (r: Result<(), String>)
        ensures
            old(self).capture_reply(*final(self), r),
    ;

    /// Warms the server up.
    fn warm_up(&mut self) -> (r: Result<(), String>)
        ensures
            old(self).warm_up_reply(*final(self), r),
    ;
}

/// Why a daemon cannot serve hotkeys.
#[derive(Debug, Clone, PartialEq, Eq)]
pub enum StartupError {
    /// No sound can be captured.
    Capture(String),
    /// The server cannot be warmed up.
    WarmUp(String),
}

/// The text of a [`StartupError`].
pub open spec fn startup_error_text(error: StartupError) -> Seq<char> {
    match error {
        StartupError::Capture(cause) => "failed to start continuous audio capture: "@ + cause@,
        StartupError::WarmUp(cause) => "realtime transcription backend is unavailable: "@ + cause@,
    }
}

impl StartupError {
    /// The text of this error.
    pub fn message(&self) -> (r: String)
        ensures
            r@ == startup_error_text(*self),
    {
        match self {
            StartupError::Capture(cause) => {
                let mut out = "failed to start continuous audio capture: ".to_owned();
                out.append(cause.as_str());
                out
            },
            StartupError::WarmUp(cause) => {
                let mut out = "realtime transcription backend is unavailable: ".to_owned();
                out.append(cause.as_str());
                out
            },
        }
    }
}

/// What comes of getting ready: sound is captured (`capturing`, `captured`), and only where that
/// succeeded the server is warmed up (`warmed`).
pub open spec fn made_ready<T: RealtimeDaemonStartup>(
    before: T,
    capturing: T,
    captured: Result<(), String>,
    warmed: Result<(), String>,
    after: T,
    r: Result<(), StartupError>,
) -> bool {
    &&& before.capture_reply(capturing, captured)
    &&& match captured {
        Err(cause) => after == capturing && r == Err::<(), StartupError>(
            StartupError::Capture(cause),
        ),
        Ok(_) => {
            &&& capturing.warm_up_reply(after, warmed)
            &&& match warmed {
                Err(cause) => r == Err::<(), StartupError>(StartupError::WarmUp(cause)),
                Ok(_) => r == Ok::<(), StartupError>(()),
            }
        },
    }
}

/// Gets a transcriber ready for a daemon: captures sound, then warms the server up.
pub fn prepare_realtime_daemon_transcriber<T: RealtimeDaemonStartup>(transcriber: &mut T) -> (r:
    Result<(), StartupError>)
    ensures
        exists|capturing: T, captured: Result<(), String>, warmed: Result<(), String>| #[trigger]
            made_ready(*old(transcriber), capturing, captured, warmed, *final(transcriber), r),
{
    let ghost before = *transcriber;
    let captured = transcriber.prepare_capture();
    let ghost capturing = *transcriber;
    if let Err(cause) = captured {
        let r: Result<(), StartupError> = Err(StartupError::Capture(cause));
        proof {
            assert(made_ready(before, capturing, captured, captured, *transcriber, r));
        }
        return r;
    }
    let warmed = transcriber.warm_up();
    let r: Result<(), StartupError> = match warmed {
        Err(cause) => Err(StartupError::WarmUp(cause)),
        Ok(()) => Ok(()),
    };
    proof {
        assert(made_ready(before, capturing, captured, warmed, *transcriber, r));
    }
    r
}

/// What the command line says counts before what the file says, and that before the default.
pub proof fn command_line_flags_win(on: bool, off: bool, file: Option<bool>, default: bool)
    ensures
        on ==> flag(on, off, file, default),
        !on && off ==> !flag(on, off, file, default),
        !on && !off && file is Some ==> flag(on, off, file, default) == file->0,
        !on && !off && file is None ==> flag(on, off, file, default) == default,
{
}

/// What the command line gives counts before what the file says, and that before the default.
pub proof fn given_values_count_in_turn<T>(cli: T, file: Option<T>, value: T, default: T)
    ensures
        given_or(Some(cli), file, default) == cli,
        given_or(None, Some(value), default) == value,
        given_or(None::<T>, None, default) == default,
{
}

/// The text of the command line counts before that of the file, and that before the default.
pub proof fn given_texts_count_in_turn(cli: Seq<char>, file: Option<Seq<char>>, default: Seq<char>)
    ensures
        first_text(Some(cli), file) == Some(cli),
        first_text(None, file) == file,
        text_or_default(Some(cli), default) == cli,
        text_or_default(None, default) == default,
{
}

/// A marker that is given blank switches the marker off; one that is not given is the default one. It
/// is shown without the white space at its ends.
pub proof fn blank_markers_are_not_shown(given: Seq<char>, file: Option<Seq<char>>)
    ensures
        text::trimmed(given).len() > 0 ==> marker(Some(given), file) == Some(text::trimmed(given))
            && marker(None, Some(given)) == Some(text::trimmed(given)),
        text::trimmed(given).len() == 0 ==> marker(Some(given), file) is None && marker(
            None,
            Some(given),
        ) is None,
        marker(None, None) == text::non_empty(DEFAULT_LISTENING_MARKER@),
{
}

/// A live transcriber is made for what is wanted: the server, model and language of the configuration,
/// the sound from before the hotkey, the final pass, and the directory for recordings.
pub proof fn live_transcribers_are_as_wanted(
    settings: DaemonSettings,
    config: DictateLiveConfig,
    transcriber: RealtimeTranscriber,
)
    requires
        realtime_as_told(settings, config, transcriber),
    ensures
        transcriber.base_url@ == config.base_url@,
        transcriber.model@ == config.model@,
        text::opt_view(transcriber.language) == text::opt_view(config.language),
        transcriber.preroll@ == settings.preroll_ms * 1_000_000,
        transcriber.sample_rate == 24_000,
        transcriber.final_pass == settings.final_pass,
        text::opt_view(transcriber.record_dir) == text::opt_view(settings.record_dir),
{
}

/// A transcriber of whole dictations is made for what is wanted: it asks for plain text without times,
/// as a stream where that is wanted, and sends the speech behind the silence that is wanted.
pub proof fn final_transcribers_are_as_wanted(
    settings: DaemonSettings,
    config: DictateLiveConfig,
    transcriber: FinalHttpTranscriber,
)
    requires
        final_as_told(settings, config, transcriber),
    ensures
        transcriber.base_url@ == config.base_url@,
        transcriber.options.model@ == config.model@,
        text::opt_view(transcriber.options.language) == text::opt_view(config.language),
        transcriber.options.response_format == ResponseFormat::Text,
        transcriber.options.without_timestamps,
        transcriber.options.prompt is None,
        transcriber.options.hotwords is None,
        transcriber.options.stream == settings.stream_response,
        transcriber.leading_silence@ == settings.leading_silence_ms * 1_000_000,
        transcriber.preroll@ == settings.preroll_ms * 1_000_000,
        transcriber.sample_rate == 16_000,
        text::opt_view(transcriber.transcript_dir) == text::opt_view(settings.transcript_dir),
        text::opt_view(transcriber.record_dir) == text::opt_view(settings.record_dir),
{
}

/// Live dictation by wakeword is done as the file says of dictation, on the server of the
/// configuration, with no sound from before.
pub proof fn wakewords_stream_as_dictation_does(
    config: DictateLiveConfig,
    dictation: DictationFileConfig,
    streaming: WakewordStreamingConfig,
)
    requires
        streams_as_told(config, dictation, streaming),
    ensures
        streaming.transcriber.base_url@ == config.base_url@,
        streaming.transcriber.model@ == config.model@,
        text::opt_view(streaming.transcriber.language) == text::opt_view(config.language),
        streaming.transcriber.preroll@ == 0,
        streaming.transcriber.sample_rate == 24_000,
        dictation.final_pass matches Some(on) ==> streaming.transcriber.final_pass == on,
        dictation.final_pass is None ==> streaming.transcriber.final_pass,
        streaming.final_transcript == streaming.transcriber.final_pass,
        dictation.inline_partials matches Some(on) ==> streaming.inline_partials == on,
        dictation.inline_partials is None ==> streaming.inline_partials,
        dictation.partial_chunking matches Some(on) ==> streaming.partial_chunking.enabled == on,
        dictation.partial_chunk_delay_ms matches Some(ms) ==> streaming.partial_chunking.delay@ == ms
            * 1_000_000,
        dictation.partial_chunk_max_delay_ms matches Some(ms)
            ==> streaming.partial_chunking.max_delay@ == ms * 1_000_000,
{
}

/// Sound is captured before the server is warmed up, and only where that succeeded; the daemon can
/// serve exactly if both did, and else says which did not.
pub proof fn capture_comes_before_warmup<T: RealtimeDaemonStartup>(
    before: T,
    capturing: T,
    captured: Result<(), String>,
    warmed: Result<(), String>,
    after: T,
    r: Result<(), StartupError>,
)
    requires
        made_ready(before, capturing, captured, warmed, after, r),
    ensures
        before.capture_reply(capturing, captured),
        captured matches Err(cause) ==> after == capturing && r == Err::<(), StartupError>(
            StartupError::Capture(cause),
        ),
        captured is Ok ==> capturing.warm_up_reply(after, warmed),
        captured is Ok ==> (warmed matches Err(cause) ==> r == Err::<(), StartupError>(
            StartupError::WarmUp(cause),
        )),
        captured is Ok && warmed is Ok ==> r is Ok,
{
}

/// The message of a failed start ends with its cause.
pub proof fn failed_starts_say_why(cause: String)
    ensures
        text::ends(startup_error_text(StartupError::Capture(cause)), cause@),
        text::ends(startup_error_text(StartupError::WarmUp(cause)), cause@),
{
    text::parts_are_found("failed to start continuous audio capture: "@, cause@, cause@);
    text::parts_are_found("realtime transcription backend is unavailable: "@, cause@, cause@);
}

} // verus!
