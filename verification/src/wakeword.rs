//! Dictation that a wakeword begins and silence ends.

use vstd::prelude::*;
use vstd::string::*;

use crate::audio;
use crate::audio::{copy_bytes, pcm_bytes_wide, PcmSnapshot, STT_SAMPLE_RATE};
use crate::clock::Duration;
use crate::daemon::DaemonResponse;
use crate::double;
use crate::double::Double;
use crate::environment::Environment;
use crate::inject;
use crate::inject::{format_transcript_for_injection, InjectError, TextInjector};
use crate::openwakeword::{WakeScorer, WakewordError};
use crate::single;
use crate::single::Single;
use crate::speech;
use crate::speech::{pcm_rms_s16le, pcm_s16le_samples, DEFAULT_SPEECH_RMS_FLOOR};
use crate::text;

verus! {

pub const DEFAULT_WAKEWORD_NAME: &'static str = "default";

/// The bits of the default threshold: one half.
pub const DEFAULT_WAKEWORD_THRESHOLD: u32 = 0x3f00_0000;

pub const DEFAULT_WAKEWORD_FRAME_MS: u64 = 80;

pub const DEFAULT_WAKEWORD_SILENCE_TIMEOUT_MS: u64 = 5_000;

pub const DEFAULT_WAKEWORD_ACTIVATION_GRACE_MS: u64 = 5_000;

pub const DEFAULT_WAKEWORD_MAX_RECORDING_MS: u64 = 30_000;

pub const DEFAULT_WAKEWORD_PRESS_ENTER: bool = true;

/// How much sound is kept while the wakeword is waited for, in milliseconds.
pub const DEFAULT_WAKEWORD_IDLE_RETAIN_MS: u64 = 5_000;

pub const OPENWAKEWORD_CACHE_DIR: &'static str = "_openwakeword";

pub const OPENWAKEWORD_RELEASE_VERSION: &'static str = "v0.5.1";

pub const OPENWAKEWORD_RELEASE_BASE_URL: &'static str =
    "https://github.com/dscripka/openWakeWord/releases/download/v0.5.1";

pub const OPENWAKEWORD_MELSPECTROGRAM_FILENAME: &'static str = "melspectrogram.onnx";

pub const OPENWAKEWORD_EMBEDDING_FILENAME: &'static str = "embedding_model.onnx";

/// The shortest time between two looks at the sound, in nanoseconds.
pub const MIN_POLL_NANOS: u128 = 10_000_000;

/// What recognizes the wakeword.
#[derive(Debug, Clone, Copy, PartialEq, Eq, Structural)]
pub enum WakewordEngine {
    Openwakeword,
    Onnx,
}

/// The wakewords that come with openWakeWord.
#[derive(Debug, Clone, Copy, PartialEq, Eq, Structural)]
pub enum OpenWakewordStockModel {
    Alexa,
    Timer,
    Weather,
}

impl Default for WakewordEngine {
    fn default() -> (r: Self)
        ensures
            r == WakewordEngine::Openwakeword,
    {
        WakewordEngine::Openwakeword
    }
}

impl Default for OpenWakewordStockModel {
    fn default() -> (r: Self)
        ensures
            r == OpenWakewordStockModel::Alexa,
    {
        OpenWakewordStockModel::Alexa
    }
}

/// The file of a model.
pub open spec fn asset_file(model: OpenWakewordStockModel) -> Seq<char> {
    match model {
        OpenWakewordStockModel::Alexa => "alexa_v0.1.onnx"@,
        OpenWakewordStockModel::Timer => "timer_v0.1.onnx"@,
        OpenWakewordStockModel::Weather => "weather_v0.1.onnx"@,
    }
}

impl OpenWakewordStockModel {
    /// The file of a model.
    pub fn asset_filename(self) -> (r: &'static str)
        ensures
            r@ == asset_file(self),
    {
        match self {
            OpenWakewordStockModel::Alexa => "alexa_v0.1.onnx",
            OpenWakewordStockModel::Timer => "timer_v0.1.onnx",
            OpenWakewordStockModel::Weather => "weather_v0.1.onnx",
        }
    }
}

/// How wakewords are recognized, and what follows.
#[derive(Debug, Clone, PartialEq, Eq)]
pub struct WakewordSettings {
    pub name: String,
    pub engine: WakewordEngine,
    pub stock_model: OpenWakewordStockModel,
    pub assets_dir: Option<String>,
    pub root_dir: String,
    pub threshold: Single,
    pub frame: Duration,
    pub silence_timeout: Duration,
    pub activation_grace: Duration,
    pub max_recording: Duration,
    pub press_enter: bool,
}

/// The files of a wakeword.
#[derive(Debug, Clone, PartialEq, Eq)]
pub struct WakewordPaths {
    pub root: String,
    pub model_path: String,
    pub metadata_path: String,
    pub shared_assets_dir: String,
    pub melspectrogram_path: String,
    pub embedding_model_path: String,
}

/// Whether a character may stand in the name of a wakeword.
pub open spec fn name_char(c: char) -> bool {
    ('0' <= c && c <= '9') || ('a' <= c && c <= 'z') || ('A' <= c && c <= 'Z') || c == '-' || c
        == '_'
}

/// Whether a text is the name of a wakeword.
pub open spec fn valid_name(name: Seq<char>) -> bool {
    name.len() > 0 && forall|i: int| 0 <= i < name.len() ==> name_char(#[trigger] name[i])
}

/// A text as the name of a wakeword. Nothing in it leads to another directory.
pub fn validate_wakeword_name(name: &str) -> (r: Result<&str, WakewordError>)
    ensures
        match r {
            Ok(valid) => valid_name(name@) && valid@ == name@,
            Err(error) => !valid_name(name@) && error == if name@.len() == 0 {
                WakewordError::EmptyName
            } else {
                WakewordError::InvalidName
            },
        },
{
    let chars = text::chars_of(name);
    if chars.len() == 0 {
        return Err(WakewordError::EmptyName);
    }
    let mut i: usize = 0;
    while i < chars.len()
        invariant
            i <= chars@.len(),
            chars@ == name@,
            forall|j: int| 0 <= j < i ==> name_char(#[trigger] name@[j]),
        decreases chars@.len() - i,
    {
        let c = chars[i];
        if !(('0' <= c && c <= '9') || ('a' <= c && c <= 'z') || ('A' <= c && c <= 'Z') || c == '-'
            || c == '_') {
            proof {
                assert(!name_char(name@[i as int]));
            }
            return Err(WakewordError::InvalidName);
        }
        i += 1;
    }
    Ok(name)
}

/// A name has no slash and no dot: a path made with it stays below its directory.
pub proof fn names_stay_below_their_directory(name: Seq<char>)
    requires
        valid_name(name),
    ensures
        !name.contains('/'),
        !name.contains('.'),
{
    assert forall|i: int| 0 <= i < name.len() implies name[i] != '/' && name[i] != '.' by {
        assert(name_char(name[i]));
    }
}

/// The directory for what all wakewords share.
pub open spec fn shared_dir(root_dir: Seq<char>) -> Seq<char> {
    text::joined_path(
        text::joined_path(root_dir, OPENWAKEWORD_CACHE_DIR@),
        OPENWAKEWORD_RELEASE_VERSION@,
    )
}

/// The files of a wakeword.
pub fn wakeword_paths(settings: &WakewordSettings) -> (r: Result<WakewordPaths, WakewordError>)
    ensures
        match r {
            Ok(paths) => {
                let root = text::joined_path(settings.root_dir@, settings.name@);
                let shared = shared_dir(settings.root_dir@);
                &&& valid_name(settings.name@)
                &&& paths.root@ == root
                &&& paths.model_path@ == text::joined_path(root, "model.onnx"@)
                &&& paths.metadata_path@ == text::joined_path(root, "metadata.json"@)
                &&& paths.shared_assets_dir@ == shared
                &&& paths.melspectrogram_path@ == text::joined_path(
                    shared,
                    OPENWAKEWORD_MELSPECTROGRAM_FILENAME@,
                )
                &&& paths.embedding_model_path@ == text::joined_path(
                    shared,
                    OPENWAKEWORD_EMBEDDING_FILENAME@,
                )
            },
            Err(error) => !valid_name(settings.name@) && error == if settings.name@.len() == 0 {
                WakewordError::EmptyName
            } else {
                WakewordError::InvalidName
            },
        },
{
    let name = match validate_wakeword_name(settings.name.as_str()) {
        Ok(name) => name,
        Err(error) => {
            return Err(error);
        },
    };
    let root = text::join_path(settings.root_dir.as_str(), name);
    let cache = text::join_path(settings.root_dir.as_str(), OPENWAKEWORD_CACHE_DIR);
    let shared = text::join_path(cache.as_str(), OPENWAKEWORD_RELEASE_VERSION);
    Ok(
        WakewordPaths {
            model_path: text::join_path(root.as_str(), "model.onnx"),
            metadata_path: text::join_path(root.as_str(), "metadata.json"),
            melspectrogram_path: text::join_path(
                shared.as_str(),
                OPENWAKEWORD_MELSPECTROGRAM_FILENAME,
            ),
            embedding_model_path: text::join_path(
                shared.as_str(),
                OPENWAKEWORD_EMBEDDING_FILENAME,
            ),
            root,
            shared_assets_dir: shared,
        },
    )
}

/// The directory of all wakewords, given the environment.
pub open spec fn wakeword_root(
    data_home: Option<Seq<char>>,
    home: Option<Seq<char>>,
) -> Seq<char> {
    let base = if data_home is Some && data_home->0.len() > 0 {
        data_home->0
    } else if home is Some && home->0.len() > 0 {
        text::joined_path(home->0, ".local/share"@)
    } else {
        "."@
    };
    text::joined_path(base, "speaches-companion/wakewords"@)
}

/// The directory of all wakewords, given the environment.
pub fn default_wakeword_root_with_env(env: &Environment) -> (r: String)
    ensures
        r@ == wakeword_root(env.value_of("XDG_DATA_HOME"@), env.value_of("HOME"@)),
{
    if let Some(data_home) = env.get("XDG_DATA_HOME") {
        if data_home.unicode_len() > 0 {
            return text::join_path(data_home, "speaches-companion/wakewords");
        }
    }
    if let Some(home) = env.get("HOME") {
        if home.unicode_len() > 0 {
            let base = text::join_path(home, ".local/share");
            return text::join_path(base.as_str(), "speaches-companion/wakewords");
        }
    }
    text::join_path(".", "speaches-companion/wakewords")
}

/// How a file that all wakewords share is had.
#[derive(Debug, Clone, PartialEq, Eq)]
pub enum AssetAction {
    /// It is there.
    Keep,
    /// It is copied from this path.
    CopyFrom(String),
    /// It is downloaded from this address.
    Download(String),
}

/// How a file that all wakewords share is had: if it is missing, it is copied from the directory of
/// assets where there is one, else downloaded.
pub fn asset_action(is_there: bool, assets_dir: Option<&str>, asset_name: &str) -> (r: AssetAction)
    ensures
        if is_there {
            r == AssetAction::Keep
        } else {
            match assets_dir {
                Some(dir) => r matches AssetAction::CopyFrom(path) && path@ == text::joined_path(
                    dir@,
                    asset_name@,
                ),
                None => r matches AssetAction::Download(url) && url@
                    == OPENWAKEWORD_RELEASE_BASE_URL@ + "/"@ + asset_name@,
            }
        },
{
    if is_there {
        return AssetAction::Keep;
    }
    match assets_dir {
        Some(dir) => AssetAction::CopyFrom(text::join_path(dir, asset_name)),
        None => {
            let mut url = OPENWAKEWORD_RELEASE_BASE_URL.to_owned();
            url.append("/");
            url.append(asset_name);
            AssetAction::Download(url)
        },
    }
}

/// The message where a file is missing from the directory of assets.
pub fn missing_asset_message(asset_name: &str, assets_dir: &str) -> (r: String)
    ensures
        r@ == "openWakeWord asset "@ + asset_name@ + " is missing from configured assets_dir "@
            + assets_dir@,
{
    let mut out = "openWakeWord asset ".to_owned();
    out.append(asset_name);
    out.append(" is missing from configured assets_dir ");
    out.append(assets_dir);
    out
}

/// What is stored beside the model of a wakeword.
#[derive(Debug, Clone, PartialEq, Eq)]
pub struct WakewordMetadata {
    pub name: String,
    pub engine: WakewordEngine,
    pub stock_model: Option<OpenWakewordStockModel>,
    pub threshold: Single,
    pub frame_ms: u64,
    pub model_path: String,
    pub shared_assets_dir: Option<String>,
}

/// What is stored beside the model of a wakeword. Only with openWakeWord is there anything shared.
pub fn wakeword_metadata(settings: &WakewordSettings, paths: &WakewordPaths) -> (r:
    WakewordMetadata)
    ensures
        r.name@ == settings.name@,
        r.engine == settings.engine,
        r.threshold == settings.threshold,
        r.frame_ms == settings.frame@ / 1_000_000 % 0x1_0000_0000_0000_0000,
        r.model_path@ == paths.model_path@,
        settings.engine == WakewordEngine::Openwakeword ==> r.stock_model == Some(
            settings.stock_model,
        ) && text::opt_view(r.shared_assets_dir) == Some(paths.shared_assets_dir@),
        settings.engine == WakewordEngine::Onnx ==> r.stock_model is None && r.shared_assets_dir
            is None,
{
    let shared = settings.engine == WakewordEngine::Openwakeword;
    WakewordMetadata {
        name: settings.name.clone(),
        engine: settings.engine,
        stock_model: if shared {
            Some(settings.stock_model)
        } else {
            None
        },
        threshold: settings.threshold,
        frame_ms: (settings.frame.as_millis() % 0x1_0000_0000_0000_0000) as u64,
        model_path: paths.model_path.clone(),
        shared_assets_dir: if shared {
            Some(paths.shared_assets_dir.clone())
        } else {
            None
        },
    }
}

/// A wakeword was heard.
#[derive(Debug, Clone, Copy, PartialEq, Eq, Structural)]
pub struct WakeDetection {
    pub score: Single,
}

/// Tells when the wakeword is heard.
pub struct WakeDetector<S: WakeScorer> {
    scorer: S,
    threshold: Single,
    frame_samples: usize,
    pending: Vec<i16>,
}

/// How many samples a frame of the given length has: at least one.
pub open spec fn frame_samples_in(nanos: nat) -> nat {
    let samples = audio::pcm_bytes(STT_SAMPLE_RATE, nanos) / 2;
    if samples < 1 {
        1
    } else {
        samples
    }
}

/// Whether the samples at hand were scored, frame by frame, until one reached the threshold:
/// `after`, `rest` and `r` came of it. Then all samples are forgotten.
pub open spec fn observed<S: WakeScorer>(
    scorer: S,
    pending: Seq<i16>,
    frame: nat,
    threshold: Single,
    after: S,
    rest: Seq<i16>,
    r: Result<Option<WakeDetection>, WakewordError>,
) -> bool
    decreases pending.len(),
{
    if frame == 0 || pending.len() < frame {
        after == scorer && rest == pending && r == Ok::<Option<WakeDetection>, WakewordError>(None)
    } else {
        exists|next: S, reply: Result<Single, WakewordError>| {
            &&& #[trigger] scorer.score_reply(pending.take(frame as int), next, reply)
            &&& match reply {
                Err(error) => after == next && rest == pending.skip(frame as int) && r == Err::<
                    Option<WakeDetection>,
                    WakewordError,
                >(error),
                Ok(score) => if single::reaches(score, threshold) {
                    after == next && rest == Seq::<i16>::empty() && r == Ok::<
                        Option<WakeDetection>,
                        WakewordError,
                    >(Some(WakeDetection { score }))
                } else {
                    observed(
                        next,
                        pending.skip(frame as int),
                        frame,
                        threshold,
                        after,
                        rest,
                        r,
                    )
                },
            }
        }
    }
}

/// The samples of some sound, as they are handed to a scorer.
pub open spec fn sample_seq(pcm: Seq<u8>) -> Seq<i16> {
    speech::samples(pcm).map_values(|s: int| s as i16)
}

impl<S: WakeScorer> WakeDetector<S> {
    /// What scores the sound.
    pub closed spec fn scores_with(&self) -> S {
        self.scorer
    }

    /// The samples that do not fill a frame yet.
    pub closed spec fn waiting(&self) -> Seq<i16> {
        self.pending@
    }

    /// How many samples a frame has.
    pub closed spec fn frame(&self) -> nat {
        self.frame_samples as nat
    }

    /// The score from which on the wakeword is heard.
    pub closed spec fn limit(&self) -> Single {
        self.threshold
    }

    /// A detector that has heard nothing.
    pub fn new(scorer: S, threshold: Single, frame: Duration) -> (r: Self)
        requires
            audio::pcm_bytes(STT_SAMPLE_RATE, frame@) <= usize::MAX,
        ensures
            r.scores_with() == scorer,
            r.limit() == threshold,
            r.frame() == frame_samples_in(frame@),
            r.waiting() == Seq::<i16>::empty(),
    {
        let samples: usize = (pcm_bytes_wide(STT_SAMPLE_RATE, frame) / 2) as usize;
        let frame_samples: usize = if samples < 1 {
            1
        } else {
            samples
        };
        Self { scorer, threshold, frame_samples, pending: Vec::new() }
    }

    /// What scores the sound, to be changed in place.
    pub fn scorer_mut(&mut self) -> (r: &mut S)
        ensures
            *r == old(self).scores_with(),
            final(self).scores_with() == *final(r),
            final(self).limit() == old(self).limit(),
            final(self).frame() == old(self).frame(),
            final(self).waiting() == old(self).waiting(),
    {
        &mut self.scorer
    }

    /// Takes more sound. Answers whether the wakeword was heard in it.
    pub fn observe_pcm(&mut self, pcm: &[u8]) -> (r: Result<Option<WakeDetection>, WakewordError>)
        ensures
            final(self).frame() == old(self).frame(),
            final(self).limit() == old(self).limit(),
            observed(
                old(self).scores_with(),
                old(self).waiting() + sample_seq(pcm@),
                old(self).frame(),
                old(self).limit(),
                final(self).scores_with(),
                final(self).waiting(),
                r,
            ),
    {
        let ghost s0 = self.scores_with();
        let ghost frame = self.frame();
        let ghost limit = self.limit();
        let samples = pcm_s16le_samples(pcm);
        self.pending.extend_from_slice(&samples);
        let ghost p0 = old(self).waiting() + sample_seq(pcm@);
        proof {
            assert(samples@ =~= sample_seq(pcm@));
            assert(self.pending@ =~= p0);
        }
        while self.frame_samples > 0 && self.pending.len() >= self.frame_samples
            invariant
                self.frame() == frame,
                self.limit() == limit,
                s0 == old(self).scores_with(),
                frame == old(self).frame(),
                limit == old(self).limit(),
                p0 == old(self).waiting() + sample_seq(pcm@),
                forall|
                    after: S,
                    rest: Seq<i16>,
                    r: Result<Option<WakeDetection>, WakewordError>,
                | #[trigger]
                    observed(
                        self.scores_with(),
                        self.waiting(),
                        frame,
                        limit,
                        after,
                        rest,
                        r,
                    ) ==> observed(s0, p0, frame, limit, after, rest, r),
            decreases self.waiting().len(),
        {
            let ghost s = self.scores_with();
            let ghost p = self.waiting();
            let tail = self.pending.split_off(self.frame_samples);
            proof {
                assert(self.pending@ =~= p.take(frame as int));
                assert(tail@ =~= p.skip(frame as int));
            }
            let reply = self.scorer.score(&self.pending);
            let ghost next = self.scores_with();
            self.pending = tail;
            proof {
                assert(s.score_reply(p.take(frame as int), next, reply));
            }
            match reply {
                Err(error) => {
                    let r: Result<Option<WakeDetection>, WakewordError> = Err(error);
                    proof {
                        assert(observed(
                            s,
                            p,
                            frame,
                            limit,
                            self.scores_with(),
                            self.waiting(),
                            r,
                        ));
                    }
                    return r;
                },
                Ok(score) => {
                    if score.at_least(self.threshold) {
                        self.pending.clear();
                        let r: Result<Option<WakeDetection>, WakewordError> = Ok(
                            Some(WakeDetection { score }),
                        );
                        proof {
                            assert(observed(
                                s,
                                p,
                                frame,
                                limit,
                                self.scores_with(),
                                self.waiting(),
                                r,
                            ));
                        }
                        return r;
                    }
                    proof {
                        let s1 = self.scores_with();
                        let p1 = self.waiting();
                        assert forall|
                            after: S,
                            rest: Seq<i16>,
                            r: Result<Option<WakeDetection>, WakewordError>,
                        | #[trigger]
                            observed(s1, p1, frame, limit, after, rest, r) implies observed(
                            s0,
                            p0,
                            frame,
                            limit,
                            after,
                            rest,
                            r,
                        ) by {
                            assert(s.score_reply(p.take(frame as int), next, reply));
                            assert(observed(s, p, frame, limit, after, rest, r));
                        }
                    }
                },
            }
        }
        let r: Result<Option<WakeDetection>, WakewordError> = Ok(None);
        proof {
            assert(observed(
                self.scores_with(),
                self.waiting(),
                frame,
                limit,
                self.scores_with(),
                self.waiting(),
                r,
            ));
        }
        r
    }
}

/// Samples that come behind others are scored behind them: `observed` of the first ones goes on
/// where it ended without an answer, and is not touched by what comes behind an answer.
proof fn later_samples_are_scored_later<S: WakeScorer>(
    scorer: S,
    pending: Seq<i16>,
    more: Seq<i16>,
    frame: nat,
    threshold: Single,
    middle: S,
    rest: Seq<i16>,
    first: Result<Option<WakeDetection>, WakewordError>,
    after: S,
    left: Seq<i16>,
    r: Result<Option<WakeDetection>, WakewordError>,
)
    requires
        frame > 0,
        observed(scorer, pending, frame, threshold, middle, rest, first),
        match first {
            Ok(None) => observed(middle, rest + more, frame, threshold, after, left, r),
            Ok(Some(_)) => after == middle && left == Seq::<i16>::empty() && r == first,
            Err(_) => after == middle && left == rest + more && r == first,
        },
    ensures
        observed(scorer, pending + more, frame, threshold, after, left, r),
    decreases pending.len(),
{
    if pending.len() >= frame {
        let (next, reply) = choose|next: S, reply: Result<Single, WakewordError>| {
            &&& #[trigger] scorer.score_reply(pending.take(frame as int), next, reply)
            &&& match reply {
                Err(error) => middle == next && rest == pending.skip(frame as int) && first
                    == Err::<Option<WakeDetection>, WakewordError>(error),
                Ok(score) => if single::reaches(score, threshold) {
                    middle == next && rest == Seq::<i16>::empty() && first == Ok::<
                        Option<WakeDetection>,
                        WakewordError,
                    >(Some(WakeDetection { score }))
                } else {
                    observed(
                        next,
                        pending.skip(frame as int),
                        frame,
                        threshold,
                        middle,
                        rest,
                        first,
                    )
                },
            }
        };
        assert((pending + more).take(frame as int) =~= pending.take(frame as int));
        assert((pending + more).skip(frame as int) =~= pending.skip(frame as int) + more);
        if reply matches Ok(score) && !single::reaches(score, threshold) {
            later_samples_are_scored_later(
                next,
                pending.skip(frame as int),
                more,
                frame,
                threshold,
                middle,
                rest,
                first,
                after,
                left,
                r,
            );
        }
        assert(scorer.score_reply((pending + more).take(frame as int), next, reply));
    }
}

/// Sound that comes in two goes is scored in the same frames as in one, as long as the first one
/// ends with a whole sample. Where no wakeword was heard in the first, the second goes on with what
/// it left; where one was, or scoring failed, the first go alone tells what scoring both at once
/// does: the sound behind it is forgotten with the rest, or waits.
pub proof fn sound_may_be_observed_in_parts<S: WakeScorer>(
    scorer: S,
    waiting: Seq<i16>,
    first: Seq<u8>,
    second: Seq<u8>,
    frame: nat,
    threshold: Single,
    middle: S,
    rest: Seq<i16>,
    answer: Result<Option<WakeDetection>, WakewordError>,
    after: S,
    left: Seq<i16>,
    r: Result<Option<WakeDetection>, WakewordError>,
)
    requires
        frame > 0,
        first.len() % 2 == 0,
        observed(
            scorer,
            waiting + sample_seq(first),
            frame,
            threshold,
            middle,
            rest,
            answer,
        ),
        match answer {
            Ok(None) => observed(
                middle,
                rest + sample_seq(second),
                frame,
                threshold,
                after,
                left,
                r,
            ),
            Ok(Some(_)) => after == middle && left == Seq::<i16>::empty() && r == answer,
            Err(_) => after == middle && left == rest + sample_seq(second) && r == answer,
        },
    ensures
        observed(
            scorer,
            waiting + sample_seq(first + second),
            frame,
            threshold,
            after,
            left,
            r,
        ),
{
    assert(sample_seq(first + second) =~= sample_seq(first) + sample_seq(second));
    assert(waiting + sample_seq(first + second) =~= (waiting + sample_seq(first)) + sample_seq(
        second,
    ));
    later_samples_are_scored_later(
        scorer,
        waiting + sample_seq(first),
        sample_seq(second),
        frame,
        threshold,
        middle,
        rest,
        answer,
        after,
        left,
        r,
    );
}

/// Where the sound that is new since `cursor` begins in what a capture still keeps.
pub open spec fn fresh_start(kept: nat, seen: nat, cursor: nat) -> nat {
    let buffer_start = if seen > kept {
        (seen - kept) as nat
    } else {
        0
    };
    let start = if cursor > buffer_start {
        (cursor - buffer_start) as nat
    } else {
        0
    };
    if start < kept {
        start
    } else {
        kept
    }
}

/// The sound of a capture that is new since `cursor`, which tells how much had arrived when it was
/// looked at last.
pub fn take_fresh_audio(snapshot: &PcmSnapshot, cursor: &mut usize) -> (r: Vec<u8>)
    ensures
        *final(cursor) == snapshot.bytes_seen,
        r@ == snapshot.pcm@.skip(
            fresh_start(
                snapshot.pcm@.len(),
                snapshot.bytes_seen as nat,
                *old(cursor) as nat,
            ) as int,
        ),
{
    let kept: usize = snapshot.pcm.len();
    let buffer_start: usize = if snapshot.bytes_seen > kept {
        snapshot.bytes_seen - kept
    } else {
        0
    };
    let start: usize = if *cursor > buffer_start {
        *cursor - buffer_start
    } else {
        0
    };
    let start: usize = if start < kept {
        start
    } else {
        kept
    };
    *cursor = snapshot.bytes_seen;
    let fresh = copy_bytes(&snapshot.pcm, start, kept);
    proof {
        assert(fresh@ =~= snapshot.pcm@.skip(start as int));
    }
    fresh
}

/// Sound that was kept from before is not taken for new: nothing is new until more has arrived, and
/// then as much as has arrived, as far as it is still kept.
pub proof fn only_later_audio_is_fresh(kept: nat, seen: nat, cursor: nat)
    requires
        kept <= seen,
        cursor <= seen,
    ensures
        kept - fresh_start(kept, seen, cursor) == if seen - cursor <= kept {
            seen - cursor
        } else {
            kept as int
        },
        fresh_start(kept, seen, seen) == kept,
{
}

/// How long is waited between two looks at the sound, in nanoseconds: half a frame, but not too
/// short.
pub open spec fn poll_interval(frame_nanos: nat) -> nat {
    if frame_nanos / 2 > MIN_POLL_NANOS {
        frame_nanos / 2
    } else {
        MIN_POLL_NANOS as nat
    }
}

/// How long is waited between two looks at the sound, in nanoseconds.
pub fn poll_interval_nanos(frame: Duration) -> (r: u128)
    ensures
        r == poll_interval(frame@),
{
    let half: u128 = frame.as_nanos() / 2;
    if half > MIN_POLL_NANOS {
        half
    } else {
        MIN_POLL_NANOS
    }
}

/// What is known of a recording that silence is to end. Points in time are counted in nanoseconds
/// from some fixed one.
#[derive(Debug, Clone, Copy, PartialEq, Eq, Structural)]
pub struct SilenceWatch {
    pub started: u128,
    pub last_speech: u128,
    pub saw_speech: bool,
}

/// The time from one point to another; none if that is earlier.
pub open spec fn time_since(at: u128, now: u128) -> nat {
    if now > at {
        (now - at) as nat
    } else {
        0
    }
}

/// What is known after more sound.
pub open spec fn watched(watch: SilenceWatch, pcm: Seq<u8>, now: u128) -> SilenceWatch {
    if speech::rms(pcm) >= double::parts(DEFAULT_SPEECH_RMS_FLOOR) {
        SilenceWatch { last_speech: now, saw_speech: true, ..watch }
    } else {
        watch
    }
}

/// Whether a recording is over: after enough silence behind speech, after too long without any, or
/// after too long at all.
pub open spec fn recording_over(
    watch: SilenceWatch,
    settings: WakewordSettings,
    now: u128,
) -> bool {
    ||| watch.saw_speech && time_since(watch.last_speech, now) >= settings.silence_timeout@
    ||| !watch.saw_speech && time_since(watch.started, now) >= settings.activation_grace@
    ||| time_since(watch.started, now) >= settings.max_recording@
}

fn elapsed(at: u128, now: u128) -> (r: u128)
    ensures
        r == time_since(at, now),
{
    if now > at {
        now - at
    } else {
        0
    }
}

impl SilenceWatch {
    /// A recording that has just begun.
    pub fn new(now: u128) -> (r: Self)
        ensures
            r == (SilenceWatch { started: now, last_speech: now, saw_speech: false }),
    {
        SilenceWatch { started: now, last_speech: now, saw_speech: false }
    }

    /// Takes more sound. Answers whether the recording is over.
    pub fn hear(&mut self, new_pcm: &[u8], settings: &WakewordSettings, now: u128) -> (r: bool)
        ensures
            *final(self) == watched(*old(self), new_pcm@, now),
            r == recording_over(*final(self), *settings, now),
    {
        let floor = Double { bits: DEFAULT_SPEECH_RMS_FLOOR };
        if !pcm_rms_s16le(new_pcm).is_below(floor) {
            self.saw_speech = true;
            self.last_speech = now;
        }
        (self.saw_speech && elapsed(self.last_speech, now) >= settings.silence_timeout.as_nanos())
            || (!self.saw_speech && elapsed(self.started, now)
            >= settings.activation_grace.as_nanos()) || elapsed(self.started, now)
            >= settings.max_recording.as_nanos()
    }
}

/// What is taken of a recording: nothing, if there was no speech in it.
pub fn wake_recording(watch: &SilenceWatch, pcm: Vec<u8>) -> (r: Vec<u8>)
    ensures
        r@ == if watch.saw_speech {
            pcm@
        } else {
            Seq::<u8>::empty()
        },
{
    if watch.saw_speech {
        pcm
    } else {
        Vec::new()
    }
}

/// A recording never goes on beyond its longest time, and while the user speaks nothing else ends
/// it.
pub proof fn recordings_end_in_time(watch: SilenceWatch, settings: WakewordSettings, now: u128)
    ensures
        time_since(watch.started, now) >= settings.max_recording@ ==> recording_over(
            watch,
            settings,
            now,
        ),
        watch.saw_speech && time_since(watch.last_speech, now) < settings.silence_timeout@
            && time_since(watch.started, now) < settings.max_recording@ ==> !recording_over(
            watch,
            settings,
            now,
        ),
{
}

/// A text was typed by one call, and only where that succeeded and it is wanted, the enter key was
/// pressed by another.
pub open spec fn typed_and_entered<I: TextInjector>(
    before: I,
    text: Seq<char>,
    press_enter: bool,
    written: I,
    typed: Result<(), InjectError>,
    after: I,
    r: Result<(), InjectError>,
) -> bool {
    &&& before.inject_reply(text, written, typed)
    &&& match typed {
        Err(error) => after == written && r == Err::<(), InjectError>(error),
        Ok(_) => if press_enter {
            written.enter_reply(after, r)
        } else {
            after == written && r == Ok::<(), InjectError>(())
        },
    }
}

/// A text was typed, and entered if wanted; `after` and `r` came of it.
pub open spec fn entered<I: TextInjector>(
    before: I,
    text: Seq<char>,
    press_enter: bool,
    after: I,
    r: Result<(), InjectError>,
) -> bool {
    exists|written: I, typed: Result<(), InjectError>| #[trigger]
        typed_and_entered(before, text, press_enter, written, typed, after, r)
}

/// Writes the transcript of a recording, and presses enter behind it if wanted. Where nothing was
/// understood, nothing is done.
pub fn write_wake_transcript<I: TextInjector>(
    injector: &mut I,
    transcript: &str,
    append_space: bool,
    press_enter: bool,
) -> (r: Result<(), InjectError>)
    ensures
        match inject::formatted(transcript@, append_space) {
            None => *final(injector) == *old(injector) && r == Ok::<(), InjectError>(()),
            Some(text) => entered(*old(injector), text, press_enter, *final(injector), r),
        },
{
    match format_transcript_for_injection(transcript, append_space) {
        None => Ok(()),
        Some(text) => {
            let ghost before = *injector;
            let typed = injector.inject_text(text.as_str());
            let ghost written = *injector;
            let r: Result<(), InjectError> = match typed {
                Err(error) => Err(error),
                Ok(()) => if press_enter {
                    injector.press_enter()
                } else {
                    Ok(())
                },
            };
            proof {
                assert(typed_and_entered(
                    before,
                    text@,
                    press_enter,
                    written,
                    typed,
                    *injector,
                    r,
                ));
            }
            r
        },
    }
}

/// Presses enter behind a live dictation: if wanted, if there was speech, and if the dictation was
/// under way. If not, nothing is done.
pub fn finish_streaming_wake<I: TextInjector>(
    injector: &mut I,
    saw_speech: bool,
    press_enter: bool,
    response: DaemonResponse,
) -> (r: Result<(), InjectError>)
    ensures
        if saw_speech && press_enter && response == DaemonResponse::Stopped {
            old(injector).enter_reply(*final(injector), r)
        } else {
            *final(injector) == *old(injector) && r == Ok::<(), InjectError>(())
        },
{
    if saw_speech && press_enter && response == DaemonResponse::Stopped {
        injector.press_enter()
    } else {
        Ok(())
    }
}

/// The name of the file for a recording.
pub fn wake_file_name(millis: u128) -> (r: String)
    ensures
        r@ == "speaches-companion-wakeword-"@ + text::decimal(millis as nat) + ".wav"@,
{
    let mut out = "speaches-companion-wakeword-".to_owned();
    out.append(text::decimal_text(millis).as_str());
    out.append(".wav");
    out
}

/// Names the file that tells what dictation by wakeword is doing.
pub const WAKEWORD_ACTIVITY_STATE_FILE_ENV: &'static str =
    "SPEACHES_COMPANION_WAKEWORD_ACTIVITY_STATE_FILE";

/// Names the command that is run whenever that changes.
pub const WAKEWORD_ACTIVITY_REFRESH_COMMAND_ENV: &'static str =
    "SPEACHES_COMPANION_WAKEWORD_ACTIVITY_REFRESH_COMMAND";

/// Where others are told what dictation by wakeword is doing.
#[derive(Debug, Clone, PartialEq, Eq)]
pub struct WakewordActivityReporter {
    pub state_file: Option<String>,
    pub refresh_command: Option<String>,
}

/// What dictation by wakeword is doing.
#[derive(Debug, Clone, Copy, PartialEq, Eq, Structural)]
pub enum WakewordActivity {
    Recording,
    Waiting,
}

impl WakewordActivityReporter {
    /// What the environment names: a file unless its name is empty, a command unless it is blank.
    pub fn from_env(env: &Environment) -> (r: Self)
        ensures
            text::opt_view(r.state_file) == match env.value_of(WAKEWORD_ACTIVITY_STATE_FILE_ENV@) {
                Some(path) => if path.len() > 0 {
                    Some(path)
                } else {
                    None
                },
                None => None,
            },
            text::opt_view(r.refresh_command) == match env.value_of(
                WAKEWORD_ACTIVITY_REFRESH_COMMAND_ENV@,
            ) {
                Some(command) => if text::trimmed(command).len() > 0 {
                    Some(command)
                } else {
                    None
                },
                None => None,
            },
    {
        let state_file = match env.get(WAKEWORD_ACTIVITY_STATE_FILE_ENV) {
            Some(path) => if path.unicode_len() > 0 {
                Some(path.to_owned())
            } else {
                None
            },
            None => None,
        };
        let refresh_command = match env.get(WAKEWORD_ACTIVITY_REFRESH_COMMAND_ENV) {
            Some(command) => if text::trim(command).unicode_len() > 0 {
                Some(command.to_owned())
            } else {
                None
            },
            None => None,
        };
        Self { state_file, refresh_command }
    }
}

impl WakewordActivity {
    /// The contents of the file that tells of it.
    pub fn state_line(self) -> (r: &'static str)
        ensures
            r@ == match self {
                WakewordActivity::Recording => "recording\n"@,
                WakewordActivity::Waiting => "waiting\n"@,
            },
    {
        match self {
            WakewordActivity::Recording => "recording\n",
            WakewordActivity::Waiting => "waiting\n",
        }
    }
}

/// Loud sound puts off the end of a recording, whatever was heard before: the silence is counted
/// from then on. A recording that has just heard it is not over, unless its longest time is.
pub proof fn speech_keeps_a_recording_going(
    watch: SilenceWatch,
    pcm: Seq<u8>,
    settings: WakewordSettings,
    now: u128,
)
    requires
        speech::rms(pcm) >= 700 * double::power(double::ONE as nat),
    ensures
        watched(watch, pcm, now).last_speech == now,
        watched(watch, pcm, now).saw_speech,
        watched(watch, pcm, now).started == watch.started,
        settings.silence_timeout@ > 0 && now - watch.started < settings.max_recording@
            && settings.max_recording@ > 0 ==> !recording_over(
            watched(watch, pcm, now),
            settings,
            now,
        ),
{
    speech::the_bounds_are_whole();
}

/// Quiet sound changes nothing but the time.
pub proof fn silence_is_not_taken_for_speech(watch: SilenceWatch, pcm: Seq<u8>, now: u128)
    requires
        speech::rms(pcm) < 700 * double::power(double::ONE as nat),
    ensures
        watched(watch, pcm, now) == watch,
{
    speech::the_bounds_are_whole();
}

/// A recording with speech is over once the silence behind the last of it has lasted long enough;
/// one without is over once the time to begin is up; both are over after the longest time, and at
/// no other moment.
pub proof fn recordings_end_with_silence(
    watch: SilenceWatch,
    settings: WakewordSettings,
    now: u128,
)
    requires
        watch.started <= watch.last_speech <= now,
    ensures
        watch.saw_speech ==> (recording_over(watch, settings, now) <==> now - watch.last_speech
            >= settings.silence_timeout@ || now - watch.started >= settings.max_recording@),
        !watch.saw_speech ==> (recording_over(watch, settings, now) <==> now - watch.started
            >= settings.activation_grace@ || now - watch.started >= settings.max_recording@),
{
}

/// The sound is looked at twice a frame, but not more often than each ten milliseconds.
pub proof fn looks_are_half_a_frame_apart(frame_nanos: nat)
    ensures
        poll_interval(frame_nanos) >= 10_000_000,
        poll_interval(frame_nanos) >= frame_nanos / 2,
        poll_interval(frame_nanos) == 10_000_000 || poll_interval(frame_nanos) == frame_nanos / 2,
{
}

/// As long as the samples do not fill a frame, nothing is scored and they wait.
pub proof fn short_sound_waits<S: WakeScorer>(
    scorer: S,
    pending: Seq<i16>,
    frame: nat,
    threshold: Single,
    after: S,
    rest: Seq<i16>,
    r: Result<Option<WakeDetection>, WakewordError>,
)
    requires
        pending.len() < frame,
        observed(scorer, pending, frame, threshold, after, rest, r),
    ensures
        after == scorer,
        rest == pending,
        r == Ok::<Option<WakeDetection>, WakewordError>(None),
{
}

/// The first full frame is scored as it came. If its score reaches the threshold, the wakeword was
/// heard with that score and all samples are forgotten; if scoring fails, that is the answer; else
/// the samples behind it are looked at in the same way.
pub proof fn frames_are_scored_in_turn<S: WakeScorer>(
    scorer: S,
    pending: Seq<i16>,
    frame: nat,
    threshold: Single,
    after: S,
    rest: Seq<i16>,
    r: Result<Option<WakeDetection>, WakewordError>,
) -> (step: (S, Result<Single, WakewordError>))
    requires
        0 < frame <= pending.len(),
        observed(scorer, pending, frame, threshold, after, rest, r),
    ensures
        scorer.score_reply(pending.subrange(0, frame as int), step.0, step.1),
        match step.1 {
            Ok(score) => if single::reaches(score, threshold) {
                r == Ok::<Option<WakeDetection>, WakewordError>(Some(WakeDetection { score }))
                    && rest.len() == 0 && after == step.0
            } else {
                observed(
                    step.0,
                    pending.subrange(frame as int, pending.len() as int),
                    frame,
                    threshold,
                    after,
                    rest,
                    r,
                )
            },
            Err(error) => r == Err::<Option<WakeDetection>, WakewordError>(error) && after == step.0,
        },
{
    let (next, reply) = choose|next: S, reply: Result<Single, WakewordError>| {
        &&& #[trigger] scorer.score_reply(pending.take(frame as int), next, reply)
        &&& match reply {
            Err(error) => after == next && rest == pending.skip(frame as int) && r == Err::<
                Option<WakeDetection>,
                WakewordError,
            >(error),
            Ok(score) => if single::reaches(score, threshold) {
                after == next && rest == Seq::<i16>::empty() && r == Ok::<
                    Option<WakeDetection>,
                    WakewordError,
                >(Some(WakeDetection { score }))
            } else {
                observed(next, pending.skip(frame as int), frame, threshold, after, rest, r)
            },
        }
    };
    assert(pending.subrange(0, frame as int) =~= pending.take(frame as int));
    assert(pending.subrange(frame as int, pending.len() as int) =~= pending.skip(frame as int));
    (next, reply)
}

/// What waits in the end is less than a frame, and the end of what was at hand; a wakeword is only
/// heard with a score that reaches the threshold, and then nothing waits.
pub proof fn less_than_a_frame_waits<S: WakeScorer>(
    scorer: S,
    pending: Seq<i16>,
    frame: nat,
    threshold: Single,
    after: S,
    rest: Seq<i16>,
    r: Result<Option<WakeDetection>, WakewordError>,
)
    requires
        frame > 0,
        observed(scorer, pending, frame, threshold, after, rest, r),
    ensures
        r is Ok ==> rest.len() < frame,
        r == Ok::<Option<WakeDetection>, WakewordError>(None) ==> rest.len() == pending.len()
            % frame && rest == pending.skip(pending.len() - rest.len()),
        r matches Ok(Some(detection)) ==> rest.len() == 0 && single::reaches(
            detection.score,
            threshold,
        ),
    decreases pending.len(),
{
    if pending.len() < frame {
        vstd::arithmetic::div_mod::lemma_small_mod(pending.len(), frame);
        assert(pending.skip(0) =~= pending);
    } else {
        let step = frames_are_scored_in_turn(scorer, pending, frame, threshold, after, rest, r);
        let left = pending.subrange(frame as int, pending.len() as int);
        if let Ok(score) = step.1 {
            if !single::reaches(score, threshold) {
                less_than_a_frame_waits(step.0, left, frame, threshold, after, rest, r);
                vstd::arithmetic::div_mod::lemma_mod_sub_multiples_vanish(
                    pending.len() as int,
                    frame as int,
                );
                assert((pending.len() - frame) % frame as int == pending.len() % frame) by {
                    vstd::arithmetic::div_mod::lemma_mod_sub_multiples_vanish(
                        pending.len() as int,
                        frame as int,
                    );
                }
                if r == Ok::<Option<WakeDetection>, WakewordError>(None) {
                    assert(left.skip(left.len() - rest.len()) =~= pending.skip(
                        pending.len() - rest.len(),
                    ));
                }
            }
        }
    }
}

/// A frame has the samples of its length at the rate of transcription, but at least one.
pub proof fn frames_have_their_length(nanos: nat)
    ensures
        frame_samples_in(nanos) >= 1,
        2 * frame_samples_in(nanos) == audio::pcm_bytes(STT_SAMPLE_RATE, nanos) || (
        frame_samples_in(nanos) == 1 && audio::pcm_bytes(STT_SAMPLE_RATE, nanos) < 2),
{
}

/// A transcript is typed before enter is pressed, and enter is pressed only behind one that was
/// typed well, where it is wanted.
pub proof fn enter_follows_the_text<I: TextInjector>(
    before: I,
    text: Seq<char>,
    press_enter: bool,
    after: I,
    r: Result<(), InjectError>,
) -> (step: (I, Result<(), InjectError>))
    requires
        entered(before, text, press_enter, after, r),
    ensures
        before.inject_reply(text, step.0, step.1),
        step.1 is Err ==> after == step.0 && r is Err && r->Err_0 == step.1->Err_0,
        step.1 is Ok && press_enter ==> step.0.enter_reply(after, r),
        step.1 is Ok && !press_enter ==> after == step.0 && r is Ok,
{
    let (written, typed) = choose|written: I, typed: Result<(), InjectError>| #[trigger]
        typed_and_entered(before, text, press_enter, written, typed, after, r);
    (written, typed)
}

/// A name may hold letters, digits, dashes and underscores of ASCII, and nothing else, and is not
/// empty.
pub proof fn names_are_made_of_plain_characters(name: Seq<char>, k: int)
    requires
        0 <= k < name.len(),
    ensures
        valid_name(name) ==> (('0' <= name[k] && name[k] <= '9') || ('a' <= name[k] && name[k]
            <= 'z') || ('A' <= name[k] && name[k] <= 'Z') || name[k] == '-' || name[k] == '_'),
        (forall|i: int|
            0 <= i < name.len() ==> (('0' <= #[trigger] name[i] && name[i] <= '9') || ('a'
                <= name[i] && name[i] <= 'z') || ('A' <= name[i] && name[i] <= 'Z') || name[i]
                == '-' || name[i] == '_')) ==> valid_name(name),
        !valid_name(Seq::<char>::empty()),
{
    if valid_name(name) {
        assert(name_char(name[k]));
    }
}

/// The directory of all wakewords is below the one that the environment names for data; else below
/// the home, else below the current one.
pub proof fn wakewords_are_below_the_data(data_home: Seq<char>, home: Seq<char>)
    requires
        data_home.len() > 0,
        home.len() > 0,
    ensures
        wakeword_root(Some(data_home), Some(home)) == text::joined_path(
            data_home,
            "speaches-companion/wakewords"@,
        ),
        wakeword_root(Some(data_home), None) == wakeword_root(Some(data_home), Some(home)),
        wakeword_root(None, Some(home)) == text::joined_path(
            text::joined_path(home, ".local/share"@),
            "speaches-companion/wakewords"@,
        ),
        wakeword_root(Some(seq![]), Some(home)) == wakeword_root(None, Some(home)),
        wakeword_root(None, None) == text::joined_path("."@, "speaches-companion/wakewords"@),
        wakeword_root(Some(seq![]), Some(seq![])) == wakeword_root(None, None),
{
}

/// What all wakewords share is below their directory, apart for each release.
pub proof fn shared_files_are_below_the_root(root_dir: Seq<char>)
    ensures
        shared_dir(root_dir) == text::joined_path(
            text::joined_path(root_dir, "_openwakeword"@),
            "v0.5.1"@,
        ),
{
}

/// Each model has its file.
pub proof fn models_have_their_files()
    ensures
        asset_file(OpenWakewordStockModel::Alexa) == "alexa_v0.1.onnx"@,
        asset_file(OpenWakewordStockModel::Timer) == "timer_v0.1.onnx"@,
        asset_file(OpenWakewordStockModel::Weather) == "weather_v0.1.onnx"@,
{
}

/// The scorer gets the samples of the sound, in their order.
pub proof fn scorers_get_the_samples(pcm: Seq<u8>, k: int)
    requires
        0 <= k < pcm.len() / 2,
    ensures
        sample_seq(pcm).len() == pcm.len() / 2,
        sample_seq(pcm)[k] as int == speech::sample_value(pcm[2 * k], pcm[2 * k + 1]),
{
    speech::samples_are_little_endian(pcm[2 * k], pcm[2 * k + 1]);
}

} // verus!
