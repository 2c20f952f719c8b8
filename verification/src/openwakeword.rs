//! The pipeline that scores sound for a wakeword: sound becomes a mel spectrogram, windows of it
//! become features, and windows of features become scores. The three models are run by a backend.

use std::collections::VecDeque;

use vstd::prelude::*;
use vstd::string::*;

use crate::audio;
use crate::single;
use crate::single::Single;
use crate::text;

verus! {

/// The samples of a frame: 80 milliseconds.
pub const OPENWAKEWORD_FRAME_SAMPLES: usize = 1_280;

/// How many samples before new ones the spectrogram needs.
pub const OPENWAKEWORD_MELSPEC_CONTEXT_SAMPLES: usize = 480;

/// The values of one step of the spectrogram.
pub const OPENWAKEWORD_MEL_BINS: usize = 32;

/// How many steps of the spectrogram make a window.
pub const OPENWAKEWORD_MEL_WINDOW_FRAMES: usize = 76;

/// How many steps of the spectrogram are kept.
pub const OPENWAKEWORD_MELSPEC_MAX_FRAMES: usize = 970;

/// By how many steps one window follows another.
pub const OPENWAKEWORD_EMBEDDING_STEP_FRAMES: usize = 8;

/// The values of one feature.
pub const OPENWAKEWORD_EMBEDDING_DIM: usize = 96;

/// How many features are kept.
pub const OPENWAKEWORD_FEATURE_MAX_FRAMES: usize = 120;

/// How many samples are kept: ten seconds.
pub const OPENWAKEWORD_RAW_BUFFER_MAX_SAMPLES: usize = 160_000;

/// How many windows at the start count nothing.
pub const OPENWAKEWORD_WARMUP_WINDOWS: usize = 5;

/// Why sound could not be scored.
#[derive(Debug, Clone, PartialEq, Eq)]
pub enum WakewordError {
    /// The keyword model takes no feature.
    NoKeywordFrames,
    /// There is too little sound.
    TooLittleContext,
    /// There is more sound than can be counted.
    TooManySamples,
    /// The spectrogram is not made of whole steps.
    UnevenMel { len: usize },
    /// There is more new sound than the spectrogram covers.
    MelTooShort,
    /// A feature is not of the right size.
    WrongEmbedding { len: usize },
    /// There is more new sound than the features cover.
    FeaturesTooShort,
    /// The input of the keyword model does not have three dimensions.
    WrongKeywordRank { shape: String },
    /// The input of the keyword model is not one list of features.
    WrongKeywordShape { shape: String },
    /// A wakeword has no name.
    EmptyName,
    /// A wakeword has a name that is none.
    InvalidName,
    /// What the backend reports.
    Backend(String),
}

/// The text of a [`WakewordError`].
pub open spec fn wakeword_error_text(error: WakewordError) -> Seq<char> {
    match error {
        WakewordError::NoKeywordFrames =>
            "openWakeWord keyword model must consume at least one feature frame"@,
        WakewordError::TooLittleContext => "openWakeWord needs at least 480 samples of context"@,
        WakewordError::TooManySamples => "openWakeWord received more samples than it can count"@,
        WakewordError::UnevenMel { len } => "openWakeWord melspectrogram output "@ + text::decimal(
            len as nat,
        ) + " is not divisible by 32 mel bins"@,
        WakewordError::MelTooShort => "openWakeWord melspectrogram does not cover the new audio"@,
        WakewordError::WrongEmbedding { len } => "openWakeWord embedding output has "@
            + text::decimal(len as nat) + " values, expected 96"@,
        WakewordError::FeaturesTooShort => "openWakeWord features do not cover the new audio"@,
        WakewordError::WrongKeywordRank { shape } =>
            "openWakeWord keyword model input rank must be 3, got shape "@ + shape@,
        WakewordError::WrongKeywordShape { shape } =>
            "openWakeWord keyword model input must be [1, frames, 96], got "@ + shape@,
        WakewordError::EmptyName => "wakeword name must not be empty"@,
        WakewordError::InvalidName =>
            "wakeword name must contain only ASCII letters, digits, '-' or '_'"@,
        WakewordError::Backend(message) => message@,
    }
}

impl WakewordError {
    /// The text of this error.
    pub fn message(&self) -> (r: String)
        ensures
            r@ == wakeword_error_text(*self),
    {
        match self {
            WakewordError::NoKeywordFrames =>
                "openWakeWord keyword model must consume at least one feature frame".to_owned(),
            WakewordError::TooLittleContext =>
                "openWakeWord needs at least 480 samples of context".to_owned(),
            WakewordError::TooManySamples =>
                "openWakeWord received more samples than it can count".to_owned(),
            WakewordError::UnevenMel { len } => {
                let mut out = "openWakeWord melspectrogram output ".to_owned();
                out.append(text::decimal_text(*len as u128).as_str());
                out.append(" is not divisible by 32 mel bins");
                out
            },
            WakewordError::MelTooShort =>
                "openWakeWord melspectrogram does not cover the new audio".to_owned(),
            WakewordError::WrongEmbedding { len } => {
                let mut out = "openWakeWord embedding output has ".to_owned();
                out.append(text::decimal_text(*len as u128).as_str());
                out.append(" values, expected 96");
                out
            },
            WakewordError::FeaturesTooShort =>
                "openWakeWord features do not cover the new audio".to_owned(),
            WakewordError::WrongKeywordRank { shape } => {
                let mut out =
                    "openWakeWord keyword model input rank must be 3, got shape ".to_owned();
                out.append(shape.as_str());
                out
            },
            WakewordError::WrongKeywordShape { shape } => {
                let mut out =
                    "openWakeWord keyword model input must be [1, frames, 96], got ".to_owned();
                out.append(shape.as_str());
                out
            },
            WakewordError::EmptyName => "wakeword name must not be empty".to_owned(),
            WakewordError::InvalidName =>
                "wakeword name must contain only ASCII letters, digits, '-' or '_'".to_owned(),
            WakewordError::Backend(message) => message.clone(),
        }
    }
}

/// The numbers of a shape in decimal notation.
pub open spec fn dimensions(shape: Seq<usize>) -> Seq<Seq<char>> {
    shape.map_values(|n: usize| text::decimal(n as nat))
}

/// A shape as it is written in messages.
pub open spec fn shape_text(shape: Seq<usize>) -> Seq<char> {
    "["@ + text::joined(dimensions(shape), ", "@) + "]"@
}

fn written_shape(shape: &[usize]) -> (r: String)
    ensures
        r@ == shape_text(shape@),
{
    let mut numbers: Vec<String> = Vec::new();
    let mut i: usize = 0;
    while i < shape.len()
        invariant
            i <= shape@.len(),
            numbers@.len() == i,
            forall|k: int|
                0 <= k < i ==> (#[trigger] numbers@[k])@ == text::decimal(shape@[k] as nat),
        decreases shape@.len() - i,
    {
        numbers.push(text::decimal_text(shape[i] as u128));
        i += 1;
    }
    proof {
        assert(text::views(numbers@) =~= dimensions(shape@));
    }
    let mut out = "[".to_owned();
    out.append(text::join(&numbers, ", ").as_str());
    out.append("]");
    out
}

/// How many features a keyword model takes at a time, by the shape of its input.
pub fn infer_keyword_frames(shape: &[usize]) -> (r: Result<usize, WakewordError>)
    ensures
        match r {
            Ok(frames) => shape@.len() == 3 && shape@[0] == 1 && shape@[1] == frames && shape@[2]
                == OPENWAKEWORD_EMBEDDING_DIM,
            Err(WakewordError::WrongKeywordRank { shape: written }) => shape@.len() != 3 && written@
                == shape_text(shape@),
            Err(WakewordError::WrongKeywordShape { shape: written }) => {
                &&& shape@.len() == 3
                &&& shape@[0] != 1 || shape@[2] != OPENWAKEWORD_EMBEDDING_DIM
                &&& written@ == shape_text(shape@)
            },
            Err(_) => false,
        },
{
    if shape.len() != 3 {
        return Err(WakewordError::WrongKeywordRank { shape: written_shape(shape) });
    }
    if shape[0] != 1 || shape[2] != OPENWAKEWORD_EMBEDDING_DIM {
        return Err(WakewordError::WrongKeywordShape { shape: written_shape(shape) });
    }
    Ok(shape[1])
}

/// What runs the three models.
///
/// Each `.._reply` relation holds of the answers that an implementation may give, and of the state
/// that it may have then.
pub trait OpenWakewordBackend: Sized {
    open spec fn frames_reply(&self, reply: usize) -> bool {
        true
    }

    open spec fn mel_reply(
        &self,
        samples: Seq<i16>,
        after: Self,
        reply: Result<Vec<Single>, WakewordError>,
    ) -> bool {
        true
    }

    open spec fn embedding_reply(
        &self,
        mel_window: Seq<Single>,
        after: Self,
        reply: Result<Vec<Single>, WakewordError>,
    ) -> bool {
        true
    }

    open spec fn keyword_reply(
        &self,
        feature_window: Seq<Single>,
        after: Self,
        reply: Result<Single, WakewordError>,
    ) -> bool {
        true
    }

    /// How many features the keyword model takes at a time.
    fn keyword_frames(&self) -> (r: usize)
        ensures
            self.frames_reply(r),
    ;

    /// The spectrogram of some samples.
    fn run_melspectrogram(&mut self, samples: &[i16]) -> (r: Result<Vec<Single>, WakewordError>)
        ensures
            old(self).mel_reply(samples@, *final(self), r),
    ;

    /// The feature of a window of the spectrogram.
    fn run_embedding(&mut self, mel_window: &[Single]) -> (r: Result<Vec<Single>, WakewordError>)
        ensures
            old(self).embedding_reply(mel_window@, *final(self), r),
    ;

    /// The score of a window of features.
    fn run_keyword(&mut self, feature_window: &[Single]) -> (r: Result<Single, WakewordError>)
        ensures
            old(self).keyword_reply(feature_window@, *final(self), r),
    ;
}

/// The state of a pipeline.
pub struct PipelineView {
    /// The last samples.
    pub raw: Seq<i16>,
    /// Samples that do not fill a frame yet and were not put with the others.
    pub remainder: Seq<i16>,
    /// How many samples were put with the others since features were made last.
    pub accumulated: nat,
    /// The last steps of the spectrogram.
    pub mel: Seq<Single>,
    /// The last features.
    pub features: Seq<Single>,
    /// How many windows still count nothing.
    pub warmup: nat,
    /// The last score.
    pub last: Single,
}

/// The pipeline.
pub struct OpenWakewordPipelineScorer<B: OpenWakewordBackend> {
    backend: B,
    raw_data_buffer: VecDeque<i16>,
    raw_data_remainder: Vec<i16>,
    accumulated_samples: usize,
    melspectrogram_buffer: Vec<Single>,
    feature_buffer: Vec<Single>,
    warmup_windows_remaining: usize,
    last_score: Single,
}

/// Whether a number of samples is less than a frame, or a number of whole frames.
pub open spec fn whole_or_less(samples: nat) -> bool {
    samples < OPENWAKEWORD_FRAME_SAMPLES || samples % OPENWAKEWORD_FRAME_SAMPLES as nat == 0
}

/// The state after some samples were put with the others.
pub open spec fn buffered(state: PipelineView, samples: Seq<i16>) -> PipelineView {
    PipelineView {
        raw: audio::recent(
            state.raw + samples,
            OPENWAKEWORD_RAW_BUFFER_MAX_SAMPLES as nat,
        ),
        accumulated: state.accumulated + samples.len(),
        ..state
    }
}

/// The state after new samples have come: once a frame is full, those beyond whole frames are set
/// aside.
pub open spec fn taken(state: PipelineView, pcm: Seq<i16>) -> PipelineView {
    let samples = state.remainder + pcm;
    let cleared = PipelineView { remainder: seq![], ..state };
    let total = state.accumulated + samples.len();
    let frame = OPENWAKEWORD_FRAME_SAMPLES as nat;
    if total >= frame && 0 < total % frame <= samples.len() {
        let even = samples.len() - total % frame;
        PipelineView { remainder: samples.skip(even), ..buffered(cleared, samples.take(even)) }
    } else {
        buffered(cleared, samples)
    }
}

/// How many frames of samples there are to make features of.
pub open spec fn frames_ready(state: PipelineView) -> nat {
    let frame = OPENWAKEWORD_FRAME_SAMPLES as nat;
    if state.accumulated >= frame && state.accumulated % frame == 0 {
        state.accumulated / frame
    } else {
        0
    }
}

/// The samples that the spectrogram is made of: the new ones and some before them.
pub open spec fn mel_input(state: PipelineView) -> Seq<i16> {
    audio::recent(state.raw, state.accumulated + OPENWAKEWORD_MELSPEC_CONTEXT_SAMPLES as nat)
}

/// The last frames of a buffer with frames of some width.
pub open spec fn recent_frames(
    buffer: Seq<Single>,
    width: nat,
    max_frames: nat,
) -> Seq<Single> {
    let frames = buffer.len() / width;
    if frames > max_frames {
        buffer.skip((frames - max_frames) * width)
    } else {
        buffer
    }
}

/// The state after more of the spectrogram.
pub open spec fn with_mel(state: PipelineView, mel: Seq<Single>) -> PipelineView {
    PipelineView {
        mel: recent_frames(
            state.mel + mel,
            OPENWAKEWORD_MEL_BINS as nat,
            OPENWAKEWORD_MELSPEC_MAX_FRAMES as nat,
        ),
        ..state
    }
}

/// The window of a buffer with frames of some width that ends before the last `back` frames; no
/// window if there are fewer frames than it has.
pub open spec fn window(
    buffer: Seq<Single>,
    width: nat,
    back: nat,
    frames: nat,
) -> Option<Seq<Single>> {
    let end = buffer.len() / width - back;
    if end < frames {
        None
    } else {
        Some(buffer.subrange((end - frames) * width, end * width))
    }
}

/// How many steps of the spectrogram come after the window for the last but `left - 1`th frame.
pub open spec fn steps_behind(left: nat) -> nat {
    ((left - 1) * OPENWAKEWORD_EMBEDDING_STEP_FRAMES) as nat
}

/// The window of the spectrogram for the last but `left - 1`th frame.
pub open spec fn mel_window(state: PipelineView, left: nat) -> Option<Seq<Single>> {
    window(
        state.mel,
        OPENWAKEWORD_MEL_BINS as nat,
        steps_behind(left),
        OPENWAKEWORD_MEL_WINDOW_FRAMES as nat,
    )
}

/// Whether features for `left` windows of the spectrogram were made, one after the other: `after`,
/// `done` and `r` came of it. A window that the spectrogram does not fill is passed over.
pub open spec fn embedded<B: OpenWakewordBackend>(
    backend: B,
    state: PipelineView,
    left: nat,
    after: B,
    done: PipelineView,
    r: Result<(), WakewordError>,
) -> bool
    decreases left,
{
    if left == 0 {
        after == backend && done == state && r == Ok::<(), WakewordError>(())
    } else {
        if state.mel.len() / (OPENWAKEWORD_MEL_BINS as nat) < steps_behind(left) {
            after == backend && done == state && r == Err::<(), WakewordError>(
                WakewordError::MelTooShort,
            )
        } else {
            match mel_window(state, left) {
                None => embedded(backend, state, (left - 1) as nat, after, done, r),
                Some(mel) => exists|next: B, reply: Result<Vec<Single>, WakewordError>| {
                    &&& #[trigger] backend.embedding_reply(mel, next, reply)
                    &&& match reply {
                        Err(error) => after == next && done == state && r == Err::<
                            (),
                            WakewordError,
                        >(error),
                        Ok(values) => if values@.len() != OPENWAKEWORD_EMBEDDING_DIM {
                            after == next && done == state && r == Err::<(), WakewordError>(
                                WakewordError::WrongEmbedding { len: values@.len() as usize },
                            )
                        } else {
                            embedded(
                                next,
                                PipelineView { features: state.features + values@, ..state },
                                (left - 1) as nat,
                                after,
                                done,
                                r,
                            )
                        },
                    }
                },
            }
        }
    }
}

/// The state once features were made of all new samples.
pub open spec fn features_done(state: PipelineView) -> PipelineView {
    PipelineView {
        features: recent_frames(
            state.features,
            OPENWAKEWORD_EMBEDDING_DIM as nat,
            OPENWAKEWORD_FEATURE_MAX_FRAMES as nat,
        ),
        accumulated: 0,
        ..state
    }
}

/// What comes of the spectrogram of new samples.
pub open spec fn mel_outcome<B: OpenWakewordBackend>(
    backend: B,
    state: PipelineView,
    reply: Result<Vec<Single>, WakewordError>,
    middle: B,
    after: B,
    done: PipelineView,
    r: Result<usize, WakewordError>,
) -> bool {
    &&& backend.mel_reply(mel_input(state), middle, reply)
    &&& match reply {
        Err(error) => after == middle && done == state && r == Err::<usize, WakewordError>(error),
        Ok(mel) => if mel@.len() % OPENWAKEWORD_MEL_BINS as nat != 0 {
            after == middle && done == state && r == Err::<usize, WakewordError>(
                WakewordError::UnevenMel { len: mel@.len() as usize },
            )
        } else {
            exists|made: PipelineView, answer: Result<(), WakewordError>| {
                &&& #[trigger] embedded(
                    middle,
                    with_mel(state, mel@),
                    frames_ready(state),
                    after,
                    made,
                    answer,
                )
                &&& match answer {
                    Ok(_) => done == features_done(made) && r == Ok::<usize, WakewordError>(
                        frames_ready(state) as usize,
                    ),
                    Err(error) => done == made && r == Err::<usize, WakewordError>(error),
                }
            }
        },
    }
}

/// What comes of new samples: once frames are full, features are made of them. Answers for how
/// many frames.
pub open spec fn features_outcome<B: OpenWakewordBackend>(
    backend: B,
    state: PipelineView,
    pcm: Seq<i16>,
    after: B,
    done: PipelineView,
    r: Result<usize, WakewordError>,
) -> bool {
    let fed = taken(state, pcm);
    if state.accumulated + state.remainder.len() + pcm.len() > usize::MAX {
        after == backend && done == state && r == Err::<usize, WakewordError>(
            WakewordError::TooManySamples,
        )
    } else if frames_ready(fed) == 0 {
        after == backend && done == fed && r == Ok::<usize, WakewordError>(0)
    } else if fed.raw.len() < OPENWAKEWORD_MELSPEC_CONTEXT_SAMPLES {
        after == backend && done == fed && r == Err::<usize, WakewordError>(
            WakewordError::TooLittleContext,
        )
    } else {
        exists|reply: Result<Vec<Single>, WakewordError>, middle: B| #[trigger]
            mel_outcome(backend, fed, reply, middle, after, done, r)
    }
}

/// Keeps only the last samples.
fn keep_recent_samples(samples: &mut VecDeque<i16>, retain: usize)
    ensures
        final(samples)@ == audio::recent(old(samples)@, retain as nat),
{
    while samples.len() > retain
        invariant
            audio::recent(samples@, retain as nat) == audio::recent(old(samples)@, retain as nat),
        decreases samples@.len(),
    {
        let ghost before = samples@;
        samples.pop_front();
        proof {
            assert(samples@ =~= before.skip(1));
            assert(audio::recent(samples@, retain as nat) =~= audio::recent(
                before,
                retain as nat,
            ));
        }
    }
}

/// Puts samples behind others.
fn append_samples(buffer: &mut VecDeque<i16>, samples: &[i16])
    ensures
        final(buffer)@ == old(buffer)@ + samples@,
{
    let mut i: usize = 0;
    while i < samples.len()
        invariant
            i <= samples@.len(),
            buffer@ =~= old(buffer)@ + samples@.take(i as int),
        decreases samples@.len() - i,
    {
        buffer.push_back(samples[i]);
        i += 1;
    }
}

/// A copy of the samples of a buffer from a place on.
fn samples_from(buffer: &VecDeque<i16>, from: usize) -> (r: Vec<i16>)
    requires
        from <= buffer@.len(),
    ensures
        r@ == buffer@.skip(from as int),
{
    let len: usize = buffer.len();
    let mut out: Vec<i16> = Vec::new();
    let mut i: usize = from;
    while i < len
        invariant
            from <= i <= len == buffer@.len(),
            out@ =~= buffer@.subrange(from as int, i as int),
        decreases len - i,
    {
        out.push(buffer[i]);
        i += 1;
    }
    proof {
        assert(out@ =~= buffer@.skip(from as int));
    }
    out
}

/// A copy of some samples.
fn copy_samples(samples: &[i16], from: usize, to: usize) -> (r: Vec<i16>)
    requires
        from <= to <= samples@.len(),
    ensures
        r@ == samples@.subrange(from as int, to as int),
{
    let mut out: Vec<i16> = Vec::new();
    let mut i: usize = from;
    while i < to
        invariant
            from <= i <= to <= samples@.len(),
            out@ == samples@.subrange(from as int, i as int),
        decreases to - i,
    {
        out.push(samples[i]);
        i += 1;
    }
    out
}

/// A copy of some values.
fn copy_values(values: &[Single], from: usize, to: usize) -> (r: Vec<Single>)
    requires
        from <= to <= values@.len(),
    ensures
        r@ == values@.subrange(from as int, to as int),
{
    let mut out: Vec<Single> = Vec::new();
    let mut i: usize = from;
    while i < to
        invariant
            from <= i <= to <= values@.len(),
            out@ == values@.subrange(from as int, i as int),
        decreases to - i,
    {
        out.push(values[i]);
        i += 1;
    }
    out
}

/// Frames lie within their buffer.
proof fn frames_fit(len: nat, width: nat, frames: nat)
    requires
        width > 0,
        frames <= len / width,
    ensures
        0 <= frames * width <= len,
{
    vstd::arithmetic::div_mod::lemma_fundamental_div_mod(len as int, width as int);
    let q = len / width;
    assert(frames * width <= width * q) by (nonlinear_arith)
        requires
            0 <= frames <= q,
            width > 0,
    ;
    assert(0 <= frames * width) by (nonlinear_arith)
        requires
            0 <= frames,
            width > 0,
    ;
}

/// Keeps only the last frames of a buffer.
fn trim_frame_buffer(buffer: &mut Vec<Single>, frame_width: usize, max_frames: usize)
    requires
        frame_width > 0,
    ensures
        final(buffer)@ == recent_frames(old(buffer)@, frame_width as nat, max_frames as nat),
{
    let len: usize = buffer.len();
    let frames: usize = len / frame_width;
    if frames > max_frames {
        let extra: usize = frames - max_frames;
        proof {
            frames_fit(len as nat, frame_width as nat, extra as nat);
        }
        let tail = buffer.split_off(extra * frame_width);
        proof {
            assert(tail@ =~= old(buffer)@.skip(extra * frame_width));
        }
        *buffer = tail;
    }
}

/// The window of a buffer that ends before the last `back` frames.
fn frame_window(buffer: &Vec<Single>, width: usize, back: usize, frames: usize) -> (r: Option<
    Vec<Single>,
>)
    requires
        width > 0,
        back <= buffer@.len() / width as nat,
    ensures
        match r {
            Some(values) => window(buffer@, width as nat, back as nat, frames as nat) == Some(
                values@,
            ),
            None => window(buffer@, width as nat, back as nat, frames as nat) is None,
        },
{
    let end: usize = buffer.len() / width - back;
    if end < frames {
        return None;
    }
    proof {
        frames_fit(buffer@.len(), width as nat, end as nat);
        frames_fit(buffer@.len(), width as nat, (end - frames) as nat);
        assert((end - frames) * width <= end * width) by (nonlinear_arith)
            requires
                0 <= frames <= end,
                width > 0,
        ;
    }
    Some(copy_values(buffer, (end - frames) * width, end * width))
}

impl<B: OpenWakewordBackend> OpenWakewordPipelineScorer<B> {
    /// The state of the pipeline.
    pub closed spec fn view(&self) -> PipelineView {
        PipelineView {
            raw: self.raw_data_buffer@,
            remainder: self.raw_data_remainder@,
            accumulated: self.accumulated_samples as nat,
            mel: self.melspectrogram_buffer@,
            features: self.feature_buffer@,
            warmup: self.warmup_windows_remaining as nat,
            last: self.last_score,
        }
    }

    /// What runs the models.
    pub closed spec fn models(&self) -> B {
        self.backend
    }

    /// A pipeline that has heard nothing: its spectrogram is all ones, its features are all zeros.
    pub fn with_backend(backend: B) -> (r: Result<Self, WakewordError>)
        ensures
            match r {
                Ok(scorer) => (exists|frames: usize| frames > 0 && #[trigger]
                    backend.frames_reply(frames)) && scorer.models() == backend && scorer@ == (
                PipelineView {
                    raw: seq![],
                    remainder: seq![],
                    accumulated: 0,
                    mel: Seq::new(2_432, |i: int| Single { bits: single::ONE_BITS }),
                    features: Seq::new(11_520, |i: int| Single { bits: 0 }),
                    warmup: OPENWAKEWORD_WARMUP_WINDOWS as nat,
                    last: Single { bits: 0 },
                }),
                Err(error) => backend.frames_reply(0) && error == WakewordError::NoKeywordFrames,
            },
    {
        let keyword_frames: usize = backend.keyword_frames();
        if keyword_frames == 0 {
            return Err(WakewordError::NoKeywordFrames);
        }
        let mel_len: usize = OPENWAKEWORD_MEL_WINDOW_FRAMES * OPENWAKEWORD_MEL_BINS;
        let feature_len: usize = OPENWAKEWORD_FEATURE_MAX_FRAMES * OPENWAKEWORD_EMBEDDING_DIM;
        let scorer = Self {
            backend,
            raw_data_buffer: VecDeque::with_capacity(OPENWAKEWORD_RAW_BUFFER_MAX_SAMPLES),
            raw_data_remainder: Vec::new(),
            accumulated_samples: 0,
            melspectrogram_buffer: vec![Single::one(); mel_len],
            feature_buffer: vec![Single { bits: 0 }; feature_len],
            warmup_windows_remaining: OPENWAKEWORD_WARMUP_WINDOWS,
            last_score: Single { bits: 0 },
        };
        proof {
            assert(scorer@.raw =~= seq![]);
            assert(scorer@.remainder =~= seq![]);
            assert(scorer@.mel =~= Seq::new(2_432, |i: int| Single { bits: single::ONE_BITS }));
            assert(scorer@.features =~= Seq::new(11_520, |i: int| Single { bits: 0 }));
        }
        Ok(scorer)
    }

    /// The pipeline, told to count every window from the start.
    pub fn without_warmup(self) -> (r: Self)
        ensures
            r.models() == self.models(),
            r@ == (PipelineView { warmup: 0, ..self@ }),
    {
        let mut scorer = self;
        scorer.warmup_windows_remaining = 0;
        scorer
    }

    /// What runs the models.
    pub fn backend(&self) -> (r: &B)
        ensures
            *r == self.models(),
    {
        &self.backend
    }

    fn buffer_raw_data(&mut self, samples: &[i16])
        requires
            old(self)@.accumulated + samples@.len() <= usize::MAX,
        ensures
            final(self).models() == old(self).models(),
            final(self)@ == buffered(old(self)@, samples@),
    {
        append_samples(&mut self.raw_data_buffer, samples);
        keep_recent_samples(&mut self.raw_data_buffer, OPENWAKEWORD_RAW_BUFFER_MAX_SAMPLES);
        self.accumulated_samples = self.accumulated_samples + samples.len();
    }

    /// Takes new samples.
    fn take_samples(&mut self, pcm: &[i16])
        requires
            old(self)@.accumulated + old(self)@.remainder.len() + pcm@.len() <= usize::MAX,
        ensures
            final(self).models() == old(self).models(),
            final(self)@ == taken(old(self)@, pcm@),
    {
        let ghost before = self@;
        let mut samples = copy_samples(&self.raw_data_remainder, 0, self.raw_data_remainder.len());
        samples.extend_from_slice(pcm);
        proof {
            assert(samples@ =~= before.remainder + pcm@);
        }
        self.raw_data_remainder = Vec::new();
        proof {
            assert(self@.remainder =~= seq![]);
        }
        let len: usize = samples.len();
        let total: usize = self.accumulated_samples + len;
        let rest: usize = total % OPENWAKEWORD_FRAME_SAMPLES;
        if total >= OPENWAKEWORD_FRAME_SAMPLES && 0 < rest && rest <= len {
            let even: usize = len - rest;
            let whole = copy_samples(&samples, 0, even);
            proof {
                assert(whole@ =~= samples@.take(even as int));
            }
            self.buffer_raw_data(&whole);
            self.raw_data_remainder = copy_samples(&samples, even, len);
            proof {
                assert(self.raw_data_remainder@ =~= samples@.skip(even as int));
            }
        } else {
            self.buffer_raw_data(&samples);
        }
    }

    /// Makes features for the windows of the spectrogram that new samples have brought.
    fn make_features(&mut self, new_frames: usize) -> (r: Result<(), WakewordError>)
        ensures
            embedded(
                old(self).models(),
                old(self)@,
                new_frames as nat,
                final(self).models(),
                final(self)@,
                r,
            ),
    {
        let ghost b0 = self.models();
        let ghost v0 = self@;
        let mut left: usize = new_frames;
        while left > 0
            invariant
                left <= new_frames,
                b0 == old(self).models(),
                v0 == old(self)@,
                forall|after: B, done: PipelineView, r: Result<(), WakewordError>|
                    #[trigger] embedded(self.models(), self@, left as nat, after, done, r)
                        ==> embedded(b0, v0, new_frames as nat, after, done, r),
            decreases left,
        {
            let ghost b = self.models();
            let ghost v = self@;
            let mel_frames: usize = self.melspectrogram_buffer.len() / OPENWAKEWORD_MEL_BINS;
            if left - 1 > mel_frames / OPENWAKEWORD_EMBEDDING_STEP_FRAMES {
                let r: Result<(), WakewordError> = Err(WakewordError::MelTooShort);
                proof {
                    assert(embedded(b, v, left as nat, b, v, r));
                }
                return r;
            }
            let back: usize = (left - 1) * OPENWAKEWORD_EMBEDDING_STEP_FRAMES;
            let mel = frame_window(
                &self.melspectrogram_buffer,
                OPENWAKEWORD_MEL_BINS,
                back,
                OPENWAKEWORD_MEL_WINDOW_FRAMES,
            );
            if let Some(mel) = mel {
                proof {
                    assert(mel_window(v, left as nat) == Some(mel@));
                }
                let reply = self.backend.run_embedding(&mel);
                let ghost next = self.models();
                proof {
                    assert(self@ == v);
                }
                match reply {
                    Err(error) => {
                        let r: Result<(), WakewordError> = Err(error);
                        proof {
                            assert(b.embedding_reply(mel_window(v, left as nat)->0, next, reply));
                            assert(embedded(b, v, left as nat, self.models(), self@, r));
                        }
                        return r;
                    },
                    Ok(values) => {
                        if values.len() != OPENWAKEWORD_EMBEDDING_DIM {
                            let r: Result<(), WakewordError> = Err(
                                WakewordError::WrongEmbedding { len: values.len() },
                            );
                            proof {
                                assert(b.embedding_reply(mel_window(v, left as nat)->0, next, reply));
                                assert(embedded(b, v, left as nat, self.models(), self@, r));
                            }
                            return r;
                        }
                        self.feature_buffer.extend_from_slice(&values);
                        proof {
                            assert(self.feature_buffer@ =~= v.features + values@);
                            assert(self@ == (PipelineView {
                                features: v.features + values@,
                                ..v
                            }));
                            assert forall|
                                after: B,
                                done: PipelineView,
                                r: Result<(), WakewordError>,
                            | #[trigger]
                                embedded(
                                    self.models(),
                                    self@,
                                    (left - 1) as nat,
                                    after,
                                    done,
                                    r,
                                ) implies embedded(b, v, left as nat, after, done, r) by {
                                assert(b.embedding_reply(mel_window(v, left as nat)->0, next, reply));
                            }
                        }
                    },
                }
            } else {
                proof {
                    assert(mel_window(v, left as nat) is None);
                    assert forall|after: B, done: PipelineView, r: Result<(), WakewordError>|
                        #[trigger]
                        embedded(
                            self.models(),
                            self@,
                            (left - 1) as nat,
                            after,
                            done,
                            r,
                        ) implies embedded(b, v, left as nat, after, done, r) by {}
                }
            }
            let ghost was = left as nat;
            left -= 1;
            proof {
                let b1 = self.models();
                let v1 = self@;
                assert(left as nat == (was - 1) as nat);
                assert forall|after: B, done: PipelineView, r: Result<(), WakewordError>|
                    #[trigger]
                    embedded(b1, v1, left as nat, after, done, r) implies embedded(
                    b0,
                    v0,
                    new_frames as nat,
                    after,
                    done,
                    r,
                ) by {
                    assert(embedded(b1, v1, (was - 1) as nat, after, done, r));
                    assert(embedded(b, v, was, after, done, r));
                }
            }
        }
        let r: Result<(), WakewordError> = Ok(());
        proof {
            assert(embedded(self.models(), self@, 0, self.models(), self@, r));
        }
        r
    }

    /// Takes new samples, and makes features of them once frames are full. Answers for how many
    /// frames.
    pub fn stream_features(&mut self, pcm: &[i16]) -> (r: Result<usize, WakewordError>)
        ensures
            features_outcome(
                old(self).models(),
                old(self)@,
                pcm@,
                final(self).models(),
                final(self)@,
                r,
            ),
    {
        let ghost b0 = self.models();
        if pcm.len() > usize::MAX - self.accumulated_samples || self.raw_data_remainder.len()
            > usize::MAX - self.accumulated_samples - pcm.len() {
            return Err(WakewordError::TooManySamples);
        }
        self.take_samples(pcm);
        let ghost fed = self@;
        if self.accumulated_samples < OPENWAKEWORD_FRAME_SAMPLES || self.accumulated_samples
            % OPENWAKEWORD_FRAME_SAMPLES != 0 {
            return Ok(0);
        }
        let new_frames: usize = self.accumulated_samples / OPENWAKEWORD_FRAME_SAMPLES;
        let raw_len: usize = self.raw_data_buffer.len();
        if raw_len < OPENWAKEWORD_MELSPEC_CONTEXT_SAMPLES {
            return Err(WakewordError::TooLittleContext);
        }
        let from: usize = if self.accumulated_samples < raw_len
            - OPENWAKEWORD_MELSPEC_CONTEXT_SAMPLES {
            raw_len - OPENWAKEWORD_MELSPEC_CONTEXT_SAMPLES - self.accumulated_samples
        } else {
            0
        };
        let samples = samples_from(&self.raw_data_buffer, from);
        proof {
            assert(samples@ =~= mel_input(fed));
        }
        let reply = self.backend.run_melspectrogram(&samples);
        let ghost middle = self.models();
        let mel = match reply {
            Ok(mel) => mel,
            Err(error) => {
                let r: Result<usize, WakewordError> = Err(error);
                proof {
                    assert(mel_outcome(b0, fed, reply, middle, self.models(), self@, r));
                }
                return r;
            },
        };
        if mel.len() % OPENWAKEWORD_MEL_BINS != 0 {
            let r: Result<usize, WakewordError> = Err(
                WakewordError::UnevenMel { len: mel.len() },
            );
            proof {
                assert(mel_outcome(b0, fed, reply, middle, self.models(), self@, r));
            }
            return r;
        }
        self.melspectrogram_buffer.extend_from_slice(&mel);
        proof {
            assert(self.melspectrogram_buffer@ =~= fed.mel + mel@);
        }
        trim_frame_buffer(
            &mut self.melspectrogram_buffer,
            OPENWAKEWORD_MEL_BINS,
            OPENWAKEWORD_MELSPEC_MAX_FRAMES,
        );
        proof {
            assert(self@ == with_mel(fed, mel@));
        }
        let answer = self.make_features(new_frames);
        let ghost made = self@;
        match answer {
            Err(error) => {
                let r: Result<usize, WakewordError> = Err(error);
                proof {
                    assert(embedded(
                        middle,
                        with_mel(fed, mel@),
                        frames_ready(fed),
                        self.models(),
                        made,
                        answer,
                    ));
                    assert(mel_outcome(b0, fed, reply, middle, self.models(), self@, r));
                }
                r
            },
            Ok(()) => {
                trim_frame_buffer(
                    &mut self.feature_buffer,
                    OPENWAKEWORD_EMBEDDING_DIM,
                    OPENWAKEWORD_FEATURE_MAX_FRAMES,
                );
                self.accumulated_samples = 0;
                let r: Result<usize, WakewordError> = Ok(new_frames);
                proof {
                    assert(self@ == features_done(made));
                    assert(embedded(
                        middle,
                        with_mel(fed, mel@),
                        frames_ready(fed),
                        self.models(),
                        made,
                        answer,
                    ));
                    assert(mel_outcome(b0, fed, reply, middle, self.models(), self@, r));
                }
                r
            },
        }
    }
}

/// New samples are either counted up to less than a frame, or made into whole frames; and none is
/// lost: those that are not put with the others are set aside.
pub proof fn samples_are_counted_in_frames(state: PipelineView, pcm: Seq<i16>)
    requires
        whole_or_less(state.accumulated),
    ensures
        whole_or_less(taken(state, pcm).accumulated),
        taken(state, pcm).accumulated + taken(state, pcm).remainder.len() == state.accumulated
            + state.remainder.len() + pcm.len(),
        taken(state, pcm).remainder.len() < OPENWAKEWORD_FRAME_SAMPLES,
{
}

/// Once features were made, a buffer holds no more than it is meant to.
pub proof fn buffers_are_bounded(buffer: Seq<Single>, width: nat, max_frames: nat)
    requires
        width > 0,
    ensures
        recent_frames(buffer, width, max_frames).len() < (max_frames + 1) * width,
{
    let frames = buffer.len() / width;
    vstd::arithmetic::div_mod::lemma_fundamental_div_mod(buffer.len() as int, width as int);
    vstd::arithmetic::div_mod::lemma_mod_bound(buffer.len() as int, width as int);
    if frames > max_frames {
        frames_fit(buffer.len(), width, (frames - max_frames) as nat);
        assert(width * frames - (frames - max_frames) * width + width == (max_frames + 1) * width)
            by (nonlinear_arith);
    } else {
        assert(width * frames + width <= (max_frames + 1) * width) by (nonlinear_arith)
            requires
                frames <= max_frames,
                width > 0,
        ;
    }
}

/// What scores sound.
///
/// `score_reply` holds of the answers that an implementation may give, and of the state that it may
/// have then.
pub trait WakeScorer: Sized {
    open spec fn score_reply(
        &self,
        pcm: Seq<i16>,
        after: Self,
        reply: Result<Single, WakewordError>,
    ) -> bool {
        true
    }

    /// The score of a frame of samples.
    fn score(&mut self, pcm: &[i16]) -> (r: Result<Single, WakewordError>)
        ensures
            old(self).score_reply(pcm@, *final(self), r),
    ;
}

/// The window of features for the last but `left - 1`th frame.
pub open spec fn feature_window(state: PipelineView, left: nat, frames: nat) -> Option<
    Seq<Single>,
> {
    window(state.features, OPENWAKEWORD_EMBEDDING_DIM as nat, (left - 1) as nat, frames)
}

/// The state after a window was scored.
pub open spec fn window_counted(state: PipelineView) -> PipelineView {
    PipelineView {
        warmup: if state.warmup > 0 {
            (state.warmup - 1) as nat
        } else {
            0
        },
        ..state
    }
}

/// What a score counts: nothing while the pipeline warms up.
pub open spec fn counted(state: PipelineView, score: Single) -> Single {
    if state.warmup > 0 {
        Single { bits: 0 }
    } else {
        score
    }
}

/// Whether `left` windows of features were scored, one after the other, beginning with `best`:
/// `after`, `done` and `r` came of it. A window that the features do not fill is passed over.
pub open spec fn scored<B: OpenWakewordBackend>(
    backend: B,
    state: PipelineView,
    left: nat,
    frames: nat,
    best: Single,
    after: B,
    done: PipelineView,
    r: Result<Single, WakewordError>,
) -> bool
    decreases left,
{
    if left == 0 {
        after == backend && done == (PipelineView { last: best, ..state }) && r == Ok::<
            Single,
            WakewordError,
        >(best)
    } else if state.features.len() / (OPENWAKEWORD_EMBEDDING_DIM as nat) < left - 1 {
        after == backend && done == state && r == Err::<Single, WakewordError>(
            WakewordError::FeaturesTooShort,
        )
    } else {
        match feature_window(state, left, frames) {
            None => scored(backend, state, (left - 1) as nat, frames, best, after, done, r),
            Some(features) => exists|next: B, reply: Result<Single, WakewordError>| {
                &&& #[trigger] backend.keyword_reply(features, next, reply)
                &&& match reply {
                    Err(error) => after == next && done == state && r == Err::<
                        Single,
                        WakewordError,
                    >(error),
                    Ok(score) => scored(
                        next,
                        window_counted(state),
                        (left - 1) as nat,
                        frames,
                        single::larger(best, counted(state, score)),
                        after,
                        done,
                        r,
                    ),
                }
            },
        }
    }
}

/// What comes of scoring new samples once features were made of them.
pub open spec fn score_outcome<B: OpenWakewordBackend>(
    backend: B,
    state: PipelineView,
    pcm: Seq<i16>,
    middle: B,
    fed: PipelineView,
    made: Result<usize, WakewordError>,
    after: B,
    done: PipelineView,
    r: Result<Single, WakewordError>,
) -> bool {
    &&& features_outcome(backend, state, pcm, middle, fed, made)
    &&& match made {
        Err(error) => after == middle && done == fed && r == Err::<Single, WakewordError>(error),
        Ok(new_frames) => if new_frames == 0 {
            after == middle && done == fed && r == Ok::<Single, WakewordError>(fed.last)
        } else {
            exists|frames: usize| #[trigger]
                middle.frames_reply(frames) && scored(
                    middle,
                    fed,
                    new_frames as nat,
                    frames as nat,
                    Single { bits: 0 },
                    after,
                    done,
                    r,
                )
        },
    }
}

impl<B: OpenWakewordBackend> OpenWakewordPipelineScorer<B> {
    /// Scores the windows of features that new samples have brought; the best score counts.
    fn score_windows(&mut self, new_frames: usize) -> (r: Result<Single, WakewordError>)
        ensures
            exists|frames: usize| #[trigger]
                old(self).models().frames_reply(frames) && scored(
                    old(self).models(),
                    old(self)@,
                    new_frames as nat,
                    frames as nat,
                    Single { bits: 0 },
                    final(self).models(),
                    final(self)@,
                    r,
                ),
    {
        let ghost b0 = self.models();
        let ghost v0 = self@;
        let ghost zero = Single { bits: 0 };
        let frames: usize = self.backend.keyword_frames();
        let mut best = Single { bits: 0 };
        let mut left: usize = new_frames;
        while left > 0
            invariant
                left <= new_frames,
                b0 == old(self).models(),
                v0 == old(self)@,
                zero == (Single { bits: 0 }),
                b0.frames_reply(frames),
                forall|after: B, done: PipelineView, r: Result<Single, WakewordError>|
                    #[trigger] scored(
                        self.models(),
                        self@,
                        left as nat,
                        frames as nat,
                        best,
                        after,
                        done,
                        r,
                    ) ==> scored(
                        b0,
                        v0,
                        new_frames as nat,
                        frames as nat,
                        zero,
                        after,
                        done,
                        r,
                    ),
            decreases left,
        {
            let ghost b = self.models();
            let ghost v = self@;
            let ghost best0 = best;
            let total: usize = self.feature_buffer.len() / OPENWAKEWORD_EMBEDDING_DIM;
            if left - 1 > total {
                let r: Result<Single, WakewordError> = Err(WakewordError::FeaturesTooShort);
                proof {
                    assert(scored(b, v, left as nat, frames as nat, best, b, v, r));
                }
                return r;
            }
            let features = frame_window(
                &self.feature_buffer,
                OPENWAKEWORD_EMBEDDING_DIM,
                left - 1,
                frames,
            );
            if let Some(features) = features {
                proof {
                    assert(feature_window(v, left as nat, frames as nat) == Some(features@));
                }
                let reply = self.backend.run_keyword(&features);
                let ghost next = self.models();
                proof {
                    assert(self@ == v);
                    assert(b.keyword_reply(
                        feature_window(v, left as nat, frames as nat)->0,
                        next,
                        reply,
                    ));
                }
                match reply {
                    Err(error) => {
                        let r: Result<Single, WakewordError> = Err(error);
                        proof {
                            assert(scored(
                                b,
                                v,
                                left as nat,
                                frames as nat,
                                best,
                                self.models(),
                                self@,
                                r,
                            ));
                        }
                        return r;
                    },
                    Ok(score) => {
                        if self.warmup_windows_remaining > 0 {
                            self.warmup_windows_remaining = self.warmup_windows_remaining - 1;
                            best = best.max(Single { bits: 0 });
                        } else {
                            best = best.max(score);
                        }
                        proof {
                            assert(self@ == window_counted(v));
                            assert(best == single::larger(best0, counted(v, score)));
                            assert forall|
                                after: B,
                                done: PipelineView,
                                r: Result<Single, WakewordError>,
                            | #[trigger]
                                scored(
                                    self.models(),
                                    self@,
                                    (left - 1) as nat,
                                    frames as nat,
                                    best,
                                    after,
                                    done,
                                    r,
                                ) implies scored(
                                b,
                                v,
                                left as nat,
                                frames as nat,
                                best0,
                                after,
                                done,
                                r,
                            ) by {
                                assert(b.keyword_reply(
                                    feature_window(v, left as nat, frames as nat)->0,
                                    next,
                                    reply,
                                ));
                            }
                        }
                    },
                }
            } else {
                proof {
                    assert(feature_window(v, left as nat, frames as nat) is None);
                    assert forall|after: B, done: PipelineView, r: Result<Single, WakewordError>|
                        #[trigger]
                        scored(
                            self.models(),
                            self@,
                            (left - 1) as nat,
                            frames as nat,
                            best,
                            after,
                            done,
                            r,
                        ) implies scored(
                        b,
                        v,
                        left as nat,
                        frames as nat,
                        best0,
                        after,
                        done,
                        r,
                    ) by {}
                }
            }
            let ghost was = left as nat;
            left -= 1;
            proof {
                let b1 = self.models();
                let v1 = self@;
                assert(left as nat == (was - 1) as nat);
                assert forall|after: B, done: PipelineView, r: Result<Single, WakewordError>|
                    #[trigger]
                    scored(
                        b1,
                        v1,
                        left as nat,
                        frames as nat,
                        best,
                        after,
                        done,
                        r,
                    ) implies scored(
                    b0,
                    v0,
                    new_frames as nat,
                    frames as nat,
                    zero,
                    after,
                    done,
                    r,
                ) by {
                    assert(scored(
                        b1,
                        v1,
                        (was - 1) as nat,
                        frames as nat,
                        best,
                        after,
                        done,
                        r,
                    ));
                    assert(scored(b, v, was, frames as nat, best0, after, done, r));
                }
            }
        }
        let ghost b = self.models();
        let ghost v = self@;
        self.last_score = best;
        let r: Result<Single, WakewordError> = Ok(best);
        proof {
            assert(self.models() == b);
            assert(self@ == (PipelineView { last: best, ..v }));
            assert(scored(b, v, left as nat, frames as nat, best, b, self@, r));
        }
        r
    }
}

impl<B: OpenWakewordBackend> WakeScorer for OpenWakewordPipelineScorer<B> {
    open spec fn score_reply(
        &self,
        pcm: Seq<i16>,
        after: Self,
        reply: Result<Single, WakewordError>,
    ) -> bool {
        exists|middle: B, fed: PipelineView, made: Result<usize, WakewordError>| #[trigger]
            score_outcome(
                self.models(),
                self@,
                pcm,
                middle,
                fed,
                made,
                after.models(),
                after@,
                reply,
            )
    }

    fn score(&mut self, pcm: &[i16]) -> (r: Result<Single, WakewordError>) {
        let ghost b0 = self.models();
        let ghost v0 = self@;
        let made = self.stream_features(pcm);
        let ghost middle = self.models();
        let ghost fed = self@;
        let r: Result<Single, WakewordError> = match made {
            Err(error) => Err(error),
            Ok(new_frames) => if new_frames == 0 {
                Ok(self.last_score)
            } else {
                self.score_windows(new_frames)
            },
        };
        proof {
            assert(score_outcome(
                b0,
                v0,
                pcm@,
                middle,
                fed,
                made,
                self.models(),
                self@,
                r,
            ));
        }
        r
    }
}

/// New samples follow those that were set aside before, in their order: the first of them are put
/// behind the others, and the rest is set aside. Nothing is set aside before a frame is full, and then
/// just what is beyond whole frames.
pub proof fn samples_keep_their_order(state: PipelineView, pcm: Seq<i16>)
    requires
        state.accumulated < OPENWAKEWORD_FRAME_SAMPLES,
    ensures
        ({
            let all = state.remainder + pcm;
            let total = state.accumulated + all.len();
            let after = taken(state, pcm);
            let put = all.len() - after.remainder.len();
            &&& after.remainder.len() <= all.len()
            &&& after.remainder == all.skip(put)
            &&& after.accumulated == state.accumulated + put
            &&& state.raw.len() + put <= 160_000 ==> after.raw == state.raw + all.take(put)
            &&& state.raw.len() + put > 160_000 ==> after.raw == (state.raw + all.take(put)).skip(
                state.raw.len() + put - 160_000,
            )
            &&& total < 1_280 ==> after.remainder.len() == 0
            &&& total >= 1_280 && total % 1_280 <= all.len() ==> after.remainder.len() == total
                % 1_280
            &&& after.mel == state.mel
            &&& after.features == state.features
            &&& after.warmup == state.warmup
            &&& after.last == state.last
        }),
{
    let all = state.remainder + pcm;
    assert(all.take(all.len() as int) =~= all);
    assert(all.skip(all.len() as int) =~= seq![]);
}

/// Features are made once the samples are whole frames: for each 1280 of them.
pub proof fn whole_frames_are_ready(state: PipelineView)
    ensures
        state.accumulated % 1_280 == 0 ==> frames_ready(state) * 1_280 == state.accumulated,
        state.accumulated % 1_280 != 0 ==> frames_ready(state) == 0,
{
}

/// The spectrogram is made of the new samples and the 480 before them, or of all there are.
pub proof fn spectrograms_are_made_of_new_samples(state: PipelineView)
    ensures
        state.raw.len() <= state.accumulated + 480 ==> mel_input(state) == state.raw,
        state.raw.len() > state.accumulated + 480 ==> mel_input(state) == state.raw.skip(
            state.raw.len() - (state.accumulated + 480),
        ),
{
}

/// A buffer keeps all frames as long as it has room, and then gives up just the oldest whole ones.
pub proof fn only_the_oldest_frames_are_given_up(buffer: Seq<Single>, width: nat, max_frames: nat)
    requires
        width > 0,
    ensures
        buffer.len() / width <= max_frames ==> recent_frames(buffer, width, max_frames) == buffer,
        buffer.len() / width > max_frames ==> recent_frames(buffer, width, max_frames)
            == buffer.skip((buffer.len() / width - max_frames) * width),
{
}

/// A window holds just its frames, and ends as many frames before the last whole one as it should.
/// There is none where the buffer has too few.
pub proof fn windows_end_where_they_should(
    buffer: Seq<Single>,
    width: nat,
    back: nat,
    frames: nat,
)
    requires
        width > 0,
    ensures
        window(buffer, width, back, frames) is Some <==> buffer.len() / width >= back + frames,
        window(buffer, width, back, frames) matches Some(values) ==> {
            let end = (buffer.len() / width - back) * width;
            &&& values.len() == frames * width
            &&& values == buffer.subrange(end - frames * width, end)
        },
{
    let all = buffer.len() / width;
    vstd::arithmetic::div_mod::lemma_fundamental_div_mod(buffer.len() as int, width as int);
    if all >= back + frames {
        let end = all - back;
        assert(end * width - frames * width == (end - frames) * width) by (nonlinear_arith);
        assert(end * width <= width * all) by (nonlinear_arith)
            requires
                end <= all,
                width > 0,
        ;
        assert(0 <= (end - frames) * width) by (nonlinear_arith)
            requires
                end >= frames,
                width > 0,
        ;
    }
}

/// The windows of the spectrogram for one frame after the other are eight steps apart, and hold 76
/// steps of 32 values; the last ends with the spectrogram.
pub proof fn windows_of_the_spectrogram_are_eight_steps_apart(state: PipelineView, left: nat)
    requires
        left > 0,
    ensures
        mel_window(state, left) == window(state.mel, 32, (8 * (left - 1)) as nat, 76),
        steps_behind(left) == 8 * (left - 1),
{
    assert((left - 1) * OPENWAKEWORD_EMBEDDING_STEP_FRAMES == 8 * (left - 1)) by (nonlinear_arith)
        requires
            OPENWAKEWORD_EMBEDDING_STEP_FRAMES == 8,
    ;
}

/// The windows of features for one frame after the other are one feature of 96 values apart.
pub proof fn windows_of_features_follow_each_other(state: PipelineView, left: nat, frames: nat)
    requires
        left > 0,
    ensures
        feature_window(state, left, frames) == window(
            state.features,
            96,
            (left - 1) as nat,
            frames,
        ),
{
}

/// The oldest window of the spectrogram that has no feature yet is the first to get one. Its values are
/// put behind the others, if they are 96; else the model is at fault. A failure of the model is handed
/// on.
pub proof fn features_are_made_in_turn<B: OpenWakewordBackend>(
    backend: B,
    state: PipelineView,
    left: nat,
    after: B,
    done: PipelineView,
    r: Result<(), WakewordError>,
) -> (step: (B, Result<Vec<Single>, WakewordError>))
    requires
        left > 0,
        embedded(backend, state, left, after, done, r),
        state.mel.len() / 32 >= 8 * (left - 1) + 76,
    ensures
        window(state.mel, 32, (8 * (left - 1)) as nat, 76) matches Some(mel)
            ==> backend.embedding_reply(mel, step.0, step.1),
        match step.1 {
            Err(error) => after == step.0 && done == state && r == Err::<(), WakewordError>(error),
            Ok(values) => if values@.len() == 96 {
                embedded(
                    step.0,
                    PipelineView { features: state.features + values@, ..state },
                    (left - 1) as nat,
                    after,
                    done,
                    r,
                )
            } else {
                after == step.0 && done == state && r == Err::<(), WakewordError>(
                    WakewordError::WrongEmbedding { len: values@.len() as usize },
                )
            },
        },
{
    windows_of_the_spectrogram_are_eight_steps_apart(state, left);
    windows_end_where_they_should(state.mel, 32, (8 * (left - 1)) as nat, 76);
    let mel = mel_window(state, left)->0;
    choose|next: B, reply: Result<Vec<Single>, WakewordError>| {
        &&& #[trigger] backend.embedding_reply(mel, next, reply)
        &&& match reply {
            Err(error) => after == next && done == state && r == Err::<(), WakewordError>(error),
            Ok(values) => if values@.len() != OPENWAKEWORD_EMBEDDING_DIM {
                after == next && done == state && r == Err::<(), WakewordError>(
                    WakewordError::WrongEmbedding { len: values@.len() as usize },
                )
            } else {
                embedded(
                    next,
                    PipelineView { features: state.features + values@, ..state },
                    (left - 1) as nat,
                    after,
                    done,
                    r,
                )
            },
        }
    }
}

/// Making features leaves the sound and the spectrogram as they are, and only puts features behind the
/// others; without a window it does nothing.
pub proof fn features_are_put_behind_the_others<B: OpenWakewordBackend>(
    backend: B,
    state: PipelineView,
    left: nat,
    after: B,
    done: PipelineView,
    r: Result<(), WakewordError>,
)
    requires
        embedded(backend, state, left, after, done, r),
    ensures
        left == 0 ==> after == backend && done == state && r is Ok,
        done.raw == state.raw,
        done.mel == state.mel,
        done.remainder == state.remainder,
        done.accumulated == state.accumulated,
        done.warmup == state.warmup,
        done.last == state.last,
        done.features.len() >= state.features.len(),
        done.features.take(state.features.len() as int) == state.features,
        r is Ok && state.mel.len() / 32 >= 8 * left + 76 ==> done.features.len()
            == state.features.len() + 96 * left,
    decreases left,
{
    let n = state.features.len() as int;
    assert(state.features.take(n) =~= state.features);
    if left > 0 && state.mel.len() / (OPENWAKEWORD_MEL_BINS as nat) >= steps_behind(left) {
        windows_of_the_spectrogram_are_eight_steps_apart(state, left);
        windows_end_where_they_should(state.mel, 32, (8 * (left - 1)) as nat, 76);
        match mel_window(state, left) {
            None => {
                features_are_put_behind_the_others(
                    backend,
                    state,
                    (left - 1) as nat,
                    after,
                    done,
                    r,
                );
            },
            Some(mel) => {
                let step = features_are_made_in_turn(backend, state, left, after, done, r);
                if let Ok(values) = step.1 {
                    if values@.len() == 96 {
                        let more = PipelineView { features: state.features + values@, ..state };
                        features_are_put_behind_the_others(
                            step.0,
                            more,
                            (left - 1) as nat,
                            after,
                            done,
                            r,
                        );
                        assert(done.features.take(n) =~= done.features.take(
                            more.features.len() as int,
                        ).take(n));
                        assert(more.features.take(n) =~= state.features);
                    }
                }
            },
        }
    }
}

/// Once features were made, the count of samples begins anew, and only the last 120 features are kept.
pub proof fn the_count_begins_anew(state: PipelineView)
    ensures
        features_done(state).accumulated == 0,
        features_done(state).raw == state.raw,
        features_done(state).mel == state.mel,
        features_done(state).remainder == state.remainder,
        features_done(state).warmup == state.warmup,
        features_done(state).last == state.last,
        features_done(state).features == recent_frames(state.features, 96, 120),
{
}

/// As long as no frame is full, no model is asked, and the samples are kept for later.
pub proof fn short_sound_asks_no_model<B: OpenWakewordBackend>(
    backend: B,
    state: PipelineView,
    pcm: Seq<i16>,
    after: B,
    done: PipelineView,
    r: Result<usize, WakewordError>,
)
    requires
        features_outcome(backend, state, pcm, after, done, r),
        state.accumulated + state.remainder.len() + pcm.len() < 1_280,
        state.raw.len() + state.remainder.len() + pcm.len() <= 160_000,
    ensures
        after == backend,
        r == Ok::<usize, WakewordError>(0),
        done.raw == state.raw + state.remainder + pcm,
        done.accumulated == state.accumulated + state.remainder.len() + pcm.len(),
        done.mel == state.mel,
        done.features == state.features,
{
    samples_keep_their_order(state, pcm);
    let all = state.remainder + pcm;
    assert(all.take(all.len() as int) =~= all);
    assert(state.raw + all =~= state.raw + state.remainder + pcm);
}

/// While the pipeline warms up, a score counts nothing; each window that is scored brings the end of
/// that nearer by one. Later, each counts as it is.
pub proof fn first_windows_count_nothing(state: PipelineView, score: Single)
    ensures
        state.warmup > 0 ==> counted(state, score).bits == 0 && window_counted(state).warmup
            == state.warmup - 1,
        state.warmup == 0 ==> counted(state, score) == score && window_counted(state).warmup == 0,
        window_counted(state).features == state.features,
        window_counted(state).last == state.last,
        window_counted(state).raw == state.raw,
        window_counted(state).mel == state.mel,
        window_counted(state).accumulated == state.accumulated,
        window_counted(state).remainder == state.remainder,
{
}

/// The oldest window of features that was not scored yet is scored first, and the larger of its score
/// and the best before is the best from then on. A failure of the model is handed on.
pub proof fn windows_are_scored_in_turn<B: OpenWakewordBackend>(
    backend: B,
    state: PipelineView,
    left: nat,
    frames: nat,
    best: Single,
    after: B,
    done: PipelineView,
    r: Result<Single, WakewordError>,
) -> (step: (B, Result<Single, WakewordError>))
    requires
        left > 0,
        scored(backend, state, left, frames, best, after, done, r),
        state.features.len() / 96 >= left - 1 + frames,
    ensures
        window(state.features, 96, (left - 1) as nat, frames) matches Some(features)
            ==> backend.keyword_reply(features, step.0, step.1),
        match step.1 {
            Err(error) => after == step.0 && done == state && r == Err::<Single, WakewordError>(
                error,
            ),
            Ok(score) => scored(
                step.0,
                window_counted(state),
                (left - 1) as nat,
                frames,
                single::larger(
                    best,
                    if state.warmup > 0 {
                        Single { bits: 0 }
                    } else {
                        score
                    },
                ),
                after,
                done,
                r,
            ),
        },
{
    windows_end_where_they_should(state.features, 96, (left - 1) as nat, frames);
    let features = feature_window(state, left, frames)->0;
    choose|next: B, reply: Result<Single, WakewordError>| {
        &&& #[trigger] backend.keyword_reply(features, next, reply)
        &&& match reply {
            Err(error) => after == next && done == state && r == Err::<Single, WakewordError>(
                error,
            ),
            Ok(score) => scored(
                next,
                window_counted(state),
                (left - 1) as nat,
                frames,
                single::larger(best, counted(state, score)),
                after,
                done,
                r,
            ),
        }
    }
}

/// The score of new sound is the last one that is known then, and no smaller than the best that scoring
/// began with. Scoring changes nothing of sound, spectrogram and features.
pub proof fn the_best_score_counts<B: OpenWakewordBackend>(
    backend: B,
    state: PipelineView,
    left: nat,
    frames: nat,
    best: Single,
    after: B,
    done: PipelineView,
    r: Result<Single, WakewordError>,
)
    requires
        scored(backend, state, left, frames, best, after, done, r),
        !single::not_a_number(best),
    ensures
        r matches Ok(score) ==> done.last == score && single::reaches(score, best),
        r is Err ==> done.last == state.last,
        left == 0 ==> r == Ok::<Single, WakewordError>(best) && after == backend,
        done.features == state.features,
        done.mel == state.mel,
        done.raw == state.raw,
        done.warmup <= state.warmup,
    decreases left,
{
    if left > 0 && state.features.len() / 96 >= left - 1 {
        windows_end_where_they_should(state.features, 96, (left - 1) as nat, frames);
        match feature_window(state, left, frames) {
            None => {
                the_best_score_counts(
                    backend,
                    state,
                    (left - 1) as nat,
                    frames,
                    best,
                    after,
                    done,
                    r,
                );
            },
            Some(features) => {
                let step = windows_are_scored_in_turn(
                    backend,
                    state,
                    left,
                    frames,
                    best,
                    after,
                    done,
                    r,
                );
                if let Ok(score) = step.1 {
                    let value = if state.warmup > 0 {
                        Single { bits: 0 }
                    } else {
                        score
                    };
                    let better = single::larger(best, value);
                    single::the_larger_reaches_both(best, value);
                    the_best_score_counts(
                        step.0,
                        window_counted(state),
                        (left - 1) as nat,
                        frames,
                        better,
                        after,
                        done,
                        r,
                    );
                }
            },
        }
    }
}

/// Sound that brings no new frame is scored as the sound before it was; sound that does is scored by
/// all its windows, from nothing on.
pub proof fn only_new_frames_are_scored<B: OpenWakewordBackend>(
    backend: B,
    state: PipelineView,
    pcm: Seq<i16>,
    middle: B,
    fed: PipelineView,
    made: Result<usize, WakewordError>,
    after: B,
    done: PipelineView,
    r: Result<Single, WakewordError>,
)
    requires
        score_outcome(backend, state, pcm, middle, fed, made, after, done, r),
    ensures
        made matches Err(error) ==> r == Err::<Single, WakewordError>(error) && after == middle,
        made == Ok::<usize, WakewordError>(0) ==> r == Ok::<Single, WakewordError>(fed.last)
            && after == middle && done == fed,
        made matches Ok(new_frames) ==> (new_frames > 0 ==> exists|frames: usize| #[trigger]
            middle.frames_reply(frames) && scored(
                middle,
                fed,
                new_frames as nat,
                frames as nat,
                Single { bits: 0 },
                after,
                done,
                r,
            )),
{
}

/// More of the spectrogram is put behind what there is, of which the last 970 steps of 32 values are
/// kept.
pub proof fn spectrograms_grow_at_their_end(state: PipelineView, mel: Seq<Single>)
    ensures
        with_mel(state, mel).mel == recent_frames(state.mel + mel, 32, 970),
        with_mel(state, mel).raw == state.raw,
        with_mel(state, mel).features == state.features,
        with_mel(state, mel).accumulated == state.accumulated,
        with_mel(state, mel).remainder == state.remainder,
        with_mel(state, mel).warmup == state.warmup,
        with_mel(state, mel).last == state.last,
{
}

/// Where features were made, it was for all samples that had not any yet, in frames of 1280; the model
/// of the spectrogram was asked first, about just those samples and what came before them.
pub proof fn all_full_frames_get_features<B: OpenWakewordBackend>(
    backend: B,
    state: PipelineView,
    pcm: Seq<i16>,
    after: B,
    done: PipelineView,
    r: Result<usize, WakewordError>,
)
    requires
        features_outcome(backend, state, pcm, after, done, r),
        state.accumulated < 1_280,
        state.remainder.len() < 1_280,
        r is Ok,
        r->Ok_0 > 0,
    ensures
        done.accumulated == 0,
        done.remainder.len() < 1_280,
        r->Ok_0 * 1_280 + done.remainder.len() == state.accumulated + state.remainder.len()
            + pcm.len(),
        exists|middle: B, mel: Result<Vec<Single>, WakewordError>| #[trigger]
            backend.mel_reply(mel_input(taken(state, pcm)), middle, mel) && mel is Ok
                && mel->Ok_0@.len() % 32 == 0,
{
    samples_are_counted_in_frames(state, pcm);
    let fed = taken(state, pcm);
    let (reply, middle) = choose|reply: Result<Vec<Single>, WakewordError>, middle: B| #[trigger]
        mel_outcome(backend, fed, reply, middle, after, done, r);
    assert(backend.mel_reply(mel_input(fed), middle, reply));
    let mel = reply->Ok_0;
    let (made, answer) = choose|made: PipelineView, answer: Result<(), WakewordError>| {
        &&& #[trigger] embedded(
            middle,
            with_mel(fed, mel@),
            frames_ready(fed),
            after,
            made,
            answer,
        )
        &&& match answer {
            Ok(_) => done == features_done(made) && r == Ok::<usize, WakewordError>(
                frames_ready(fed) as usize,
            ),
            Err(error) => done == made && r == Err::<usize, WakewordError>(error),
        }
    };
    features_are_put_behind_the_others(
        middle,
        with_mel(fed, mel@),
        frames_ready(fed),
        after,
        made,
        answer,
    );
}

/// The message of an error tells the number or the shape that is wrong, or what the backend reports.
pub proof fn errors_say_what_is_wrong(error: WakewordError)
    ensures
        error matches WakewordError::Backend(message) ==> wakeword_error_text(error) == message@,
        error matches WakewordError::WrongKeywordRank { shape } ==> text::ends(
            wakeword_error_text(error),
            shape@,
        ),
        error matches WakewordError::WrongKeywordShape { shape } ==> text::ends(
            wakeword_error_text(error),
            shape@,
        ),
        error matches WakewordError::UnevenMel { len } ==> text::occurs(
            wakeword_error_text(error),
            text::decimal(len as nat),
        ),
        error matches WakewordError::WrongEmbedding { len } ==> text::occurs(
            wakeword_error_text(error),
            text::decimal(len as nat),
        ),
{
    match error {
        WakewordError::WrongKeywordRank { shape } => {
            text::parts_are_found(
                "openWakeWord keyword model input rank must be 3, got shape "@,
                shape@,
                shape@,
            );
        },
        WakewordError::WrongKeywordShape { shape } => {
            text::parts_are_found(
                "openWakeWord keyword model input must be [1, frames, 96], got "@,
                shape@,
                shape@,
            );
        },
        WakewordError::UnevenMel { len } => {
            text::parts_are_found(
                "openWakeWord melspectrogram output "@,
                text::decimal(len as nat),
                " is not divisible by 32 mel bins"@,
            );
        },
        WakewordError::WrongEmbedding { len } => {
            text::parts_are_found(
                "openWakeWord embedding output has "@,
                text::decimal(len as nat),
                " values, expected 96"@,
            );
        },
        _ => {},
    }
}

/// A shape is written as its dimensions in square brackets, with commas between them.
pub proof fn shapes_are_written_in_brackets(a: usize, b: usize, c: usize)
    ensures
        shape_text(seq![a, b, c]) == "["@ + text::decimal(a as nat) + ", "@ + text::decimal(b as nat)
            + ", "@ + text::decimal(c as nat) + "]"@,
        shape_text(seq![a]) == "["@ + text::decimal(a as nat) + "]"@,
{
    let none = Seq::<Seq<char>>::empty();
    let x = text::decimal(a as nat);
    let y = text::decimal(b as nat);
    let z = text::decimal(c as nat);
    assert(dimensions(seq![a, b, c]) =~= none.push(x).push(y).push(z));
    assert(dimensions(seq![a]) =~= seq![x]);
    assert(none.push(x) =~= seq![x]);
    text::joining_keeps_the_order(none, x, ", "@);
    text::joining_keeps_the_order(none.push(x), y, ", "@);
    text::joining_keeps_the_order(none.push(x).push(y), z, ", "@);
    assert("["@ + (x + ", "@ + y + ", "@ + z) + "]"@ =~= "["@ + x + ", "@ + y + ", "@ + z + "]"@);
}

} // verus!
