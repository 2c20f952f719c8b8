//! Cutting a recording down to the speech in it.

use vstd::prelude::*;

use crate::audio;
use crate::audio::{copy_bytes, pcm_bytes_wide, pcm_duration};
use crate::clock::Duration;
use crate::speech;
use crate::speech::{
    adaptive_speech_threshold, rms_frames, RmsFrame, DEFAULT_MIN_SPEECH_DURATION,
    DEFAULT_SPEECH_ANALYSIS_FRAME,
};

verus! {

/// How much sound before the speech is kept, in milliseconds.
pub const TRIM_LEADING_PAD: u64 = 500;

/// How much sound behind the speech is kept, in milliseconds.
pub const TRIM_TRAILING_PAD: u64 = 300;

/// A recording cut down to its speech.
#[derive(Debug, Clone)]
pub struct SpeechTrim {
    pub pcm: Vec<u8>,
    pub leading_trim: Duration,
    pub trailing_trim: Duration,
    pub trailing_silence: Duration,
}

/// A recording as it is sent to be transcribed.
#[derive(Debug, Clone)]
pub struct TranscriptionAudio {
    pub pcm: Vec<u8>,
    pub audio_duration: Duration,
    pub leading_trim: Duration,
    pub trailing_trim: Duration,
    pub trailing_silence: Duration,
}

/// The first loud frame, from the `k`th on; as many as there are frames, if none is loud.
pub open spec fn first_loud(frames: Seq<RmsFrame>, threshold: nat, k: nat) -> nat
    decreases frames.len() - k,
{
    if k < frames.len() && frames[k as int].rms.value() < threshold {
        first_loud(frames, threshold, k + 1)
    } else {
        k
    }
}

/// How many frames there are up to the last loud one, among the first `k`.
pub open spec fn loud_up_to(frames: Seq<RmsFrame>, threshold: nat, k: nat) -> nat
    decreases k,
{
    if 0 < k <= frames.len() && frames[k - 1].rms.value() < threshold {
        loud_up_to(frames, threshold, (k - 1) as nat)
    } else {
        k
    }
}

/// The frames of a recording.
pub open spec fn recording_frames(sample_rate: u32, pcm: Seq<u8>) -> Seq<RmsFrame> {
    speech::frames_of(pcm, speech::default_step(sample_rate))
}

/// The bytes from the first loud frame of a recording to its last, if any is loud.
pub open spec fn speech_span(sample_rate: u32, pcm: Seq<u8>) -> Option<(nat, nat)> {
    let frames = recording_frames(sample_rate, pcm);
    let threshold = speech::default_threshold(sample_rate, frames);
    let first = first_loud(frames, threshold, 0);
    if first >= frames.len() {
        None
    } else {
        let last = loud_up_to(frames, threshold, frames.len()) - 1;
        Some((frames[first as int].start as nat, frames[last].end as nat))
    }
}

/// Whether a span of loud frames is long enough to be speech.
pub open spec fn long_enough(sample_rate: u32, span: (nat, nat)) -> bool {
    span.1 - span.0 >= audio::pcm_bytes(
        sample_rate,
        DEFAULT_MIN_SPEECH_DURATION as nat * 1_000_000,
    )
}

/// The first byte that is kept of a recording with speech from `start` on.
pub open spec fn padded_start(sample_rate: u32, start: nat) -> nat {
    let pad = audio::pcm_bytes(sample_rate, TRIM_LEADING_PAD as nat * 1_000_000);
    if start > pad {
        (start - pad) as nat
    } else {
        0
    }
}

/// The byte behind the last that is kept of a recording with speech up to `end`.
pub open spec fn padded_end(sample_rate: u32, end: nat, len: nat) -> nat {
    let pad = audio::pcm_bytes(sample_rate, TRIM_TRAILING_PAD as nat * 1_000_000);
    if end + pad < len {
        end + pad
    } else {
        len
    }
}

/// The part of a recording that is kept: its speech, with some sound round it.
pub open spec fn kept_range(sample_rate: u32, pcm: Seq<u8>) -> Option<(nat, nat)> {
    match speech_span(sample_rate, pcm) {
        Some(span) => if long_enough(sample_rate, span) {
            Some((padded_start(sample_rate, span.0), padded_end(sample_rate, span.1, pcm.len())))
        } else {
            None
        },
        None => None,
    }
}

/// The sound that is kept of a recording.
pub open spec fn kept_sound(sample_rate: u32, pcm: Seq<u8>) -> Seq<u8> {
    match kept_range(sample_rate, pcm) {
        Some(range) => pcm.subrange(range.0 as int, range.1 as int),
        None => seq![],
    }
}

/// How many bytes come after the last loud frame. A recording without any frame has none.
pub open spec fn silence_after(sample_rate: u32, pcm: Seq<u8>) -> nat {
    if recording_frames(sample_rate, pcm).len() == 0 {
        0
    } else {
        match speech_span(sample_rate, pcm) {
            Some(span) => (pcm.len() - span.1) as nat,
            None => pcm.len(),
        }
    }
}

/// Where the first loud frame is.
proof fn first_loud_is(frames: Seq<RmsFrame>, threshold: nat, k: nat, n: nat)
    requires
        k <= n <= frames.len(),
        forall|j: int| k <= j < n ==> (#[trigger] frames[j]).rms.value() < threshold,
        n == frames.len() || frames[n as int].rms.value() >= threshold,
    ensures
        first_loud(frames, threshold, k) == n,
    decreases n - k,
{
    if k < n {
        first_loud_is(frames, threshold, k + 1, n);
    }
}

/// A frame lies within the recording, and a later one does not begin earlier.
proof fn frames_lie_in_order(sample_rate: u32, pcm: Seq<u8>, i: int, j: int)
    requires
        pcm.len() <= usize::MAX,
        0 <= i <= j < recording_frames(sample_rate, pcm).len(),
    ensures
        recording_frames(sample_rate, pcm)[i].start <= recording_frames(sample_rate, pcm)[j].end
            <= pcm.len(),
        recording_frames(sample_rate, pcm)[i].start <= recording_frames(sample_rate, pcm)[i].end,
{
    let step = speech::default_step(sample_rate);
    speech::another_frame(pcm.len(), step, i as nat);
    speech::another_frame(pcm.len(), step, j as nat);
    assert(0 <= i * step <= j * step) by (nonlinear_arith)
        requires
            0 <= i <= j,
            step > 0,
    ;
}

/// Cuts a recording down to its speech, with some sound round it. Nothing is kept of a recording
/// without speech, or with too little.
pub fn trim_pcm_to_speech(sample_rate: u32, pcm: &[u8]) -> (r: SpeechTrim)
    requires
        sample_rate > 0,
    ensures
        r.pcm@ == kept_sound(sample_rate, pcm@),
        r.trailing_silence@ == audio::pcm_nanos(sample_rate, silence_after(sample_rate, pcm@)),
        match kept_range(sample_rate, pcm@) {
            Some(range) => r.leading_trim@ == audio::pcm_nanos(sample_rate, range.0)
                && r.trailing_trim@ == audio::pcm_nanos(
                sample_rate,
                (pcm@.len() - range.1) as nat,
            ),
            None => r.leading_trim@ == 0 && r.trailing_trim@ == 0,
        },
{
    let len: usize = pcm.len();
    let frames = rms_frames(
        sample_rate,
        pcm,
        Duration::from_millis(DEFAULT_SPEECH_ANALYSIS_FRAME),
    );
    let count: usize = frames.len();
    if count == 0 {
        proof {
            assert(0nat * 1_000_000_000 / (2 * sample_rate as nat) == 0) by (nonlinear_arith)
                requires
                    sample_rate > 0,
            ;
        }
        return SpeechTrim {
            pcm: Vec::new(),
            leading_trim: Duration::zero(),
            trailing_trim: Duration::zero(),
            trailing_silence: Duration::zero(),
        };
    }
    let limit = adaptive_speech_threshold(sample_rate, &frames);
    let ghost threshold = limit.value();
    let mut first: usize = 0;
    while first < count && frames[first].rms.is_below(limit)
        invariant
            first <= count == frames@.len(),
            threshold == limit.value(),
            forall|j: int| 0 <= j < first ==> (#[trigger] frames@[j]).rms.value() < threshold,
        decreases count - first,
    {
        first += 1;
    }
    proof {
        first_loud_is(frames@, threshold, 0, first as nat);
    }
    if first == count {
        return SpeechTrim {
            pcm: Vec::new(),
            leading_trim: Duration::zero(),
            trailing_trim: Duration::zero(),
            trailing_silence: pcm_duration(sample_rate, len),
        };
    }
    let mut last: usize = count - 1;
    while frames[last].rms.is_below(limit)
        invariant
            first <= last < count == frames@.len(),
            threshold == limit.value(),
            frames@[first as int].rms.value() >= threshold,
            loud_up_to(frames@, threshold, count as nat) == loud_up_to(
                frames@,
                threshold,
                (last + 1) as nat,
            ),
        decreases last,
    {
        last -= 1;
    }
    proof {
        frames_lie_in_order(sample_rate, pcm@, first as int, last as int);
    }
    let speech_start = frames[first].start;
    let speech_end = frames[last].end;
    let shortest = pcm_bytes_wide(
        sample_rate,
        Duration::from_millis(DEFAULT_MIN_SPEECH_DURATION),
    );
    if ((speech_end - speech_start) as u128) < shortest {
        return SpeechTrim {
            pcm: Vec::new(),
            leading_trim: Duration::zero(),
            trailing_trim: Duration::zero(),
            trailing_silence: pcm_duration(sample_rate, len - speech_end),
        };
    }
    let leading_pad = pcm_bytes_wide(sample_rate, Duration::from_millis(TRIM_LEADING_PAD));
    let trailing_pad = pcm_bytes_wide(sample_rate, Duration::from_millis(TRIM_TRAILING_PAD));
    let from: usize = if speech_start as u128 > leading_pad {
        speech_start - leading_pad as usize
    } else {
        0
    };
    let to: usize = if speech_end as u128 + trailing_pad < len as u128 {
        (speech_end as u128 + trailing_pad) as usize
    } else {
        len
    };
    SpeechTrim {
        pcm: copy_bytes(pcm, from, to),
        leading_trim: pcm_duration(sample_rate, from),
        trailing_trim: pcm_duration(sample_rate, len - to),
        trailing_silence: pcm_duration(sample_rate, len - speech_end),
    }
}

/// Whether a recording that is to be transcribed is what is kept of another, with the lengths that
/// belong to it.
pub open spec fn describes(sample_rate: u32, pcm: Seq<u8>, audio: TranscriptionAudio) -> bool {
    &&& audio.pcm@ == kept_sound(sample_rate, pcm)
    &&& audio.audio_duration@ == audio::pcm_nanos(sample_rate, kept_sound(sample_rate, pcm).len())
    &&& audio.trailing_silence@ == audio::pcm_nanos(sample_rate, silence_after(sample_rate, pcm))
    &&& match kept_range(sample_rate, pcm) {
        Some(range) => audio.leading_trim@ == audio::pcm_nanos(sample_rate, range.0)
            && audio.trailing_trim@ == audio::pcm_nanos(
            sample_rate,
            (pcm.len() - range.1) as nat,
        ),
        None => audio.leading_trim@ == 0 && audio.trailing_trim@ == 0,
    }
}

/// A recording as it is sent to be transcribed: cut down to its speech.
pub fn build_final_transcription_audio(sample_rate: u32, pcm: &[u8]) -> (r: TranscriptionAudio)
    requires
        sample_rate > 0,
    ensures
        describes(sample_rate, pcm@, r),
{
    let trim = trim_pcm_to_speech(sample_rate, pcm);
    TranscriptionAudio {
        audio_duration: pcm_duration(sample_rate, trim.pcm.len()),
        pcm: trim.pcm,
        leading_trim: trim.leading_trim,
        trailing_trim: trim.trailing_trim,
        trailing_silence: trim.trailing_silence,
    }
}

/// Sound behind a span of silence.
pub fn pcm_with_leading_silence(sample_rate: u32, duration: Duration, pcm: &[u8]) -> (r: Vec<u8>)
    requires
        audio::pcm_bytes(sample_rate, duration@) <= usize::MAX,
    ensures
        r@ == Seq::new(audio::pcm_bytes(sample_rate, duration@), |i: int| 0u8) + pcm@,
{
    let silence = audio::pcm_bytes_for_duration(sample_rate, duration);
    let mut padded: Vec<u8> = vec![0u8; silence];
    padded.extend_from_slice(pcm);
    proof {
        assert(padded@ =~= Seq::new(audio::pcm_bytes(sample_rate, duration@), |i: int| 0u8)
            + pcm@);
    }
    padded
}

/// What is kept of a recording lies within it and holds all of its speech.
pub proof fn kept_sound_holds_the_speech(sample_rate: u32, pcm: Seq<u8>)
    requires
        pcm.len() <= usize::MAX,
    ensures
        kept_range(sample_rate, pcm) matches Some(range) ==> {
            let span = speech_span(sample_rate, pcm)->0;
            range.0 <= span.0 <= span.1 <= range.1 <= pcm.len()
        },
{
    if kept_range(sample_rate, pcm) is Some {
        let frames = recording_frames(sample_rate, pcm);
        let threshold = speech::default_threshold(sample_rate, frames);
        let first = first_loud(frames, threshold, 0);
        first_loud_bounds(frames, threshold, 0);
        loud_up_to_bounds(frames, threshold, frames.len(), first);
        let last = loud_up_to(frames, threshold, frames.len()) - 1;
        frames_lie_in_order(sample_rate, pcm, first as int, last);
    }
}

/// The first loud frame is loud.
proof fn first_loud_bounds(frames: Seq<RmsFrame>, threshold: nat, k: nat)
    requires
        k <= frames.len(),
    ensures
        k <= first_loud(frames, threshold, k) <= frames.len(),
        first_loud(frames, threshold, k) < frames.len() ==> frames[first_loud(
            frames,
            threshold,
            k,
        ) as int].rms.value() >= threshold,
    decreases frames.len() - k,
{
    if k < frames.len() && frames[k as int].rms.value() < threshold {
        first_loud_bounds(frames, threshold, k + 1);
    }
}

/// The last loud frame does not come before another loud one.
proof fn loud_up_to_bounds(frames: Seq<RmsFrame>, threshold: nat, k: nat, loud: nat)
    requires
        loud < k <= frames.len(),
        frames[loud as int].rms.value() >= threshold,
    ensures
        loud < loud_up_to(frames, threshold, k) <= k,
    decreases k,
{
    if frames[k - 1].rms.value() < threshold {
        loud_up_to_bounds(frames, threshold, (k - 1) as nat, loud);
    }
}

/// What is kept of a recording is the speech itself, byte by byte, with the sound just before and
/// behind it: half a second before and 0.3 seconds behind, or as much as there is.
pub proof fn kept_sound_is_the_speech_and_what_surrounds_it(sample_rate: u32, pcm: Seq<u8>)
    requires
        pcm.len() <= usize::MAX,
        kept_range(sample_rate, pcm) is Some,
    ensures
        speech_span(sample_rate, pcm) is Some,
        ({
            let span = speech_span(sample_rate, pcm)->0;
            let before = audio::pcm_bytes(sample_rate, 500_000_000);
            let behind = audio::pcm_bytes(sample_rate, 300_000_000);
            let lead = if span.0 <= before {
                span.0
            } else {
                before
            };
            let tail = if pcm.len() - span.1 <= behind {
                (pcm.len() - span.1) as nat
            } else {
                behind
            };
            let kept = kept_sound(sample_rate, pcm);
            &&& span.0 <= span.1 <= pcm.len()
            &&& kept.len() == lead + (span.1 - span.0) + tail
            &&& kept.subrange(lead as int, lead + (span.1 - span.0)) == pcm.subrange(
                span.0 as int,
                span.1 as int,
            )
            &&& kept.take(lead as int) == pcm.subrange(span.0 - lead, span.0 as int)
            &&& kept.skip(lead + (span.1 - span.0)) == pcm.subrange(
                span.1 as int,
                (span.1 + tail) as int,
            )
            &&& kept_range(sample_rate, pcm) == Some(
                ((span.0 - lead) as nat, (span.1 + tail) as nat),
            )
        }),
{
    kept_sound_holds_the_speech(sample_rate, pcm);
    let span = speech_span(sample_rate, pcm)->0;
    let range = kept_range(sample_rate, pcm)->0;
    let lead = span.0 - range.0;
    let length = span.1 - span.0;
    let kept = kept_sound(sample_rate, pcm);
    assert(kept.subrange(lead, lead + length) =~= pcm.subrange(span.0 as int, span.1 as int));
    assert(kept.take(lead) =~= pcm.subrange(range.0 as int, span.0 as int));
    assert(kept.skip(lead + length) =~= pcm.subrange(span.1 as int, range.1 as int));
}

/// A recording is kept exactly if it has loud frames, and at least 120 milliseconds lie between the
/// start of the first and the end of the last; else nothing is kept.
pub proof fn only_speech_is_kept(sample_rate: u32, pcm: Seq<u8>)
    ensures
        kept_range(sample_rate, pcm) is Some <==> (speech_span(sample_rate, pcm) matches Some(span)
            && span.1 - span.0 >= audio::pcm_bytes(sample_rate, 120_000_000)),
        kept_range(sample_rate, pcm) is None ==> kept_sound(sample_rate, pcm).len() == 0,
{
}

/// The speech of a recording reaches from a loud frame to a loud frame, and no loud frame lies
/// outside. There is none exactly if no frame is loud.
pub proof fn speech_reaches_from_loud_to_loud(sample_rate: u32, pcm: Seq<u8>)
    requires
        pcm.len() <= usize::MAX,
    ensures
        ({
            let frames = recording_frames(sample_rate, pcm);
            let limit = speech::default_threshold(sample_rate, frames);
            &&& speech_span(sample_rate, pcm) is None ==> forall|k: int|
                0 <= k < frames.len() ==> (#[trigger] frames[k]).rms.value() < limit
            &&& speech_span(sample_rate, pcm) matches Some(span) ==> {
                &&& exists|k: int|
                    0 <= k < frames.len() && (#[trigger] frames[k]).rms.value() >= limit
                        && frames[k].start == span.0
                &&& exists|k: int|
                    0 <= k < frames.len() && (#[trigger] frames[k]).rms.value() >= limit
                        && frames[k].end == span.1
                &&& forall|k: int|
                    0 <= k < frames.len() && (#[trigger] frames[k]).rms.value() >= limit
                        ==> span.0 <= frames[k].start && frames[k].end <= span.1
            }
        }),
{
    let frames = recording_frames(sample_rate, pcm);
    let limit = speech::default_threshold(sample_rate, frames);
    let first = first_loud(frames, limit, 0);
    first_loud_bounds(frames, limit, 0);
    all_before_are_quiet(frames, limit, 0);
    if first < frames.len() {
        loud_up_to_bounds(frames, limit, frames.len(), first);
        all_behind_are_quiet(frames, limit, frames.len());
        let last = loud_up_to(frames, limit, frames.len()) - 1;
        assert(frames[first as int].rms.value() >= limit);
        assert(frames[last].rms.value() >= limit);
        assert forall|k: int| 0 <= k < frames.len() && (#[trigger] frames[k]).rms.value()
            >= limit implies frames[first as int].start <= frames[k].start && frames[k].end
            <= frames[last].end by {
            assert(first <= k <= last);
            frames_follow_each_other(sample_rate, pcm, first as int, k);
            frames_follow_each_other(sample_rate, pcm, k, last);
        }
    }
}

/// All frames before the first loud one are quiet.
proof fn all_before_are_quiet(frames: Seq<RmsFrame>, threshold: nat, k: nat)
    requires
        k <= frames.len(),
    ensures
        forall|j: int|
            k <= j < first_loud(frames, threshold, k) ==> (#[trigger] frames[j]).rms.value()
                < threshold,
    decreases frames.len() - k,
{
    if k < frames.len() && frames[k as int].rms.value() < threshold {
        all_before_are_quiet(frames, threshold, k + 1);
    }
}

/// All frames behind the last loud one are quiet, and it is loud.
proof fn all_behind_are_quiet(frames: Seq<RmsFrame>, threshold: nat, k: nat)
    requires
        k <= frames.len(),
    ensures
        loud_up_to(frames, threshold, k) <= k,
        forall|j: int|
            loud_up_to(frames, threshold, k) <= j < k ==> (#[trigger] frames[j]).rms.value()
                < threshold,
        loud_up_to(frames, threshold, k) > 0 ==> frames[loud_up_to(frames, threshold, k)
            - 1].rms.value() >= threshold,
    decreases k,
{
    if 0 < k && frames[k - 1].rms.value() < threshold {
        all_behind_are_quiet(frames, threshold, (k - 1) as nat);
    }
}

/// A later frame begins and ends no earlier.
proof fn frames_follow_each_other(sample_rate: u32, pcm: Seq<u8>, j: int, k: int)
    requires
        pcm.len() <= usize::MAX,
        0 <= j <= k < recording_frames(sample_rate, pcm).len(),
    ensures
        recording_frames(sample_rate, pcm)[j].start <= recording_frames(sample_rate, pcm)[k].start,
        recording_frames(sample_rate, pcm)[j].end <= recording_frames(sample_rate, pcm)[k].end,
{
    frames_lie_in_order(sample_rate, pcm, j, k);
    frames_lie_in_order(sample_rate, pcm, j, j);
    frames_lie_in_order(sample_rate, pcm, k, k);
    let step = speech::default_step(sample_rate);
    speech::another_frame(pcm.len(), step, j as nat);
    speech::another_frame(pcm.len(), step, k as nat);
    assert(j * step <= k * step) by (nonlinear_arith)
        requires
            0 <= j <= k,
            step > 0,
    ;
}

/// The silence at the end of a recording is what comes behind its last loud frame; all of it where
/// no frame is loud.
pub proof fn silence_comes_behind_the_speech(sample_rate: u32, pcm: Seq<u8>)
    requires
        pcm.len() <= usize::MAX,
        recording_frames(sample_rate, pcm).len() > 0,
    ensures
        speech_span(sample_rate, pcm) is None ==> silence_after(sample_rate, pcm) == pcm.len(),
        speech_span(sample_rate, pcm) matches Some(span) ==> silence_after(sample_rate, pcm)
            + span.1 == pcm.len(),
{
    if speech_span(sample_rate, pcm) is Some {
        let frames = recording_frames(sample_rate, pcm);
        let limit = speech::default_threshold(sample_rate, frames);
        first_loud_bounds(frames, limit, 0);
        let first = first_loud(frames, limit, 0);
        loud_up_to_bounds(frames, limit, frames.len(), first);
        let last = loud_up_to(frames, limit, frames.len()) - 1;
        frames_lie_in_order(sample_rate, pcm, first as int, last);
    }
}

/// What is told of a recording that is to be transcribed fits together: the sound that is sent, and
/// what was cut off before and behind it, have the bytes of the recording.
pub proof fn told_lengths_fit_together(sample_rate: u32, pcm: Seq<u8>, audio: TranscriptionAudio)
    requires
        sample_rate > 0,
        pcm.len() <= usize::MAX,
        describes(sample_rate, pcm, audio),
        audio.pcm@.len() > 0,
    ensures
        exists|from: int, to: int|
            {
                &&& 0 <= from <= to <= pcm.len()
                &&& audio.pcm@ == #[trigger] pcm.subrange(from, to)
                &&& audio.leading_trim@ == from * 1_000_000_000 / (2 * sample_rate as int)
                &&& audio.trailing_trim@ == (pcm.len() - to) * 1_000_000_000 / (2
                    * sample_rate as int)
                &&& audio.audio_duration@ == (to - from) * 1_000_000_000 / (2 * sample_rate as int)
            },
{
    kept_sound_holds_the_speech(sample_rate, pcm);
    let range = kept_range(sample_rate, pcm)->0;
    assert(audio.pcm@ == pcm.subrange(range.0 as int, range.1 as int));
}

/// A recording is looked at in frames of 20 milliseconds.
pub proof fn recordings_are_looked_at_in_frames(sample_rate: u32, pcm: Seq<u8>)
    ensures
        recording_frames(sample_rate, pcm) == speech::frames_of(
            pcm,
            speech::frame_step(sample_rate, 20_000_000),
        ),
{
}

/// What is told of the silence at the end of a recording is how long it lasts behind the last loud frame;
/// where no frame is loud, all of it, and where there is no frame, none. Where nothing is kept of a
/// recording, it is not told to be cut.
pub proof fn silence_behind_the_speech_is_told(
    sample_rate: u32,
    pcm: Seq<u8>,
    audio: TranscriptionAudio,
    last: int,
)
    requires
        sample_rate > 0,
        pcm.len() <= usize::MAX,
        describes(sample_rate, pcm, audio),
    ensures
        ({
            let frames = recording_frames(sample_rate, pcm);
            let limit = speech::default_threshold(sample_rate, frames);
            let quiet_from = |k: int|
                forall|j: int| k <= j < frames.len() ==> (#[trigger] frames[j]).rms.value() < limit;
            &&& frames.len() == 0 ==> audio.trailing_silence@ == 0
            &&& frames.len() > 0 && quiet_from(0) ==> audio.trailing_silence@ == (pcm.len() as int)
                * 1_000_000_000 / (2 * sample_rate as int)
            &&& 0 <= last < frames.len() && frames[last].rms.value() >= limit && quiet_from(last + 1)
                ==> audio.trailing_silence@ == (pcm.len() - frames[last].end) * 1_000_000_000 / (2
                * sample_rate as int)
            &&& quiet_from(0) ==> audio.pcm@.len() == 0 && audio.audio_duration@ == 0
                && audio.leading_trim@ == 0 && audio.trailing_trim@ == 0
        }),
{
    let frames = recording_frames(sample_rate, pcm);
    let limit = speech::default_threshold(sample_rate, frames);
    speech_reaches_from_loud_to_loud(sample_rate, pcm);
    if 0 <= last < frames.len() && frames[last].rms.value() >= limit && forall|j: int|
        last + 1 <= j < frames.len() ==> (#[trigger] frames[j]).rms.value() < limit {
        let span = speech_span(sample_rate, pcm)->0;
        let k = choose|k: int|
            0 <= k < frames.len() && (#[trigger] frames[k]).rms.value() >= limit && frames[k].end
                == span.1;
        assert(k <= last);
        frames_follow_each_other(sample_rate, pcm, k, last);
        silence_comes_behind_the_speech(sample_rate, pcm);
    }
}

/// Where the speech of a recording is shorter than 120 milliseconds, nothing is kept, and the recording
/// is not told to be cut.
pub proof fn nothing_is_cut_of_what_is_not_kept(
    sample_rate: u32,
    pcm: Seq<u8>,
    audio: TranscriptionAudio,
)
    requires
        sample_rate > 0,
        describes(sample_rate, pcm, audio),
        speech_span(sample_rate, pcm) matches Some(span) && span.1 - span.0 < audio::pcm_bytes(
            sample_rate,
            120_000_000,
        ),
    ensures
        audio.pcm@.len() == 0,
        audio.audio_duration@ == 0,
        audio.leading_trim@ == 0,
        audio.trailing_trim@ == 0,
{
}

} // verus!
