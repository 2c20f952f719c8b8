//! Telling speech from silence by the loudness of short frames of sound.
//!
//! Loudness is the root mean square of the samples of a frame, in double precision.

use vstd::prelude::*;

use crate::audio;
use crate::audio::pcm_bytes_wide;
use crate::clock::Duration;
use crate::double;
use crate::double::Double;

verus! {

/// The length of a frame, in milliseconds.
pub const DEFAULT_SPEECH_ANALYSIS_FRAME: u64 = 20;

/// The shortest speech, in milliseconds.
pub const DEFAULT_MIN_SPEECH_DURATION: u64 = 120;

/// The bits of the least loudness of speech: 700.
pub const DEFAULT_SPEECH_RMS_FLOOR: u64 = 0x4085_e000_0000_0000;

/// The bits of the loudness that is speech whatever the noise: 1500.
pub const DEFAULT_MAX_SPEECH_RMS_FLOOR: u64 = 0x4097_7000_0000_0000;

/// The bits of how many times as loud as the noise speech is: four times.
pub const DEFAULT_NOISE_FLOOR_MULTIPLIER: u64 = 0x4010_0000_0000_0000;

/// How much sound at the start tells the noise, in milliseconds.
pub const DEFAULT_NOISE_SAMPLE_DURATION: u64 = 1_000;

/// A frame of sound: its first byte, the byte behind its last, and its loudness.
#[derive(Debug, Clone, Copy, PartialEq, Eq, Structural)]
pub struct RmsFrame {
    pub start: usize,
    pub end: usize,
    pub rms: Double,
}

/// The sample that two bytes stand for, the low one first.
pub open spec fn sample_value(low: u8, high: u8) -> int {
    let n = low + 256 * high;
    if n >= 32_768 {
        n - 65_536
    } else {
        n
    }
}

/// The samples of some sound. A byte left over at the end is none.
pub open spec fn samples(pcm: Seq<u8>) -> Seq<int> {
    Seq::new(pcm.len() / 2, |i: int| sample_value(pcm[2 * i], pcm[2 * i + 1]))
}

/// The sum of the squares of some samples, in double precision, in parts of 2^-1074.
pub open spec fn sum_of_squares(s: Seq<int>) -> nat
    decreases s.len(),
{
    if s.len() == 0 {
        0
    } else {
        double::sum(
            sum_of_squares(s.drop_last()),
            (s.last() * s.last()) as nat * double::power(double::ONE as nat),
        )
    }
}

/// The loudness of some sound, in parts of 2^-1074.
pub open spec fn rms(pcm: Seq<u8>) -> nat {
    let s = samples(pcm);
    if s.len() == 0 {
        0
    } else {
        double::square_root(double::quotient(sum_of_squares(s), double::rounded(s.len(), 1)))
    }
}

/// The samples of some sound.
pub fn pcm_s16le_samples(pcm: &[u8]) -> (r: Vec<i16>)
    ensures
        r@.len() == samples(pcm@).len(),
        forall|i: int| 0 <= i < r@.len() ==> (#[trigger] r@[i]) as int == samples(pcm@)[i],
{
    let mut out: Vec<i16> = Vec::new();
    let len: usize = pcm.len();
    let count: usize = len / 2;
    let mut i: usize = 0;
    while i < count
        invariant
            i <= count,
            len == pcm@.len(),
            count == len / 2,
            out@.len() == i,
            forall|j: int| 0 <= j < i ==> (#[trigger] out@[j]) as int == samples(pcm@)[j],
        decreases count - i,
    {
        let n: i32 = pcm[2 * i] as i32 + 256 * (pcm[2 * i + 1] as i32);
        let value: i32 = if n >= 32_768 {
            n - 65_536
        } else {
            n
        };
        out.push(value as i16);
        i += 1;
    }
    out
}

/// The sum of the squares of some samples.
fn add_squares(values: &Vec<i16>, Ghost(s): Ghost<Seq<int>>) -> (r: Double)
    requires
        values@.len() == s.len(),
        forall|j: int| 0 <= j < s.len() ==> (#[trigger] values@[j]) as int == s[j],
    ensures
        r.is_number(),
        r.value() == sum_of_squares(s),
{
    let count: usize = values.len();
    let mut exact: u128 = 0;
    let mut i: usize = 0;
    proof {
        assert(0 * double::power(double::ONE as nat) == 0) by (nonlinear_arith);
    }
    while i < count && exact < 0x10_0000_0000_0000
        invariant
            i <= count,
            count == values@.len(),
            count == s.len(),
            forall|j: int| 0 <= j < s.len() ==> (#[trigger] values@[j]) as int == s[j],
            exact < 0x20_0000_0000_0000,
            sum_of_squares(s.take(i as int)) == exact * double::power(double::ONE as nat),
        decreases count - i,
    {
        let x: i64 = values[i] as i64;
        proof {
            square_is_small(x);
            assert(s.take(i + 1).drop_last() =~= s.take(i as int));
            assert(s.take(i + 1).last() == x);
            double::small_sums_are_exact(exact as nat, (x * x) as nat);
        }
        exact = exact + (x * x) as u128;
        i += 1;
    }
    let mut sum = Double::from_whole(exact);
    proof {
        double::small_numbers_are_exact(exact as nat);
    }
    while i < count
        invariant
            i <= count,
            count == values@.len(),
            count == s.len(),
            forall|j: int| 0 <= j < s.len() ==> (#[trigger] values@[j]) as int == s[j],
            sum.is_number(),
            sum.value() == sum_of_squares(s.take(i as int)),
        decreases count - i,
    {
        let x: i64 = values[i] as i64;
        proof {
            square_is_small(x);
            assert(s.take(i + 1).drop_last() =~= s.take(i as int));
            assert(s.take(i + 1).last() == x);
            double::small_numbers_are_exact((x * x) as nat);
        }
        sum = sum.plus(Double::from_whole((x * x) as u128));
        i += 1;
    }
    proof {
        assert(s.take(count as int) =~= s);
    }
    sum
}

/// The square of a sample is small.
proof fn square_is_small(x: i64)
    requires
        -32_768 <= x <= 32_767,
    ensures
        0 <= x * x <= 0x4000_0000,
{
    assert(0 <= x * x <= 0x4000_0000) by (nonlinear_arith)
        requires
            -32_768 <= x <= 32_767,
    ;
}

/// The loudness of some sound.
pub fn pcm_rms_s16le(pcm: &[u8]) -> (r: Double)
    ensures
        r.is_number(),
        r.value() == rms(pcm@),
{
    let values = pcm_s16le_samples(pcm);
    if values.len() == 0 {
        return Double { bits: 0 };
    }
    let sum = add_squares(&values, Ghost(samples(pcm@)));
    sum.over(double::round_whole(values.len() as u64)).root()
}

/// How many frames of `step` bytes some sound has. One that holds no whole sample is none.
pub open spec fn frame_count(len: nat, step: nat) -> nat {
    if len < 2 {
        0
    } else {
        (len - 2) as nat / step + 1
    }
}

/// The frame that begins after `k` frames of `step` bytes. The last one may be shorter.
pub open spec fn frame_at(pcm: Seq<u8>, step: nat, k: int) -> RmsFrame {
    let start = k * step;
    let end = if start + step <= pcm.len() {
        start + step
    } else {
        pcm.len() as int
    };
    RmsFrame {
        start: start as usize,
        end: end as usize,
        rms: double::double_of(rms(pcm.subrange(start, end))),
    }
}

/// The frames of `step` bytes of some sound.
pub open spec fn frames_of(pcm: Seq<u8>, step: nat) -> Seq<RmsFrame> {
    Seq::new(frame_count(pcm.len(), step), |k: int| frame_at(pcm, step, k))
}

/// How many bytes a frame of the given length has: at least one sample.
pub open spec fn frame_step(sample_rate: u32, nanos: nat) -> nat {
    if audio::pcm_bytes(sample_rate, nanos) < 2 {
        2
    } else {
        audio::pcm_bytes(sample_rate, nanos)
    }
}

/// One more frame begins exactly if two bytes are left.
pub proof fn another_frame(len: nat, step: nat, k: nat)
    requires
        step > 0,
    ensures
        k * step + 2 <= len <==> k < frame_count(len, step),
{
    if len >= 2 {
        let m = (len - 2) as nat;
        let q = m / step;
        vstd::arithmetic::div_mod::lemma_fundamental_div_mod(m as int, step as int);
        if k <= q {
            assert(k * step <= step * q) by (nonlinear_arith)
                requires
                    0 <= k <= q,
                    step > 0,
            ;
        } else {
            assert(k * step >= step * q + step) by (nonlinear_arith)
                requires
                    k >= q + 1,
                    step > 0,
            ;
        }
    } else {
        assert(k * step >= 0) by (nonlinear_arith);
    }
}

/// Whether the loudness of all frames is a number.
pub open spec fn are_numbers(frames: Seq<RmsFrame>) -> bool {
    forall|k: int| 0 <= k < frames.len() ==> (#[trigger] frames[k]).rms.is_number()
}

/// The frames of some sound.
pub fn rms_frames(sample_rate: u32, pcm: &[u8], frame: Duration) -> (r: Vec<RmsFrame>)
    ensures
        r@ == frames_of(pcm@, frame_step(sample_rate, frame@)),
        are_numbers(r@),
{
    let wide = pcm_bytes_wide(sample_rate, frame);
    let step: u128 = if wide < 2 {
        2
    } else {
        wide
    };
    let len: usize = pcm.len();
    let mut out: Vec<RmsFrame> = Vec::new();
    let mut start: usize = 0;
    let ghost mut k: nat = 0;
    proof {
        another_frame(len as nat, step as nat, 0);
        assert(0 * step == 0) by (nonlinear_arith);
    }
    while len >= 2 && start <= len - 2
        invariant
            len == pcm@.len(),
            2 <= step,
            step <= 0x1_0000_0000_0000_0000_0000_0000_0000,
            start <= len,
            start == k * step || (start == len && k * step >= len),
            out@.len() == k,
            k <= frame_count(len as nat, step as nat),
            forall|j: int| 0 <= j < k ==> #[trigger] out@[j] == frame_at(pcm@, step as nat, j),
            are_numbers(out@),
        decreases len - start,
    {
        let end: usize = if start as u128 + step <= len as u128 {
            (start as u128 + step) as usize
        } else {
            len
        };
        proof {
            assert(k * step == start);
            another_frame(len as nat, step as nat, k);
            assert((k + 1) * step == k * step + step) by (nonlinear_arith);
        }
        let part = audio::copy_bytes(pcm, start, end);
        let loudness = pcm_rms_s16le(&part);
        proof {
            double::doubles_are_known_by_their_value(loudness);
        }
        out.push(RmsFrame { start, end, rms: loudness });
        start = end;
        proof {
            k = k + 1;
        }
    }
    proof {
        another_frame(len as nat, step as nat, k);
        assert(out@ =~= frames_of(pcm@, step as nat));
    }
    out
}

/// How many frames at the start begin before the given byte, from the `k`th one on.
pub open spec fn leading(frames: Seq<RmsFrame>, bytes: nat, k: nat) -> nat
    decreases frames.len() - k,
{
    if k < frames.len() && frames[k as int].start < bytes {
        leading(frames, bytes, k + 1)
    } else {
        k
    }
}

/// The sum of the loudness of some frames, in double precision, in parts of 2^-1074.
pub open spec fn sum_of_rms(frames: Seq<RmsFrame>) -> nat
    decreases frames.len(),
{
    if frames.len() == 0 {
        0
    } else {
        double::sum(sum_of_rms(frames.drop_last()), frames.last().rms.value())
    }
}

/// The loudness from which on a frame is speech, in parts of 2^-1074: a multiple of the mean loudness
/// of the noise at the start, but at least `floor` and at most `max_floor`.
pub open spec fn threshold_of(
    frames: Seq<RmsFrame>,
    noise_bytes: nat,
    floor: Double,
    max_floor: Double,
    noise_multiplier: Double,
) -> nat {
    let n = leading(frames, noise_bytes, 0);
    if n == 0 {
        floor.value()
    } else {
        let mean = double::quotient(sum_of_rms(frames.take(n as int)), double::rounded(n, 1));
        let raised = match double::product(mean, noise_multiplier.value()) {
            Some(noise) => if noise > floor.value() {
                noise
            } else {
                floor.value()
            },
            None => floor.value(),
        };
        if raised < max_floor.value() {
            raised
        } else {
            max_floor.value()
        }
    }
}

/// The default loudness from which on a frame is speech.
pub open spec fn default_threshold(sample_rate: u32, frames: Seq<RmsFrame>) -> nat {
    threshold_of(
        frames,
        audio::pcm_bytes(sample_rate, DEFAULT_NOISE_SAMPLE_DURATION as nat * 1_000_000),
        Double { bits: DEFAULT_SPEECH_RMS_FLOOR },
        Double { bits: DEFAULT_MAX_SPEECH_RMS_FLOOR },
        Double { bits: DEFAULT_NOISE_FLOOR_MULTIPLIER },
    )
}

/// The loudness from which on a frame is speech.
pub fn adaptive_speech_threshold_with(
    sample_rate: u32,
    frames: &[RmsFrame],
    noise_duration: Duration,
    floor: Double,
    max_floor: Double,
    noise_multiplier: Double,
) -> (r: Double)
    requires
        are_numbers(frames@),
        floor.is_number(),
        max_floor.is_number(),
        noise_multiplier.is_number(),
    ensures
        r.is_number(),
        r.value() == threshold_of(
            frames@,
            audio::pcm_bytes(sample_rate, noise_duration@),
            floor,
            max_floor,
            noise_multiplier,
        ),
{
    let noise_bytes = pcm_bytes_wide(sample_rate, noise_duration);
    let len: usize = frames.len();
    let mut n: usize = 0;
    let mut sum = Double { bits: 0 };
    while n < len && (frames[n].start as u128) < noise_bytes
        invariant
            n <= len == frames@.len(),
            are_numbers(frames@),
            sum.is_number(),
            sum.value() == sum_of_rms(frames@.take(n as int)),
            leading(frames@, noise_bytes as nat, 0) == leading(
                frames@,
                noise_bytes as nat,
                n as nat,
            ),
        decreases len - n,
    {
        proof {
            assert(frames@.take(n + 1).drop_last() =~= frames@.take(n as int));
        }
        sum = sum.plus(frames[n].rms);
        n += 1;
    }
    if n == 0 {
        return floor;
    }
    let mean = sum.over(double::round_whole(n as u64));
    let raised = match mean.times(noise_multiplier) {
        Some(noise) => if floor.is_below(noise) {
            noise
        } else {
            floor
        },
        None => floor,
    };
    if raised.is_below(max_floor) {
        raised
    } else {
        max_floor
    }
}

/// The default loudness from which on a frame is speech.
pub fn adaptive_speech_threshold(sample_rate: u32, frames: &[RmsFrame]) -> (r: Double)
    requires
        are_numbers(frames@),
    ensures
        r.is_number(),
        r.value() == default_threshold(sample_rate, frames@),
{
    adaptive_speech_threshold_with(
        sample_rate,
        frames,
        Duration::from_millis(DEFAULT_NOISE_SAMPLE_DURATION),
        Double { bits: DEFAULT_SPEECH_RMS_FLOOR },
        Double { bits: DEFAULT_MAX_SPEECH_RMS_FLOOR },
        Double { bits: DEFAULT_NOISE_FLOOR_MULTIPLIER },
    )
}

/// The bytes of a frame of the default length.
pub open spec fn default_step(sample_rate: u32) -> nat {
    frame_step(sample_rate, DEFAULT_SPEECH_ANALYSIS_FRAME as nat * 1_000_000)
}

/// Whether some frame is at least as loud as the threshold.
pub open spec fn some_loud_frame(frames: Seq<RmsFrame>, threshold: Double) -> bool {
    exists|k: int| 0 <= k < frames.len() && (#[trigger] frames[k]).rms.value() >= threshold.value()
}

/// Tells whether there is speech in some sound.
#[derive(Debug, Clone)]
pub struct SpeechActivityDetector {
    sample_rate: u32,
    threshold: Double,
}

impl SpeechActivityDetector {
    /// Samples a second.
    pub closed spec fn rate(&self) -> u32 {
        self.sample_rate
    }

    /// The loudness from which on a frame is speech.
    pub closed spec fn limit(&self) -> Double {
        self.threshold
    }

    /// A detector for sound without noise.
    pub fn new(sample_rate: u32) -> (r: Self)
        ensures
            r.rate() == sample_rate,
            r.limit() == (Double { bits: DEFAULT_SPEECH_RMS_FLOOR }),
    {
        let none: Vec<u8> = Vec::new();
        let detector = Self::with_initial_noise(sample_rate, &none);
        proof {
            double::doubles_are_known_by_their_value(detector.limit());
            double::doubles_are_known_by_their_value(Double { bits: DEFAULT_SPEECH_RMS_FLOOR });
        }
        detector
    }

    /// A detector for sound with noise as in the given sample.
    pub fn with_initial_noise(sample_rate: u32, initial_pcm: &[u8]) -> (r: Self)
        ensures
            r.rate() == sample_rate,
            r.limit().is_number(),
            r.limit().value() == default_threshold(
                sample_rate,
                frames_of(initial_pcm@, default_step(sample_rate)),
            ),
    {
        let frames = rms_frames(
            sample_rate,
            initial_pcm,
            Duration::from_millis(DEFAULT_SPEECH_ANALYSIS_FRAME),
        );
        Self { sample_rate, threshold: adaptive_speech_threshold(sample_rate, &frames) }
    }

    /// The loudness from which on a frame is speech.
    pub fn threshold(&self) -> (r: Double)
        ensures
            r == self.limit(),
    {
        self.threshold
    }

    /// Whether some frame of the sound is speech.
    pub fn has_speech(&self, pcm: &[u8]) -> (r: bool)
        ensures
            r == some_loud_frame(frames_of(pcm@, default_step(self.rate())), self.limit()),
    {
        let frames = rms_frames(
            self.sample_rate,
            pcm,
            Duration::from_millis(DEFAULT_SPEECH_ANALYSIS_FRAME),
        );
        let mut k: usize = 0;
        while k < frames.len()
            invariant
                k <= frames@.len(),
                frames@ == frames_of(pcm@, default_step(self.rate())),
                forall|j: int|
                    0 <= j < k ==> (#[trigger] frames@[j]).rms.value() < self.limit().value(),
            decreases frames@.len() - k,
        {
            if !frames[k].rms.is_below(self.threshold) {
                return true;
            }
            k += 1;
        }
        false
    }
}

/// The bounds of the threshold are whole numbers, and so is the multiplier.
pub proof fn the_bounds_are_whole()
    ensures
        double::parts(DEFAULT_SPEECH_RMS_FLOOR) == 700 * double::power(double::ONE as nat),
        double::parts(DEFAULT_MAX_SPEECH_RMS_FLOOR) == 1_500 * double::power(double::ONE as nat),
        double::parts(DEFAULT_NOISE_FLOOR_MULTIPLIER) == 4 * double::power(double::ONE as nat),
{
    assert(double::power(43) == 0x800_0000_0000) by {
        reveal_with_fuel(double::power, 44);
    }
    double::whole_double(0x4085_e000_0000_0000, 700, 43);
    assert(double::power(42) == 0x400_0000_0000) by {
        reveal_with_fuel(double::power, 43);
    }
    double::whole_double(0x4097_7000_0000_0000, 1_500, 42);
    assert(double::power(50) == 0x4_0000_0000_0000) by {
        reveal_with_fuel(double::power, 51);
    }
    double::whole_double(0x4010_0000_0000_0000, 4, 50);
}

/// The threshold lies between its bounds, whatever the noise.
pub proof fn thresholds_are_bounded(sample_rate: u32, frames: Seq<RmsFrame>)
    ensures
        double::parts(DEFAULT_SPEECH_RMS_FLOOR) <= default_threshold(sample_rate, frames)
            <= double::parts(DEFAULT_MAX_SPEECH_RMS_FLOOR),
{
    double::bits_are_in_order(DEFAULT_SPEECH_RMS_FLOOR, DEFAULT_MAX_SPEECH_RMS_FLOOR);
}

/// Two bytes are a sample with the low byte first, from -32768 to 32767.
pub proof fn samples_are_little_endian(low: u8, high: u8)
    ensures
        -32_768 <= sample_value(low, high) <= 32_767,
        high < 128 ==> sample_value(low, high) == low + 256 * high,
        high >= 128 ==> sample_value(low, high) == low + 256 * high - 65_536,
{
}

/// Every two bytes are a sample, in their order.
pub proof fn samples_keep_their_order(pcm: Seq<u8>, k: int)
    requires
        0 <= 2 * k,
        2 * k + 1 < pcm.len(),
    ensures
        samples(pcm).len() == pcm.len() / 2,
        samples(pcm)[k] == sample_value(pcm[2 * k], pcm[2 * k + 1]),
{
}

/// The frames of some sound follow each other without a gap from its start; each has the given
/// length but for the last, and less than a sample is left behind them. The loudness of a frame is
/// that of its bytes.
pub proof fn frames_cover_the_sound(pcm: Seq<u8>, step: nat, k: int)
    requires
        pcm.len() <= usize::MAX,
        step >= 2,
        0 <= k < frames_of(pcm, step).len(),
    ensures
        ({
            let frames = frames_of(pcm, step);
            &&& frames[0].start == 0
            &&& frames[k].start < frames[k].end <= pcm.len()
            &&& k + 1 < frames.len() ==> frames[k + 1].start == frames[k].end && frames[k].end
                - frames[k].start == step
            &&& k + 1 == frames.len() ==> pcm.len() - frames[k].end <= 1 && frames[k].end
                - frames[k].start <= step
            &&& frames[k].rms == double::double_of(
                rms(pcm.subrange(frames[k].start as int, frames[k].end as int)),
            )
        }),
{
    another_frame(pcm.len(), step, k as nat);
    another_frame(pcm.len(), step, (k + 1) as nat);
    another_frame(pcm.len(), step, 0);
    assert((k + 1) * step == k * step + step) by (nonlinear_arith);
    assert(k * step >= 0) by (nonlinear_arith)
        requires
            k >= 0,
    ;
    assert(0 * step == 0) by (nonlinear_arith);
}

/// Sound of less than one sample has no frames, and all other sound has some.
pub proof fn sound_has_frames(pcm: Seq<u8>, step: nat)
    requires
        step >= 2,
    ensures
        frames_of(pcm, step).len() > 0 <==> pcm.len() >= 2,
{
}

/// The noise is told by the frames at the start that begin before the given byte.
pub proof fn noise_comes_first(frames: Seq<RmsFrame>, bytes: nat, k: nat)
    requires
        k <= frames.len(),
    ensures
        k <= leading(frames, bytes, k) <= frames.len(),
        forall|j: int| k <= j < leading(frames, bytes, k) ==> (#[trigger] frames[j]).start < bytes,
        leading(frames, bytes, k) < frames.len() ==> frames[leading(
            frames,
            bytes,
            k,
        ) as int].start >= bytes,
    decreases frames.len() - k,
{
    if k < frames.len() && frames[k as int].start < bytes {
        noise_comes_first(frames, bytes, k + 1);
    }
}

/// The threshold is the mean loudness of the noise, multiplied, where that lies between the bounds.
/// The mean is over the frames that begin within the first second.
pub proof fn thresholds_follow_the_noise(
    frames: Seq<RmsFrame>,
    noise_bytes: nat,
    floor: Double,
    max_floor: Double,
    noise_multiplier: Double,
    n: nat,
    noise: nat,
)
    requires
        0 < n <= frames.len(),
        forall|j: int| 0 <= j < n ==> (#[trigger] frames[j]).start < noise_bytes,
        n < frames.len() ==> frames[n as int].start >= noise_bytes,
        double::product(
            double::quotient(sum_of_rms(frames.take(n as int)), double::rounded(n, 1)),
            noise_multiplier.value(),
        ) == Some(noise),
        floor.value() <= max_floor.value(),
    ensures
        ({
            let threshold = threshold_of(
                frames,
                noise_bytes,
                floor,
                max_floor,
                noise_multiplier,
            );
            &&& floor.value() <= noise <= max_floor.value() ==> threshold == noise
            &&& noise < floor.value() ==> threshold == floor.value()
            &&& noise > max_floor.value() ==> threshold == max_floor.value()
        }),
{
    noise_comes_first(frames, noise_bytes, 0);
    let m = leading(frames, noise_bytes, 0);
    if m < n {
        assert(frames[m as int].start < noise_bytes);
    } else if n < m {
        assert(frames[n as int].start < noise_bytes);
    }
}

/// Without noise the threshold is the lower bound.
pub proof fn without_noise_the_floor_counts(
    frames: Seq<RmsFrame>,
    noise_bytes: nat,
    floor: Double,
    max_floor: Double,
    noise_multiplier: Double,
)
    requires
        frames.len() == 0 || frames[0].start >= noise_bytes,
    ensures
        threshold_of(frames, noise_bytes, floor, max_floor, noise_multiplier) == floor.value(),
{
}

/// Each frame adds its loudness to the sum.
pub proof fn loudness_adds_up(frames: Seq<RmsFrame>, frame: RmsFrame)
    ensures
        sum_of_rms(Seq::<RmsFrame>::empty()) == 0,
        sum_of_rms(frames.push(frame)) == double::sum(sum_of_rms(frames), frame.rms.value()),
{
    assert(frames.push(frame).drop_last() =~= frames);
}

/// There is speech in some sound exactly if one of its frames of 20 milliseconds is at least as loud
/// as the threshold.
pub proof fn one_loud_frame_is_speech(frames: Seq<RmsFrame>, threshold: Double, k: int)
    requires
        0 <= k < frames.len(),
    ensures
        frames[k].rms.value() >= threshold.value() ==> some_loud_frame(frames, threshold),
        (forall|j: int|
            0 <= j < frames.len() ==> (#[trigger] frames[j]).rms.value() < threshold.value())
            ==> !some_loud_frame(frames, threshold),
{
}

/// Each sample adds its square to the sum, whatever its sign.
pub proof fn squares_add_up(s: Seq<int>, x: int)
    ensures
        sum_of_squares(Seq::<int>::empty()) == 0,
        sum_of_squares(s.push(x)) == double::sum(
            sum_of_squares(s),
            (x * x) as nat * double::power(double::ONE as nat),
        ),
        sum_of_squares(s.push(-x)) == sum_of_squares(s.push(x)),
{
    assert(s.push(x).drop_last() =~= s);
    assert(s.push(-x).drop_last() =~= s);
    assert((-x) * (-x) == x * x) by (nonlinear_arith);
}

/// Loudness is the root of the mean of the squares.
pub proof fn loudness_is_the_root_of_the_mean(pcm: Seq<u8>)
    ensures
        pcm.len() < 2 ==> rms(pcm) == 0,
        pcm.len() >= 2 ==> rms(pcm) == double::square_root(
            double::quotient(sum_of_squares(samples(pcm)), double::rounded(pcm.len() / 2, 1)),
        ),
{
}

/// A frame has the bytes of its length, but at least one sample; by default it lasts 20 milliseconds.
pub proof fn frames_have_their_length(sample_rate: u32, nanos: nat)
    ensures
        audio::pcm_bytes(sample_rate, nanos) >= 2 ==> frame_step(sample_rate, nanos)
            == audio::pcm_bytes(sample_rate, nanos),
        audio::pcm_bytes(sample_rate, nanos) < 2 ==> frame_step(sample_rate, nanos) == 2,
        default_step(sample_rate) == frame_step(sample_rate, 20_000_000),
{
}

/// By default the noise of the first second is multiplied by four, and the threshold lies between 700
/// and 1500.
pub proof fn the_first_second_tells_the_noise(sample_rate: u32, frames: Seq<RmsFrame>)
    ensures
        default_threshold(sample_rate, frames) == threshold_of(
            frames,
            audio::pcm_bytes(sample_rate, 1_000_000_000),
            Double { bits: 0x4085_e000_0000_0000 },
            Double { bits: 0x4097_7000_0000_0000 },
            Double { bits: 0x4010_0000_0000_0000 },
        ),
{
}

} // verus!
