//! Recorded sound: 16-bit samples of one channel, low byte first.

use vstd::prelude::*;
use vstd::string::*;

use crate::clock::Duration;
use crate::double;
use crate::text;

verus! {

/// Samples a second of a realtime session.
pub const SAMPLE_RATE: u32 = 24_000;

pub const CHANNELS: u16 = 1;

pub const SAMPLE_FORMAT: &'static str = "s16";

/// How much is read from the recorder at a time.
pub const CHUNK_BYTES: usize = 4_096;

/// Samples a second of a transcription.
pub const STT_SAMPLE_RATE: u32 = 16_000;

/// How long the recorder may take to produce sound, in milliseconds.
pub const STREAMING_CAPTURE_READY_TIMEOUT: u64 = 2_000;

/// How often it is asked for sound meanwhile, in milliseconds.
pub const STREAMING_CAPTURE_READY_POLL: u64 = 10;

/// The length of the header of a WAV file.
pub const WAV_HEADER_BYTES: u64 = 44;

/// Why sound could not be recorded or stored.
#[derive(Debug, Clone, Copy, PartialEq, Eq, Structural)]
pub enum AudioError {
    /// Another recording is under way.
    AlreadyActive,
    /// Nothing was recorded.
    NoAudio,
    /// The recording does not fit into a WAV file.
    TooLarge,
    /// The recorder produced nothing in time.
    CaptureTimedOut,
}

/// The text of an [`AudioError`].
pub open spec fn audio_error_text(error: AudioError) -> Seq<char> {
    match error {
        AudioError::AlreadyActive => "a recording is already active"@,
        AudioError::NoAudio => "recording stopped before any audio was captured"@,
        AudioError::TooLarge => "recording is too large for WAV"@,
        AudioError::CaptureTimedOut => "timed out waiting for pw-record to produce audio"@,
    }
}

impl AudioError {
    /// The text of this error.
    pub fn message(self) -> (r: &'static str)
        ensures
            r@ == audio_error_text(self),
    {
        match self {
            AudioError::AlreadyActive => "a recording is already active",
            AudioError::NoAudio => "recording stopped before any audio was captured",
            AudioError::TooLarge => "recording is too large for WAV",
            AudioError::CaptureTimedOut => "timed out waiting for pw-record to produce audio",
        }
    }
}

/// How many bytes a span of sound has: two for each sample that has begun in it. The samples are
/// counted in double precision.
pub open spec fn pcm_bytes(sample_rate: u32, nanos: nat) -> nat {
    2 * double::times_in(sample_rate, nanos)
}

/// How long a number of bytes of sound lasts, in whole nanoseconds.
pub open spec fn pcm_nanos(sample_rate: u32, bytes: nat) -> nat {
    bytes * 1_000_000_000 / (2 * sample_rate as nat)
}

/// How many bytes a span of sound has, however many that are.
pub fn pcm_bytes_wide(sample_rate: u32, duration: Duration) -> (r: u128)
    ensures
        r == pcm_bytes(sample_rate, duration@),
        r <= 0x1_0000_0000_0000_0000_0000_0000_0000,
{
    2 * double::count_in(sample_rate, duration.as_nanos())
}

/// How many bytes a span of sound has.
pub fn pcm_bytes_for_duration(sample_rate: u32, duration: Duration) -> (r: usize)
    requires
        pcm_bytes(sample_rate, duration@) <= usize::MAX,
    ensures
        r == pcm_bytes(sample_rate, duration@),
{
    pcm_bytes_wide(sample_rate, duration) as usize
}

/// How long a number of bytes of sound lasts.
pub fn pcm_duration(sample_rate: u32, bytes: usize) -> (r: Duration)
    requires
        sample_rate > 0,
    ensures
        r@ == pcm_nanos(sample_rate, bytes as nat),
{
    let scaled: u128 = bytes as u128 * 1_000_000_000;
    let rate: u128 = 2 * sample_rate as u128;
    let whole: u128 = scaled / rate;
    proof {
        assert(whole <= scaled) by (nonlinear_arith)
            requires
                rate >= 1,
                whole == scaled / rate,
        ;
    }
    let secs: u128 = whole / 1_000_000_000;
    let nanos: u128 = whole % 1_000_000_000;
    Duration::from_parts(secs as u64, nanos as u32)
}

/// The last `n` items of a sequence, or all if it has fewer.
pub open spec fn recent<A>(s: Seq<A>, n: nat) -> Seq<A> {
    if s.len() > n {
        s.skip(s.len() - n)
    } else {
        s
    }
}

/// Keeps only the last bytes.
pub fn keep_recent(pcm: &mut Vec<u8>, retain: usize)
    ensures
        final(pcm)@ == recent(old(pcm)@, retain as nat),
{
    let len: usize = pcm.len();
    if len > retain {
        let tail = pcm.split_off(len - retain);
        proof {
            assert(tail@ =~= old(pcm)@.skip(len - retain));
        }
        *pcm = tail;
    }
}

/// A copy of some bytes.
pub fn copy_bytes(bytes: &[u8], from: usize, to: usize) -> (r: Vec<u8>)
    requires
        from <= to <= bytes@.len(),
    ensures
        r@ == bytes@.subrange(from as int, to as int),
{
    let mut out: Vec<u8> = Vec::new();
    let mut i: usize = from;
    while i < to
        invariant
            from <= i <= to <= bytes@.len(),
            out@ == bytes@.subrange(from as int, i as int),
        decreases to - i,
    {
        out.push(bytes[i]);
        i += 1;
    }
    out
}

/// What a capture holds.
pub struct BufferView {
    /// The sound that is kept.
    pub pcm: Seq<u8>,
    /// How many bytes are kept while no session runs.
    pub retain: nat,
    /// How many sessions run.
    pub sessions: nat,
    /// How many bytes have arrived, as far as a machine number can tell.
    pub seen: nat,
}

/// Sound as it arrives: while no session runs, only the last of it is kept.
#[derive(Debug)]
pub struct StreamingPcmBuffer {
    pcm: Vec<u8>,
    idle_retain_bytes: usize,
    active_sessions: usize,
    bytes_seen: usize,
}

/// The sound of a capture at some point, and how much had arrived by then.
#[derive(Debug, Clone, PartialEq, Eq)]
pub struct PcmSnapshot {
    pub pcm: Vec<u8>,
    pub bytes_seen: usize,
}

/// A capture after it has been cut to what is kept while no session runs.
pub open spec fn cut_if_idle(buffer: BufferView) -> BufferView {
    if buffer.sessions == 0 {
        BufferView { pcm: recent(buffer.pcm, buffer.retain), ..buffer }
    } else {
        buffer
    }
}

/// A capture after more sound has arrived.
pub open spec fn appended(buffer: BufferView, chunk: Seq<u8>) -> BufferView {
    cut_if_idle(
        BufferView {
            pcm: buffer.pcm + chunk,
            seen: if buffer.seen + chunk.len() > usize::MAX {
                usize::MAX as nat
            } else {
                buffer.seen + chunk.len()
            },
            ..buffer
        },
    )
}

impl StreamingPcmBuffer {
    /// What the capture holds.
    pub closed spec fn view(&self) -> BufferView {
        BufferView {
            pcm: self.pcm@,
            retain: self.idle_retain_bytes as nat,
            sessions: self.active_sessions as nat,
            seen: self.bytes_seen as nat,
        }
    }

    /// An empty capture, which keeps a span of sound while no session runs.
    pub fn new(sample_rate: u32, idle_retain: Duration) -> (r: Self)
        requires
            pcm_bytes(sample_rate, idle_retain@) <= usize::MAX,
        ensures
            r@ == (BufferView {
                pcm: seq![],
                retain: pcm_bytes(sample_rate, idle_retain@),
                sessions: 0,
                seen: 0,
            }),
    {
        Self {
            pcm: Vec::new(),
            idle_retain_bytes: pcm_bytes_for_duration(sample_rate, idle_retain),
            active_sessions: 0,
            bytes_seen: 0,
        }
    }

    /// Adds sound that has arrived.
    pub fn append(&mut self, chunk: &[u8])
        ensures
            final(self)@ == appended(old(self)@, chunk@),
    {
        self.pcm.extend_from_slice(chunk);
        self.bytes_seen = self.bytes_seen.saturating_add(chunk.len());
        proof {
            assert(self.pcm@ =~= old(self).pcm@ + chunk@);
        }
        self.trim_if_idle();
    }

    /// Whether any sound has arrived.
    pub fn has_seen_audio(&self) -> (r: bool)
        ensures
            r == (self@.seen > 0),
    {
        self.bytes_seen > 0
    }

    /// How many bytes are kept.
    pub fn len(&self) -> (r: usize)
        ensures
            r == self@.pcm.len(),
    {
        self.pcm.len()
    }

    /// The sound that is kept, and how much has arrived.
    pub fn snapshot(&self) -> (r: PcmSnapshot)
        ensures
            r.pcm@ == self@.pcm,
            r.bytes_seen == self@.seen,
    {
        let pcm = copy_bytes(&self.pcm, 0, self.pcm.len());
        proof {
            assert(pcm@ =~= self.pcm@);
        }
        PcmSnapshot { pcm, bytes_seen: self.bytes_seen }
    }

    fn trim_if_idle(&mut self)
        ensures
            final(self)@ == cut_if_idle(old(self)@),
    {
        if self.active_sessions == 0 {
            keep_recent(&mut self.pcm, self.idle_retain_bytes);
        }
    }
}

/// Whether the recorder has begun to produce sound.
#[derive(Debug, Clone, Copy, PartialEq, Eq, Structural)]
pub enum CaptureWait {
    Ready,
    /// To be asked again after a number of milliseconds.
    PollAfter(u64),
    TimedOut,
}

/// Whether a capture is ready, after it was waited for some time.
pub fn capture_readiness(buffer: &StreamingPcmBuffer, waited: Duration) -> (r: CaptureWait)
    ensures
        r == if buffer@.seen > 0 {
            CaptureWait::Ready
        } else if waited@ >= STREAMING_CAPTURE_READY_TIMEOUT * 1_000_000 {
            CaptureWait::TimedOut
        } else {
            CaptureWait::PollAfter(STREAMING_CAPTURE_READY_POLL)
        },
{
    if buffer.has_seen_audio() {
        CaptureWait::Ready
    } else if waited.as_nanos() >= STREAMING_CAPTURE_READY_TIMEOUT as u128 * 1_000_000 {
        CaptureWait::TimedOut
    } else {
        CaptureWait::PollAfter(STREAMING_CAPTURE_READY_POLL)
    }
}

/// What a session has of the sound.
pub struct PcmSessionView {
    /// The sound from just before the session began.
    pub preroll: Seq<u8>,
    /// How much sound was kept when it began.
    pub available: nat,
    /// Whether it is over.
    pub finished: bool,
}

/// A recording within a capture: what arrived just before it, and what arrives during it.
#[derive(Debug)]
pub struct StreamingPcmSession {
    preroll_pcm: Vec<u8>,
    available_at_start_bytes: usize,
    finished: bool,
}

/// A capture after a session in it has ended.
pub open spec fn released(buffer: BufferView) -> BufferView {
    cut_if_idle(
        BufferView {
            sessions: if buffer.sessions == 0 {
                0
            } else {
                (buffer.sessions - 1) as nat
            },
            ..buffer
        },
    )
}

impl StreamingPcmSession {
    /// What the session has of the sound.
    pub closed spec fn view(&self) -> PcmSessionView {
        PcmSessionView {
            preroll: self.preroll_pcm@,
            available: self.available_at_start_bytes as nat,
            finished: self.finished,
        }
    }

    /// Begins a session, which keeps a span of the sound from before it. No other session may
    /// run.
    pub fn start(pcm: &mut StreamingPcmBuffer, sample_rate: u32, preroll: Duration) -> (r: Result<
        Self,
        AudioError,
    >)
        ensures
            match r {
                Ok(session) => old(pcm)@.sessions == 0 && session@ == (PcmSessionView {
                    preroll: recent(old(pcm)@.pcm, pcm_bytes(sample_rate, preroll@)),
                    available: old(pcm)@.pcm.len(),
                    finished: false,
                }) && final(pcm)@ == (BufferView { pcm: seq![], sessions: 1, ..old(pcm)@ }),
                Err(error) => error == AudioError::AlreadyActive && old(pcm)@.sessions > 0
                    && final(pcm)@ == old(pcm)@,
            },
    {
        if pcm.active_sessions > 0 {
            return Err(AudioError::AlreadyActive);
        }
        let preroll_bytes = pcm_bytes_wide(sample_rate, preroll);
        let available_at_start_bytes: usize = pcm.pcm.len();
        let from: usize = if (available_at_start_bytes as u128) > preroll_bytes {
            available_at_start_bytes - preroll_bytes as usize
        } else {
            0
        };
        let preroll_pcm = copy_bytes(&pcm.pcm, from, available_at_start_bytes);
        proof {
            assert(preroll_pcm@ =~= recent(old(pcm)@.pcm, pcm_bytes(sample_rate, preroll@)));
        }
        pcm.pcm.clear();
        pcm.active_sessions = 1;
        Ok(Self { preroll_pcm, available_at_start_bytes, finished: false })
    }

    /// The sound of the session so far, with what came before it.
    pub fn snapshot(&self, pcm: &StreamingPcmBuffer) -> (r: Vec<u8>)
        ensures
            r@ == self@.preroll + pcm@.pcm,
    {
        let mut snapshot = copy_bytes(&self.preroll_pcm, 0, self.preroll_pcm.len());
        snapshot.extend_from_slice(&pcm.pcm);
        proof {
            assert(snapshot@ =~= self.preroll_pcm@ + pcm.pcm@);
        }
        snapshot
    }

    /// The sound of the session so far, with at most a span of what came before it.
    pub fn snapshot_with_preroll_limit(
        &self,
        pcm: &StreamingPcmBuffer,
        sample_rate: u32,
        preroll_limit: Duration,
    ) -> (r: Vec<u8>)
        ensures
            r@ == recent(self@.preroll, pcm_bytes(sample_rate, preroll_limit@)) + pcm@.pcm,
    {
        let limit = pcm_bytes_wide(sample_rate, preroll_limit);
        let len: usize = self.preroll_pcm.len();
        let from: usize = if (len as u128) > limit {
            len - limit as usize
        } else {
            0
        };
        let mut snapshot = copy_bytes(&self.preroll_pcm, from, len);
        proof {
            assert(snapshot@ =~= recent(self@.preroll, pcm_bytes(sample_rate, preroll_limit@)));
        }
        let ghost head = snapshot@;
        snapshot.extend_from_slice(&pcm.pcm);
        proof {
            assert(snapshot@ =~= head + pcm.pcm@);
        }
        snapshot
    }

    /// The sound from just before the session.
    pub fn retained_preroll(&self) -> (r: &[u8])
        ensures
            r@ == self@.preroll,
    {
        self.preroll_pcm.as_slice()
    }

    /// How many bytes of sound from before the session are kept.
    pub fn retained_preroll_bytes(&self) -> (r: usize)
        ensures
            r == self@.preroll.len(),
    {
        self.preroll_pcm.len()
    }

    /// How much sound was kept when the session began.
    pub fn available_at_start_bytes(&self) -> (r: usize)
        ensures
            r == self@.available,
    {
        self.available_at_start_bytes
    }

    /// Ends the session. Ending it again does nothing.
    pub fn finish(&mut self, pcm: &mut StreamingPcmBuffer)
        ensures
            final(self)@ == (PcmSessionView { finished: true, ..old(self)@ }),
            final(pcm)@ == if old(self)@.finished {
                old(pcm)@
            } else {
                released(old(pcm)@)
            },
    {
        if self.finished {
            return;
        }
        self.finished = true;
        if pcm.active_sessions > 0 {
            pcm.active_sessions = pcm.active_sessions - 1;
        }
        pcm.trim_if_idle();
    }
}

/// The sound of a capture that was stopped; there must be some.
pub fn captured_audio(pcm: Vec<u8>) -> (r: Result<Vec<u8>, AudioError>)
    ensures
        r == if pcm@.len() == 0 {
            Err::<Vec<u8>, AudioError>(AudioError::NoAudio)
        } else {
            Ok(pcm)
        },
{
    if pcm.len() == 0 {
        Err(AudioError::NoAudio)
    } else {
        Ok(pcm)
    }
}

/// A capture after several pieces of sound have arrived.
pub open spec fn appended_all(buffer: BufferView, chunks: Seq<Seq<u8>>) -> BufferView
    decreases chunks.len(),
{
    if chunks.len() == 0 {
        buffer
    } else {
        appended(appended_all(buffer, chunks.drop_last()), chunks.last())
    }
}

/// All pieces of sound, one behind the other.
pub open spec fn all_sound(chunks: Seq<Seq<u8>>) -> Seq<u8>
    decreases chunks.len(),
{
    if chunks.len() == 0 {
        seq![]
    } else {
        all_sound(chunks.drop_last()) + chunks.last()
    }
}

/// While no session runs, a capture keeps no more than it was made for, and what it keeps is the
/// last that arrived.
pub proof fn idle_captures_are_bounded(buffer: BufferView, chunk: Seq<u8>)
    requires
        buffer.sessions == 0,
    ensures
        appended(buffer, chunk).pcm.len() <= buffer.retain,
        appended(buffer, chunk).pcm == recent(buffer.pcm + chunk, buffer.retain),
{
}

/// While a session runs, a capture loses nothing.
pub proof fn running_sessions_lose_nothing(buffer: BufferView, chunks: Seq<Seq<u8>>)
    requires
        buffer.sessions > 0,
    ensures
        appended_all(buffer, chunks).pcm == buffer.pcm + all_sound(chunks),
        appended_all(buffer, chunks).sessions == buffer.sessions,
    decreases chunks.len(),
{
    if chunks.len() == 0 {
        assert(buffer.pcm + all_sound(chunks) =~= buffer.pcm);
    } else {
        running_sessions_lose_nothing(buffer, chunks.drop_last());
        assert(buffer.pcm + all_sound(chunks.drop_last()) + chunks.last() =~= buffer.pcm
            + all_sound(chunks));
    }
}

/// A session sees the sound from just before it began and all that arrived since.
pub proof fn sessions_see_preroll_and_all_since(
    before: BufferView,
    preroll: nat,
    chunks: Seq<Seq<u8>>,
)
    requires
        before.sessions == 0,
    ensures
        ({
            let begun = BufferView { pcm: seq![], sessions: 1, ..before };
            recent(before.pcm, preroll) + appended_all(begun, chunks).pcm == recent(
                before.pcm,
                preroll,
            ) + all_sound(chunks)
        }),
{
    let begun = BufferView { pcm: seq![], sessions: 1, ..before };
    running_sessions_lose_nothing(begun, chunks);
    assert(begun.pcm + all_sound(chunks) =~= all_sound(chunks));
}

/// After the only session has ended, another can begin, and the capture is bounded again.
pub proof fn ended_sessions_make_room(buffer: BufferView)
    requires
        buffer.sessions == 1,
    ensures
        released(buffer).sessions == 0,
        released(buffer).pcm.len() <= buffer.retain,
{
}

/// A number below 2^16 as two bytes, the low one first.
pub open spec fn le16(n: int) -> Seq<u8> {
    seq![(n % 256) as u8, (n / 256 % 256) as u8]
}

/// A number below 2^32 as four bytes, the low one first.
pub open spec fn le32(n: int) -> Seq<u8> {
    seq![
        (n % 256) as u8,
        (n / 256 % 256) as u8,
        (n / 65_536 % 256) as u8,
        (n / 16_777_216 % 256) as u8,
    ]
}

/// The number that four bytes stand for, the low one first.
pub open spec fn from_le32(bytes: Seq<u8>) -> int {
    bytes[0] + 256 * bytes[1] + 65_536 * bytes[2] + 16_777_216 * bytes[3]
}

/// The header of a WAV file that holds 16-bit samples of one channel.
pub open spec fn wav_header(data_len: int, sample_rate: int) -> Seq<u8> {
    seq![0x52u8, 0x49, 0x46, 0x46] + le32(36 + data_len) + seq![0x57u8, 0x41, 0x56, 0x45]
        + seq![0x66u8, 0x6d, 0x74, 0x20] + le32(16) + le16(1) + le16(1) + le32(sample_rate) + le32(
        2 * sample_rate,
    ) + le16(2) + le16(16) + seq![0x64u8, 0x61, 0x74, 0x61] + le32(data_len)
}

/// A WAV file.
pub open spec fn wav_file(pcm: Seq<u8>, sample_rate: int) -> Seq<u8> {
    wav_header(pcm.len() as int, sample_rate) + pcm
}

fn push_le16(out: &mut Vec<u8>, n: u16)
    ensures
        final(out)@ == old(out)@ + le16(n as int),
{
    out.push((n % 256) as u8);
    out.push((n / 256) as u8);
    proof {
        assert(out@ =~= old(out)@ + le16(n as int));
    }
}

fn push_le32(out: &mut Vec<u8>, n: u32)
    ensures
        final(out)@ == old(out)@ + le32(n as int),
{
    out.push((n % 256) as u8);
    out.push((n / 256 % 256) as u8);
    out.push((n / 65_536 % 256) as u8);
    out.push((n / 16_777_216) as u8);
    proof {
        assert(out@ =~= old(out)@ + le32(n as int));
    }
}

fn push_tag(out: &mut Vec<u8>, a: u8, b: u8, c: u8, d: u8)
    ensures
        final(out)@ == old(out)@ + seq![a, b, c, d],
{
    out.push(a);
    out.push(b);
    out.push(c);
    out.push(d);
    proof {
        assert(out@ =~= old(out)@ + seq![a, b, c, d]);
    }
}

/// A WAV file with the given sound. The lengths in its header must fit, unless the sound is too
/// long for any WAV file.
pub fn pcm_wav(pcm: &[u8], sample_rate: u32) -> (r: Result<Vec<u8>, AudioError>)
    requires
        pcm@.len() <= u32::MAX ==> pcm@.len() + 36 <= u32::MAX && 2 * sample_rate <= u32::MAX,
    ensures
        match r {
            Ok(wav) => pcm@.len() <= u32::MAX && wav@ == wav_file(pcm@, sample_rate as int),
            Err(error) => error == AudioError::TooLarge && pcm@.len() > u32::MAX,
        },
{
    let len: usize = pcm.len();
    if len as u128 > 0xffff_ffffu128 {
        return Err(AudioError::TooLarge);
    }
    let data_len: u32 = len as u32;
    let mut wav: Vec<u8> = Vec::new();
    push_tag(&mut wav, 0x52, 0x49, 0x46, 0x46);
    push_le32(&mut wav, 36 + data_len);
    push_tag(&mut wav, 0x57, 0x41, 0x56, 0x45);
    push_tag(&mut wav, 0x66, 0x6d, 0x74, 0x20);
    push_le32(&mut wav, 16);
    push_le16(&mut wav, 1);
    push_le16(&mut wav, CHANNELS);
    push_le32(&mut wav, sample_rate);
    push_le32(&mut wav, 2 * sample_rate);
    push_le16(&mut wav, 2);
    push_le16(&mut wav, 16);
    push_tag(&mut wav, 0x64, 0x61, 0x74, 0x61);
    push_le32(&mut wav, data_len);
    proof {
        assert(wav@ =~= wav_header(pcm@.len() as int, sample_rate as int));
    }
    wav.extend_from_slice(pcm);
    proof {
        assert(wav@ =~= wav_file(pcm@, sample_rate as int));
    }
    Ok(wav)
}

/// Four bytes give back the number that they were made of.
proof fn le32_round_trip(n: int)
    requires
        0 <= n <= u32::MAX,
    ensures
        from_le32(le32(n)) == n,
{
    assert(n == n % 256 + 256 * (n / 256));
    assert(n / 256 == n / 256 % 256 + 256 * (n / 65_536));
    assert(n / 65_536 == n / 65_536 % 256 + 256 * (n / 16_777_216));
}

/// What was put into a WAV file can be read back from it: the sound after its header, and in the
/// header the length and the rate.
pub proof fn wav_files_give_back_the_sound(pcm: Seq<u8>, sample_rate: int)
    requires
        pcm.len() + 36 <= u32::MAX,
        0 <= 2 * sample_rate <= u32::MAX,
    ensures
        wav_file(pcm, sample_rate).len() == WAV_HEADER_BYTES + pcm.len(),
        wav_file(pcm, sample_rate).skip(44) == pcm,
        from_le32(wav_file(pcm, sample_rate).subrange(4, 8)) == wav_file(pcm, sample_rate).len()
            - 8,
        from_le32(wav_file(pcm, sample_rate).subrange(24, 28)) == sample_rate,
        from_le32(wav_file(pcm, sample_rate).subrange(40, 44)) == pcm.len(),
{
    let wav = wav_file(pcm, sample_rate);
    let len = pcm.len() as int;
    assert(wav.skip(44) =~= pcm);
    assert(wav.subrange(4, 8) =~= le32(36 + len));
    assert(wav.subrange(24, 28) =~= le32(sample_rate));
    assert(wav.subrange(40, 44) =~= le32(len));
    le32_round_trip(36 + len);
    le32_round_trip(sample_rate);
    le32_round_trip(len);
}

/// How many samples a recording of the given length has: at least one, and as many as a machine
/// number can tell.
pub open spec fn samples_in(nanos: nat, sample_rate: u32) -> nat {
    let whole = nanos / 1_000_000_000 * sample_rate as nat;
    let capped = if whole > u64::MAX {
        u64::MAX as nat
    } else {
        whole
    };
    let sum = capped + nanos % 1_000_000_000 * sample_rate as nat / 1_000_000_000;
    if sum > u64::MAX {
        u64::MAX as nat
    } else if sum < 1 {
        1
    } else {
        sum
    }
}

/// How many samples a recording of the given length has.
pub fn sample_count(duration: Duration, sample_rate: u32) -> (r: u64)
    ensures
        r == samples_in(duration@, sample_rate),
{
    let nanos = duration.as_nanos();
    let secs: u128 = nanos / 1_000_000_000;
    let rest: u128 = nanos % 1_000_000_000;
    let rate: u128 = sample_rate as u128;
    proof {
        assert(secs * rate <= 0xffff_ffff_ffff_ffff * 0xffff_ffff) by (nonlinear_arith)
            requires
                secs <= 0xffff_ffff_ffff_ffff,
                rate <= 0xffff_ffff,
        ;
        assert(rest * rate <= 1_000_000_000 * 0xffff_ffff) by (nonlinear_arith)
            requires
                rest <= 1_000_000_000,
                rate <= 0xffff_ffff,
        ;
    }
    let max: u128 = 0xffff_ffff_ffff_ffff;
    let whole: u128 = secs * rate;
    let capped: u128 = if whole > max {
        max
    } else {
        whole
    };
    let sum: u128 = capped + rest * rate / 1_000_000_000;
    if sum > max {
        0xffff_ffff_ffff_ffff
    } else if sum < 1 {
        1
    } else {
        sum as u64
    }
}

/// Whether a recording is taken although the recorder reported a failure: a file that holds more
/// than a header is.
pub fn recording_is_usable(recorder_succeeded: bool, file_len: Option<u64>) -> (r: bool)
    ensures
        r == (recorder_succeeded || (file_len is Some && file_len->0 > WAV_HEADER_BYTES)),
{
    recorder_succeeded || match file_len {
        Some(len) => len > WAV_HEADER_BYTES,
        None => false,
    }
}

/// How much longer a capture runs that has run some time; nothing once its time is over.
pub fn capture_remaining_nanos(elapsed: Duration, limit: Duration) -> (r: Option<u128>)
    ensures
        r == if elapsed@ >= limit@ {
            None
        } else {
            Some((limit@ - elapsed@) as u128)
        },
{
    let elapsed = elapsed.as_nanos();
    let limit = limit.as_nanos();
    if elapsed >= limit {
        None
    } else {
        Some(limit - elapsed)
    }
}

/// The arguments that make `pw-record` write raw sound to its output.
pub open spec fn raw_capture(sample_rate: u32) -> Seq<Seq<char>> {
    seq![
        "--raw"@,
        "--rate"@,
        text::decimal(sample_rate as nat),
        "--channels"@,
        text::decimal(CHANNELS as nat),
        "--format"@,
        SAMPLE_FORMAT@,
        "-"@,
    ]
}

/// The arguments that make `pw-record` write raw sound to its output.
pub fn raw_capture_args(sample_rate: u32) -> (r: Vec<String>)
    ensures
        text::views(r@) == raw_capture(sample_rate),
{
    let args: Vec<String> = vec![
        "--raw".to_owned(),
        "--rate".to_owned(),
        text::decimal_text(sample_rate as u128),
        "--channels".to_owned(),
        text::decimal_text(CHANNELS as u128),
        "--format".to_owned(),
        SAMPLE_FORMAT.to_owned(),
        "-".to_owned(),
    ];
    proof {
        assert(text::views(args@) =~= raw_capture(sample_rate));
    }
    args
}

/// The arguments that make `pw-record` write a number of samples to a file.
pub open spec fn file_capture(sample_rate: u32, samples: u64, path: Seq<char>) -> Seq<Seq<char>> {
    seq![
        "--rate"@,
        text::decimal(sample_rate as nat),
        "--channels"@,
        "1"@,
        "--format"@,
        "s16"@,
        "--sample-count"@,
        text::decimal(samples as nat),
        path,
    ]
}

/// The arguments that make `pw-record` write a number of samples to a file.
pub fn file_capture_args(sample_rate: u32, samples: u64, path: &str) -> (r: Vec<String>)
    ensures
        text::views(r@) == file_capture(sample_rate, samples, path@),
{
    let args: Vec<String> = vec![
        "--rate".to_owned(),
        text::decimal_text(sample_rate as u128),
        "--channels".to_owned(),
        "1".to_owned(),
        "--format".to_owned(),
        "s16".to_owned(),
        "--sample-count".to_owned(),
        text::decimal_text(samples as u128),
        path.to_owned(),
    ];
    proof {
        assert(text::views(args@) =~= file_capture(sample_rate, samples, path@));
    }
    args
}

/// The arguments that make `ffmpeg` write raw sound from its input to an MP3 file.
pub open spec fn mp3_encoder(sample_rate: u32, path: Seq<char>) -> Seq<Seq<char>> {
    seq![
        "-hide_banner"@,
        "-loglevel"@,
        "error"@,
        "-f"@,
        "s16le"@,
        "-ar"@,
        text::decimal(sample_rate as nat),
        "-ac"@,
        text::decimal(CHANNELS as nat),
        "-i"@,
        "pipe:0"@,
        "-codec:a"@,
        "libmp3lame"@,
        "-q:a"@,
        "2"@,
        "-y"@,
        path,
    ]
}

/// The arguments that make `ffmpeg` write raw sound from its input to an MP3 file.
pub fn mp3_encoder_args(sample_rate: u32, path: &str) -> (r: Vec<String>)
    ensures
        text::views(r@) == mp3_encoder(sample_rate, path@),
{
    let args: Vec<String> = vec![
        "-hide_banner".to_owned(),
        "-loglevel".to_owned(),
        "error".to_owned(),
        "-f".to_owned(),
        "s16le".to_owned(),
        "-ar".to_owned(),
        text::decimal_text(sample_rate as u128),
        "-ac".to_owned(),
        text::decimal_text(CHANNELS as u128),
        "-i".to_owned(),
        "pipe:0".to_owned(),
        "-codec:a".to_owned(),
        "libmp3lame".to_owned(),
        "-q:a".to_owned(),
        "2".to_owned(),
        "-y".to_owned(),
        path.to_owned(),
    ];
    proof {
        assert(text::views(args@) =~= mp3_encoder(sample_rate, path@));
    }
    args
}

/// The recent part of a sequence is its end: all of it if it is short enough, else just as many items
/// as are wanted.
pub proof fn the_recent_part_is_the_end<A>(s: Seq<A>, n: nat)
    ensures
        s.len() <= n ==> recent(s, n) == s,
        s.len() > n ==> recent(s, n).len() == n && s.take(s.len() - n) + recent(s, n) == s,
{
    if s.len() > n {
        assert(s.take(s.len() - n) + s.skip(s.len() - n) =~= s);
    }
}

/// Sound that arrives is put behind what is there, and counted. While no session runs, the oldest is
/// given up for it, beyond what is kept.
pub proof fn sound_is_put_behind_the_other(buffer: BufferView, chunk: Seq<u8>)
    ensures
        appended(buffer, chunk).sessions == buffer.sessions,
        appended(buffer, chunk).retain == buffer.retain,
        buffer.seen + chunk.len() <= usize::MAX ==> appended(buffer, chunk).seen == buffer.seen
            + chunk.len(),
        buffer.sessions > 0 || buffer.pcm.len() + chunk.len() <= buffer.retain ==> appended(
            buffer,
            chunk,
        ).pcm == buffer.pcm + chunk,
        buffer.sessions == 0 && buffer.pcm.len() + chunk.len() > buffer.retain ==> appended(
            buffer,
            chunk,
        ).pcm == (buffer.pcm + chunk).subrange(
            buffer.pcm.len() + chunk.len() - buffer.retain,
            (buffer.pcm.len() + chunk.len()) as int,
        ),
{
    let all = buffer.pcm + chunk;
    if buffer.sessions == 0 && all.len() > buffer.retain {
        assert(all.skip(all.len() - buffer.retain) =~= all.subrange(
            all.len() - buffer.retain,
            all.len() as int,
        ));
    }
}

/// A session that ends is counted off. The sound of the capture is cut to its end only once no other
/// runs.
pub proof fn ended_sessions_are_counted_off(buffer: BufferView)
    requires
        buffer.sessions > 0,
    ensures
        released(buffer).sessions == buffer.sessions - 1,
        released(buffer).seen == buffer.seen,
        released(buffer).retain == buffer.retain,
        buffer.sessions > 1 || buffer.pcm.len() <= buffer.retain ==> released(buffer).pcm
            == buffer.pcm,
        buffer.sessions == 1 && buffer.pcm.len() > buffer.retain ==> released(buffer).pcm
            == buffer.pcm.skip(buffer.pcm.len() - buffer.retain),
{
}

/// Whole seconds of sound have just two bytes for each sample.
pub proof fn whole_seconds_are_exact(sample_rate: u32, secs: nat)
    requires
        secs * sample_rate < 0x20_0000_0000_0000,
        secs < 0x20_0000_0000_0000,
    ensures
        pcm_bytes(sample_rate, secs * 1_000_000_000) == 2 * secs * sample_rate,
{
    double::whole_spans_are_exact(sample_rate, secs);
    assert(2 * (secs * sample_rate) == 2 * secs * sample_rate) by (nonlinear_arith);
}

/// Any span of sound has whole samples, and their number is the exact one but for one.
pub proof fn spans_have_their_samples(sample_rate: u32, nanos: nat)
    requires
        nanos * sample_rate <= 0x1_0000_0000_0000 * 1_000_000_000,
        nanos < 0x1000_0000_0000 * 1_000_000_000,
    ensures
        pcm_bytes(sample_rate, nanos) % 2 == 0,
        pcm_bytes(sample_rate, nanos) / 2 * 1_000_000_000 <= nanos * sample_rate + 2_000_000_000,
        nanos * sample_rate <= pcm_bytes(sample_rate, nanos) / 2 * 1_000_000_000 + 1_000_000_000,
{
    double::counts_are_right_but_for_one(sample_rate, nanos);
}

/// Bytes of sound last as long as their samples take at the rate, in whole nanoseconds.
pub proof fn sound_lasts_as_long_as_its_samples(sample_rate: u32, bytes: nat)
    requires
        sample_rate > 0,
    ensures
        pcm_nanos(sample_rate, bytes) * (2 * sample_rate) <= bytes * 1_000_000_000,
        bytes * 1_000_000_000 < (pcm_nanos(sample_rate, bytes) + 1) * (2 * sample_rate),
{
    let all = bytes * 1_000_000_000;
    let rate = 2 * sample_rate as nat;
    let q = all / rate;
    vstd::arithmetic::div_mod::lemma_fundamental_div_mod(all as int, rate as int);
    assert(q * rate == rate * q) by (nonlinear_arith);
    assert((q + 1) * rate == rate * q + rate) by (nonlinear_arith);
}

/// The header of a WAV file says that it holds samples of 16 bits of one channel, and how many bytes
/// a second takes.
pub proof fn wav_files_say_what_they_hold(pcm: Seq<u8>, sample_rate: int)
    requires
        pcm.len() + 36 <= u32::MAX,
        0 <= 2 * sample_rate <= u32::MAX,
    ensures
        ({
            let wav = wav_file(pcm, sample_rate);
            &&& wav.subrange(0, 4) == seq![0x52u8, 0x49, 0x46, 0x46]
            &&& wav.subrange(8, 16) == seq![0x57u8, 0x41, 0x56, 0x45, 0x66, 0x6d, 0x74, 0x20]
            &&& wav.subrange(16, 24) == seq![16u8, 0, 0, 0, 1, 0, 1, 0]
            &&& from_le32(wav.subrange(28, 32)) == 2 * sample_rate
            &&& wav.subrange(32, 40) == seq![2u8, 0, 16, 0, 0x64, 0x61, 0x74, 0x61]
        }),
{
    let wav = wav_file(pcm, sample_rate);
    assert(wav.subrange(0, 4) =~= seq![0x52u8, 0x49, 0x46, 0x46]);
    assert(wav.subrange(8, 16) =~= seq![0x57u8, 0x41, 0x56, 0x45, 0x66, 0x6d, 0x74, 0x20]);
    assert(wav.subrange(16, 24) =~= seq![16u8, 0, 0, 0, 1, 0, 1, 0]);
    assert(wav.subrange(28, 32) =~= le32(2 * sample_rate));
    le32_round_trip(2 * sample_rate);
    assert(wav.subrange(32, 40) =~= seq![2u8, 0, 16, 0, 0x64, 0x61, 0x74, 0x61]);
}

/// A recording has at least one sample, and as many as its length takes at the rate, in whole ones.
pub proof fn recordings_have_their_samples(nanos: nat, sample_rate: u32)
    requires
        nanos * sample_rate < 0x1_0000_0000 * 1_000_000_000,
    ensures
        samples_in(nanos, sample_rate) >= 1,
        nanos * sample_rate >= 1_000_000_000 ==> samples_in(nanos, sample_rate) == nanos
            * sample_rate / 1_000_000_000,
{
    let secs = nanos / 1_000_000_000;
    let rest = nanos % 1_000_000_000;
    let rate = sample_rate as nat;
    let all = nanos * rate;
    assert(all == 1_000_000_000 * (secs * rate) + rest * rate) by (nonlinear_arith)
        requires
            nanos == 1_000_000_000 * secs + rest,
            all == nanos * rate,
    ;
    assert(secs * rate >= 0 && rest * rate >= 0) by (nonlinear_arith);
}

/// The recorder is told the rate, one channel and samples of 16 bits, and to write to its output.
pub proof fn recorders_are_told_the_rate(sample_rate: u32)
    ensures
        ({
            let args = raw_capture(sample_rate);
            &&& args.len() == 8
            &&& args[0] == "--raw"@
            &&& args[1] == "--rate"@
            &&& args[2] == text::decimal(sample_rate as nat)
            &&& args[3] == "--channels"@
            &&& args[4] == text::decimal(1)
            &&& args[5] == "--format"@
            &&& args[6] == "s16"@
            &&& args[7] == "-"@
        }),
{
}

/// A recorder that writes to a file is told the rate, how many samples to write, and the file.
pub proof fn recorders_are_told_the_samples(sample_rate: u32, samples: u64, path: Seq<char>)
    ensures
        ({
            let args = file_capture(sample_rate, samples, path);
            &&& args.len() == 9
            &&& args[0] == "--rate"@
            &&& args[1] == text::decimal(sample_rate as nat)
            &&& args[6] == "--sample-count"@
            &&& args[7] == text::decimal(samples as nat)
            &&& args[8] == path
        }),
{
}

/// The encoder is told the rate of its input, and the file that it writes comes last.
pub proof fn encoders_are_told_rate_and_file(sample_rate: u32, path: Seq<char>)
    ensures
        ({
            let args = mp3_encoder(sample_rate, path);
            &&& args.len() == 17
            &&& args[3] == "-f"@
            &&& args[4] == "s16le"@
            &&& args[5] == "-ar"@
            &&& args[6] == text::decimal(sample_rate as nat)
            &&& args[7] == "-ac"@
            &&& args[8] == text::decimal(1)
            &&& args[9] == "-i"@
            &&& args[10] == "pipe:0"@
            &&& args[16] == path
        }),
{
}

} // verus!
