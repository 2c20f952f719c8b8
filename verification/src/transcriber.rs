//! The two ways to transcribe a dictation: over a realtime session, or all at once at its end.

use vstd::prelude::*;
use vstd::string::*;

use crate::audio;
use crate::audio::{pcm_bytes_wide, pcm_wav, AudioError, SAMPLE_RATE, STT_SAMPLE_RATE};
use crate::clock::Duration;
use crate::stt::{ResponseFormat, TranscribeOptions};
use crate::text;
use crate::trimming;
use crate::trimming::{build_final_transcription_audio, pcm_with_leading_silence, TranscriptionAudio};

verus! {

/// How much silence warms the server up, in milliseconds.
pub const TRANSCRIBER_WARMUP_DURATION: u64 = 500;

/// How much sound before the hotkey belongs to a dictation unless told otherwise, in milliseconds.
pub const TRANSCRIBER_PREROLL: u64 = 750;

/// How much silence goes before a recording unless told otherwise, in milliseconds.
pub const TRANSCRIBER_LEADING_SILENCE: u64 = 250;

/// Transcribes over a realtime session.
#[derive(Debug, Clone, PartialEq, Eq)]
pub struct RealtimeTranscriber {
    pub base_url: String,
    pub model: String,
    pub language: Option<String>,
    pub record_dir: Option<String>,
    pub preroll: Duration,
    pub sample_rate: u32,
    /// Whether the server is asked for a final transcript.
    pub final_pass: bool,
}

impl RealtimeTranscriber {
    /// A transcriber that asks for a final transcript.
    pub fn new(base_url: String, model: String, language: Option<String>) -> (r: Self)
        ensures
            r.base_url == base_url,
            r.model == model,
            r.language == language,
            r.record_dir is None,
            r.preroll@ == TRANSCRIBER_PREROLL * 1_000_000,
            r.sample_rate == SAMPLE_RATE,
            r.final_pass,
    {
        Self {
            base_url,
            model,
            language,
            record_dir: None,
            preroll: Duration::from_millis(TRANSCRIBER_PREROLL),
            sample_rate: SAMPLE_RATE,
            final_pass: true,
        }
    }

    /// The transcriber, told how much sound before the hotkey belongs to a dictation.
    pub fn with_preroll(self, preroll: Duration) -> (r: Self)
        ensures
            r == (Self { preroll, ..self }),
    {
        let mut transcriber = self;
        transcriber.preroll = preroll;
        transcriber
    }

    /// The transcriber, told whether to ask for a final transcript.
    pub fn with_final_pass(self, final_pass: bool) -> (r: Self)
        ensures
            r == (Self { final_pass, ..self }),
    {
        let mut transcriber = self;
        transcriber.final_pass = final_pass;
        transcriber
    }

    /// The transcriber, told where to keep recordings.
    pub fn with_record_dir(self, record_dir: Option<String>) -> (r: Self)
        ensures
            r == (Self { record_dir, ..self }),
    {
        let mut transcriber = self;
        transcriber.record_dir = record_dir;
        transcriber
    }
}

/// Transcribes a dictation at its end.
#[derive(Debug, Clone, PartialEq, Eq)]
pub struct FinalHttpTranscriber {
    pub base_url: String,
    pub options: TranscribeOptions,
    pub transcript_dir: Option<String>,
    pub record_dir: Option<String>,
    /// How much silence goes before the recording.
    pub leading_silence: Duration,
    pub preroll: Duration,
    pub sample_rate: u32,
}

/// What is done with the recording of a dictation.
#[derive(Debug, Clone)]
pub enum FinalRequest {
    /// It holds no speech: the transcript is empty.
    NoSpeech(TranscriptionAudio),
    /// The WAV file is to be transcribed.
    Transcribe { audio: TranscriptionAudio, wav: Vec<u8> },
}

/// The WAV file for sound with silence before it.
pub open spec fn padded_wav(sample_rate: u32, silence: nat, pcm: Seq<u8>) -> Seq<u8> {
    audio::wav_file(
        Seq::new(audio::pcm_bytes(sample_rate, silence), |i: int| 0u8) + pcm,
        sample_rate as int,
    )
}

/// Whether the WAV file for a number of bytes of sound with silence before it can be written.
pub open spec fn fits_wav(sample_rate: u32, silence: nat, len: nat) -> bool {
    audio::pcm_bytes(sample_rate, silence) + len + 36 <= u32::MAX
}

/// The WAV file for sound with silence before it.
fn wav_with_silence(sample_rate: u32, silence: Duration, pcm: &[u8]) -> (r: Result<
    Vec<u8>,
    AudioError,
>)
    requires
        2 * sample_rate <= u32::MAX,
    ensures
        match r {
            Ok(wav) => fits_wav(sample_rate, silence@, pcm@.len()) && wav@ == padded_wav(
                sample_rate,
                silence@,
                pcm@,
            ),
            Err(error) => !fits_wav(sample_rate, silence@, pcm@.len()) && error
                == AudioError::TooLarge,
        },
{
    let bytes: u128 = pcm_bytes_wide(sample_rate, silence);
    if bytes + pcm.len() as u128 + 36 > 0xffff_ffff {
        return Err(AudioError::TooLarge);
    }
    let padded = pcm_with_leading_silence(sample_rate, silence, pcm);
    pcm_wav(padded.as_slice(), sample_rate)
}

impl FinalHttpTranscriber {
    /// A transcriber that keeps nothing.
    pub fn new(base_url: String, options: TranscribeOptions) -> (r: Self)
        ensures
            r.base_url == base_url,
            r.options == options,
            r.transcript_dir is None,
            r.record_dir is None,
            r.leading_silence@ == TRANSCRIBER_LEADING_SILENCE * 1_000_000,
            r.preroll@ == TRANSCRIBER_PREROLL * 1_000_000,
            r.sample_rate == STT_SAMPLE_RATE,
    {
        Self {
            base_url,
            options,
            transcript_dir: None,
            record_dir: None,
            leading_silence: Duration::from_millis(TRANSCRIBER_LEADING_SILENCE),
            preroll: Duration::from_millis(TRANSCRIBER_PREROLL),
            sample_rate: STT_SAMPLE_RATE,
        }
    }

    /// The transcriber, told how much silence goes before a recording.
    pub fn with_leading_silence(self, duration: Duration) -> (r: Self)
        ensures
            r == (Self { leading_silence: duration, ..self }),
    {
        let mut transcriber = self;
        transcriber.leading_silence = duration;
        transcriber
    }

    /// The transcriber, told how much sound before the hotkey belongs to a dictation.
    pub fn with_preroll(self, duration: Duration) -> (r: Self)
        ensures
            r == (Self { preroll: duration, ..self }),
    {
        let mut transcriber = self;
        transcriber.preroll = duration;
        transcriber
    }

    /// The transcriber, told where to keep transcripts.
    pub fn with_transcript_dir(self, transcript_dir: Option<String>) -> (r: Self)
        ensures
            r == (Self { transcript_dir, ..self }),
    {
        let mut transcriber = self;
        transcriber.transcript_dir = transcript_dir;
        transcriber
    }

    /// The transcriber, told where to keep recordings.
    pub fn with_record_dir(self, record_dir: Option<String>) -> (r: Self)
        ensures
            r == (Self { record_dir, ..self }),
    {
        let mut transcriber = self;
        transcriber.record_dir = record_dir;
        transcriber
    }

    /// What is done with the recording of a dictation, which must hold some sound. Only the part
    /// of it with speech is transcribed.
    pub fn final_request(&self, raw_pcm: &[u8]) -> (r: Result<FinalRequest, AudioError>)
        requires
            0 < self.sample_rate,
            2 * self.sample_rate <= u32::MAX,
        ensures
            ({
                let kept = trimming::kept_sound(self.sample_rate, raw_pcm@);
                let silence = self.leading_silence@;
                match r {
                    Ok(FinalRequest::NoSpeech(audio)) => raw_pcm@.len() > 0 && kept.len() == 0
                        && trimming::describes(self.sample_rate, raw_pcm@, audio),
                    Ok(FinalRequest::Transcribe { audio, wav }) => {
                        &&& raw_pcm@.len() > 0
                        &&& kept.len() > 0
                        &&& trimming::describes(self.sample_rate, raw_pcm@, audio)
                        &&& fits_wav(self.sample_rate, silence, kept.len())
                        &&& wav@ == padded_wav(self.sample_rate, silence, kept)
                    },
                    Err(AudioError::NoAudio) => raw_pcm@.len() == 0,
                    Err(AudioError::TooLarge) => raw_pcm@.len() > 0 && kept.len() > 0 && !fits_wav(
                        self.sample_rate,
                        silence,
                        kept.len(),
                    ),
                    Err(_) => false,
                }
            }),
    {
        if raw_pcm.len() == 0 {
            return Err(AudioError::NoAudio);
        }
        let audio = build_final_transcription_audio(self.sample_rate, raw_pcm);
        if audio.pcm.len() == 0 {
            return Ok(FinalRequest::NoSpeech(audio));
        }
        match wav_with_silence(self.sample_rate, self.leading_silence, audio.pcm.as_slice()) {
            Ok(wav) => Ok(FinalRequest::Transcribe { audio, wav }),
            Err(error) => Err(error),
        }
    }

    /// The WAV file that warms the server up: a short silence.
    pub fn warmup_wav(&self) -> (r: Result<Vec<u8>, AudioError>)
        requires
            2 * self.sample_rate <= u32::MAX,
        ensures
            ({
                let silence = (TRANSCRIBER_WARMUP_DURATION * 1_000_000) as nat;
                match r {
                    Ok(wav) => fits_wav(self.sample_rate, silence, 0) && wav@ == padded_wav(
                        self.sample_rate,
                        silence,
                        seq![],
                    ),
                    Err(error) => !fits_wav(self.sample_rate, silence, 0) && error
                        == AudioError::TooLarge,
                }
            }),
    {
        let nothing: Vec<u8> = Vec::new();
        proof {
            assert(nothing@ =~= seq![]);
        }
        wav_with_silence(
            self.sample_rate,
            Duration::from_millis(TRANSCRIBER_WARMUP_DURATION),
            nothing.as_slice(),
        )
    }

    /// How the server is warmed up: as it will be asked, but for one answer.
    pub fn warmup_options(&self) -> (r: TranscribeOptions)
        ensures
            r.model@ == self.options.model@,
            r.response_format == self.options.response_format,
            text::opt_view(r.language) == text::opt_view(self.options.language),
            text::opt_view(r.prompt) == text::opt_view(self.options.prompt),
            text::opt_view(r.hotwords) == text::opt_view(self.options.hotwords),
            r.without_timestamps == self.options.without_timestamps,
            !r.stream,
    {
        TranscribeOptions {
            model: self.options.model.clone(),
            response_format: self.options.response_format,
            language: text::clone_optional(&self.options.language),
            prompt: text::clone_optional(&self.options.prompt),
            hotwords: text::clone_optional(&self.options.hotwords),
            without_timestamps: self.options.without_timestamps,
            stream: false,
        }
    }
}

/// How dictations are transcribed: as plain text without timestamps.
pub fn dictation_options(model: String, language: Option<String>, stream: bool) -> (r:
    TranscribeOptions)
    ensures
        r.model == model,
        r.response_format == ResponseFormat::Text,
        r.language == language,
        r.prompt is None,
        r.hotwords is None,
        r.without_timestamps,
        r.stream == stream,
{
    TranscribeOptions {
        model,
        response_format: ResponseFormat::Text,
        language,
        prompt: None,
        hotwords: None,
        without_timestamps: true,
        stream,
    }
}

/// The name of a file that a process keeps or needs for a moment; `counter` tells its files apart.
pub open spec fn session_file(
    label: Seq<char>,
    pid: u32,
    counter: u64,
    extension: Seq<char>,
) -> Seq<char> {
    "speaches-companion-"@ + label + "-"@ + text::decimal(pid as nat) + "-"@ + text::decimal(
        counter as nat,
    ) + extension
}

fn session_file_name(label: &str, pid: u32, counter: u64, extension: &str) -> (r: String)
    ensures
        r@ == session_file(label@, pid, counter, extension@),
{
    let mut out = "speaches-companion-".to_owned();
    out.append(label);
    out.append("-");
    out.append(text::decimal_text(pid as u128).as_str());
    out.append("-");
    out.append(text::decimal_text(counter as u128).as_str());
    out.append(extension);
    out
}

/// The name of the file for a transcript.
pub fn transcript_file_name(label: &str, pid: u32, counter: u64) -> (r: String)
    ensures
        r@ == session_file(label@, pid, counter, ".txt"@),
{
    session_file_name(label, pid, counter, ".txt")
}

/// The name of the file for a recording that is kept.
pub fn recording_file_name(label: &str, pid: u32, counter: u64) -> (r: String)
    ensures
        r@ == session_file(label@, pid, counter, ".mp3"@),
{
    session_file_name(label, pid, counter, ".mp3")
}

/// The name of the file for a recording that is sent.
pub fn audio_file_name(label: &str, pid: u32, counter: u64) -> (r: String)
    ensures
        r@ == session_file(label@, pid, counter, ".wav"@),
{
    session_file_name(label, pid, counter, ".wav")
}

/// A WAV file with silence before its sound holds just that behind its header: zeros as long as the
/// silence is, and then the sound, unchanged.
pub proof fn silence_comes_before_the_sound(sample_rate: u32, silence: nat, pcm: Seq<u8>)
    requires
        2 * sample_rate <= u32::MAX,
        fits_wav(sample_rate, silence, pcm.len()),
    ensures
        ({
            let quiet = audio::pcm_bytes(sample_rate, silence);
            let sound = padded_wav(sample_rate, silence, pcm).skip(44);
            &&& padded_wav(sample_rate, silence, pcm).len() == 44 + quiet + pcm.len()
            &&& sound.len() == quiet + pcm.len()
            &&& sound.skip(quiet as int) == pcm
            &&& forall|i: int| 0 <= i < quiet ==> #[trigger] sound[i] == 0
        }),
{
    let quiet = audio::pcm_bytes(sample_rate, silence);
    let padded = Seq::new(quiet, |i: int| 0u8) + pcm;
    audio::wav_files_give_back_the_sound(padded, sample_rate as int);
    assert(padded.skip(quiet as int) =~= pcm);
}

/// A WAV file can be written as long as the length in its header fits into four bytes.
pub proof fn files_are_below_four_gigabytes(sample_rate: u32, silence: nat, len: nat)
    ensures
        fits_wav(sample_rate, silence, len) <==> audio::pcm_bytes(sample_rate, silence) + len + 36
            < 0x1_0000_0000,
{
}

/// What is sent of a recording holds all of its speech, byte by byte, behind the silence and what is
/// kept before it.
pub proof fn the_speech_is_sent(sample_rate: u32, silence: nat, pcm: Seq<u8>)
    requires
        2 * sample_rate <= u32::MAX,
        pcm.len() <= usize::MAX,
        trimming::kept_range(sample_rate, pcm) is Some,
        fits_wav(sample_rate, silence, trimming::kept_sound(sample_rate, pcm).len()),
    ensures
        ({
            let span = trimming::speech_span(sample_rate, pcm)->0;
            let range = trimming::kept_range(sample_rate, pcm)->0;
            let wav = padded_wav(sample_rate, silence, trimming::kept_sound(sample_rate, pcm));
            let from = 44 + audio::pcm_bytes(sample_rate, silence) + (span.0 - range.0);
            wav.subrange(from, from + (span.1 - span.0)) == pcm.subrange(
                span.0 as int,
                span.1 as int,
            )
        }),
{
    let kept = trimming::kept_sound(sample_rate, pcm);
    let quiet = audio::pcm_bytes(sample_rate, silence) as int;
    let wav = padded_wav(sample_rate, silence, kept);
    silence_comes_before_the_sound(sample_rate, silence, kept);
    let span = trimming::speech_span(sample_rate, pcm)->0;
    let range = trimming::kept_range(sample_rate, pcm)->0;
    let lead = span.0 - range.0;
    let length = span.1 - span.0;
    assert(0 <= lead && 0 <= length && lead + length <= kept.len() && kept.subrange(
        lead,
        lead + length,
    ) == pcm.subrange(span.0 as int, span.1 as int)) by {
        trimming::kept_sound_is_the_speech_and_what_surrounds_it(sample_rate, pcm);
    }
    a_part_of_the_end(wav, quiet, kept, lead, length);
}

proof fn a_part_of_the_end(wav: Seq<u8>, quiet: int, kept: Seq<u8>, lead: int, length: int)
    requires
        wav.len() >= 44,
        0 <= quiet <= wav.len() - 44,
        wav.skip(44).skip(quiet) == kept,
        0 <= lead,
        0 <= length,
        lead + length <= kept.len(),
    ensures
        wav.subrange(44 + quiet + lead, 44 + quiet + lead + length) == kept.subrange(
            lead,
            lead + length,
        ),
{
    assert(wav.skip(44).skip(quiet) =~= wav.skip(44 + quiet));
    assert(wav.subrange(44 + quiet + lead, 44 + quiet + lead + length) =~= kept.subrange(
        lead,
        lead + length,
    ));
}

/// Files of a process with different counters have different names.
pub proof fn counters_tell_files_apart(
    label: Seq<char>,
    pid: u32,
    first: u64,
    second: u64,
    extension: Seq<char>,
)
    requires
        session_file(label, pid, first, extension) == session_file(label, pid, second, extension),
    ensures
        first == second,
{
    let head = "speaches-companion-"@ + label + "-"@ + text::decimal(pid as nat) + "-"@;
    let a = text::decimal(first as nat);
    let b = text::decimal(second as nat);
    let one = session_file(label, pid, first, extension);
    let two = session_file(label, pid, second, extension);
    let n = head.len() as int;
    assert(one.len() == head.len() + a.len() + extension.len());
    assert(two.len() == head.len() + b.len() + extension.len());
    assert(one.subrange(n, n + a.len()) =~= a);
    assert(two.subrange(n, n + b.len()) =~= b);
    text::written_numbers_are_read_back(first as nat);
    text::written_numbers_are_read_back(second as nat);
}

} // verus!
