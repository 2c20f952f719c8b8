//! Dictation that records first and writes the transcript afterwards.

use vstd::prelude::*;
use vstd::string::*;

use crate::audio::STT_SAMPLE_RATE;
use crate::daemon::{DaemonResponse, HotkeyHandler};
use crate::inject;
use crate::inject::{format_transcript_for_injection, InjectError, TextInjector};
use crate::ipc::IpcCommand;
use crate::notification;
use crate::notification::{notify_failure, ErrorNotifier, NoopErrorNotifier};
use crate::stt::TranscribeOptions;
use crate::text;

verus! {

/// Why a dictation failed.
#[derive(Debug, Clone, PartialEq, Eq)]
pub enum DictationError {
    /// What the recorder or the transcriber reports.
    Service(String),
    /// The text could not be written.
    Inject(InjectError),
}

/// The text of a [`DictationError`].
pub open spec fn dictation_error_text(error: DictationError) -> Seq<char> {
    match error {
        DictationError::Service(message) => message@,
        DictationError::Inject(error) => inject::inject_error_text(error),
    }
}

impl DictationError {
    /// The text of this error.
    pub fn message(&self) -> (r: String)
        ensures
            r@ == dictation_error_text(*self),
    {
        match self {
            DictationError::Service(message) => message.clone(),
            DictationError::Inject(error) => error.message(),
        }
    }
}

/// What records sound.
///
/// Each `.._reply` relation holds of the answers that an implementation may give, and of the state
/// that it may have then.
pub trait Recorder: Send + Sync + Sized {
    /// A recording under way.
    type Recording: Send;

    open spec fn start_reply(&self, after: Self, reply: Result<Self::Recording, String>) -> bool {
        true
    }

    open spec fn stop_reply(
        &self,
        recording: Self::Recording,
        after: Self,
        reply: Result<String, String>,
    ) -> bool {
        true
    }

    /// Begins to record.
    fn start(&mut self) -> (r: Result<Self::Recording, String>)
        ensures
            old(self).start_reply(*final(self), r),
    ;

    /// Ends a recording and tells the file that holds it.
    fn stop(&mut self, recording: Self::Recording) -> (r: Result<String, String>)
        ensures
            old(self).stop_reply(recording, *final(self), r),
    ;
}

/// What turns recorded speech into text.
///
/// `transcribe_reply` holds of the answers that an implementation may give, and of the state that
/// it may have then.
pub trait Transcriber: Send + Sync + Sized {
    open spec fn transcribe_reply(
        &self,
        audio_path: Seq<char>,
        after: Self,
        reply: Result<String, String>,
    ) -> bool {
        true
    }

    /// The text of the speech in a file.
    fn transcribe(&mut self, audio_path: &str) -> (r: Result<String, String>)
        ensures
            old(self).transcribe_reply(audio_path@, *final(self), r),
    ;
}

/// Records while a hotkey is down, and writes the transcript when it comes up.
pub struct DictationController<R: Recorder, T: Transcriber, I: TextInjector, N: ErrorNotifier> {
    recorder: R,
    transcriber: T,
    injector: I,
    notifier: N,
    recording: Option<R::Recording>,
    append_space: bool,
}

/// The parts of a [`DictationController`].
pub struct DictationParts<R, T, I, N> {
    pub recorder: R,
    pub transcriber: T,
    pub injector: I,
    pub notifier: N,
    pub append_space: bool,
}

/// The user was told of a failure at a stage, and nothing else was done.
pub open spec fn parts_told<R, T, I, N: ErrorNotifier>(
    before: DictationParts<R, T, I, N>,
    stage: Seq<char>,
    error: Seq<char>,
    after: DictationParts<R, T, I, N>,
) -> bool {
    &&& notification::failure_told(before.notifier, stage, error, after.notifier)
    &&& after == (DictationParts { notifier: after.notifier, ..before })
}

/// A transcript was written by one call, which the reply is made of.
pub open spec fn injection_outcome<R, T, I: TextInjector, N: ErrorNotifier>(
    before: DictationParts<R, T, I, N>,
    text: Seq<char>,
    answer: Result<(), InjectError>,
    after: DictationParts<R, T, I, N>,
    reply: Result<DaemonResponse, DictationError>,
) -> bool {
    let written = DictationParts { injector: after.injector, ..before };
    &&& before.injector.inject_reply(text, after.injector, answer)
    &&& match answer {
        Ok(_) => after == written && reply == Ok::<DaemonResponse, DictationError>(
            DaemonResponse::Stopped,
        ),
        Err(error) => parts_told(
            written,
            "Text injection failed"@,
            inject::inject_error_text(error),
            after,
        ) && reply == Err::<DaemonResponse, DictationError>(DictationError::Inject(error)),
    }
}

/// A transcript was written by one call; `after` and `reply` came of it.
pub open spec fn injected<R, T, I: TextInjector, N: ErrorNotifier>(
    before: DictationParts<R, T, I, N>,
    text: Seq<char>,
    after: DictationParts<R, T, I, N>,
    reply: Result<DaemonResponse, DictationError>,
) -> bool {
    exists|answer: Result<(), InjectError>| #[trigger]
        injection_outcome(before, text, answer, after, reply)
}

/// A recording was transcribed by one call. Only where that succeeded and something was understood,
/// the transcript is written.
pub open spec fn transcription_outcome<R, T: Transcriber, I: TextInjector, N: ErrorNotifier>(
    before: DictationParts<R, T, I, N>,
    path: Seq<char>,
    answer: Result<String, String>,
    after: DictationParts<R, T, I, N>,
    reply: Result<DaemonResponse, DictationError>,
) -> bool {
    let transcribed = DictationParts { transcriber: after.transcriber, ..before };
    &&& before.transcriber.transcribe_reply(path, after.transcriber, answer)
    &&& match answer {
        Ok(transcript) => match inject::formatted(transcript@, before.append_space) {
            Some(text) => injected(transcribed, text, after, reply),
            None => after == transcribed && reply == Ok::<DaemonResponse, DictationError>(
                DaemonResponse::Stopped,
            ),
        },
        Err(error) => parts_told(transcribed, "Transcription failed"@, error@, after) && reply
            == Err::<DaemonResponse, DictationError>(DictationError::Service(error)),
    }
}

/// A recording was ended by one call. Only where that succeeded it is transcribed.
pub open spec fn stop_outcome<R: Recorder, T: Transcriber, I: TextInjector, N: ErrorNotifier>(
    before: DictationParts<R, T, I, N>,
    recording: R::Recording,
    answer: Result<String, String>,
    after: DictationParts<R, T, I, N>,
    reply: Result<DaemonResponse, DictationError>,
) -> bool {
    let stopped = DictationParts { recorder: after.recorder, ..before };
    &&& before.recorder.stop_reply(recording, after.recorder, answer)
    &&& match answer {
        Ok(path) => exists|transcribed: Result<String, String>| #[trigger]
            transcription_outcome(stopped, path@, transcribed, after, reply),
        Err(error) => parts_told(stopped, "Recording stop failed"@, error@, after) && reply
            == Err::<DaemonResponse, DictationError>(DictationError::Service(error)),
    }
}

/// A recording was begun by one call.
pub open spec fn start_outcome<R: Recorder, T, I, N: ErrorNotifier>(
    before: DictationParts<R, T, I, N>,
    answer: Result<R::Recording, String>,
    after: DictationParts<R, T, I, N>,
    current: Option<R::Recording>,
    reply: Result<DaemonResponse, DictationError>,
) -> bool {
    let started = DictationParts { recorder: after.recorder, ..before };
    &&& before.recorder.start_reply(after.recorder, answer)
    &&& match answer {
        Ok(recording) => after == started && current == Some(recording) && reply == Ok::<
            DaemonResponse,
            DictationError,
        >(DaemonResponse::Started),
        Err(error) => {
            &&& parts_told(started, "Recording start failed"@, error@, after)
            &&& current is None
            &&& reply == Err::<DaemonResponse, DictationError>(DictationError::Service(error))
        },
    }
}

impl<R: Recorder, T: Transcriber, I: TextInjector> DictationController<
    R,
    T,
    I,
    NoopErrorNotifier,
> {
    /// An idle controller that tells nobody of failures.
    pub fn new(recorder: R, transcriber: T, injector: I) -> (r: Self)
        ensures
            r.parts() == (DictationParts {
                recorder,
                transcriber,
                injector,
                notifier: NoopErrorNotifier,
                append_space: true,
            }),
            r.current() is None,
    {
        Self::new_with_notifier(recorder, transcriber, injector, NoopErrorNotifier)
    }
}

impl<R: Recorder, T: Transcriber, I: TextInjector, N: ErrorNotifier> DictationController<
    R,
    T,
    I,
    N,
> {
    /// The recording under way.
    pub closed spec fn current(&self) -> Option<R::Recording> {
        self.recording
    }

    /// The parts of the controller.
    pub closed spec fn parts(&self) -> DictationParts<R, T, I, N> {
        DictationParts {
            recorder: self.recorder,
            transcriber: self.transcriber,
            injector: self.injector,
            notifier: self.notifier,
            append_space: self.append_space,
        }
    }

    /// An idle controller.
    pub fn new_with_notifier(recorder: R, transcriber: T, injector: I, notifier: N) -> (r: Self)
        ensures
            r.parts() == (DictationParts {
                recorder,
                transcriber,
                injector,
                notifier,
                append_space: true,
            }),
            r.current() is None,
    {
        Self { recorder, transcriber, injector, notifier, recording: None, append_space: true }
    }

    /// The controller, told whether a space follows each transcript.
    pub fn with_append_space(self, append_space: bool) -> (r: Self)
        ensures
            r.parts() == (DictationParts { append_space, ..self.parts() }),
            r.current() == self.current(),
    {
        let mut controller = self;
        controller.append_space = append_space;
        controller
    }

    /// Whether a recording is under way.
    pub fn is_recording(&self) -> (r: bool)
        ensures
            r == (self.current() is Some),
    {
        self.recording.is_some()
    }

    /// Begins to record, unless a recording is under way.
    fn start_recording(&mut self) -> (r: Result<DaemonResponse, DictationError>)
        ensures
            old(self).hotkey_reply(IpcCommand::HotkeyDown, *final(self), r),
    {
        let ghost before = self.parts();
        if self.recording.is_some() {
            return Ok(DaemonResponse::AlreadyRecording);
        }
        let answer = self.recorder.start();
        let r: Result<DaemonResponse, DictationError> = match answer {
            Ok(recording) => {
                self.recording = Some(recording);
                Ok(DaemonResponse::Started)
            },
            Err(error) => {
                notify_failure(&mut self.notifier, "Recording start failed", error.as_str());
                Err(DictationError::Service(error))
            },
        };
        proof {
            assert(start_outcome(before, answer, self.parts(), self.current(), r));
        }
        r
    }

    /// Has a recording transcribed, and writes the transcript.
    fn inject_transcript(&mut self, path: &str) -> (r: Result<DaemonResponse, DictationError>)
        ensures
            final(self).current() == old(self).current(),
            exists|transcribed: Result<String, String>| #[trigger]
                transcription_outcome(
                    old(self).parts(),
                    path@,
                    transcribed,
                    final(self).parts(),
                    r,
                ),
    {
        let ghost before = self.parts();
        let answer = self.transcriber.transcribe(path);
        let ghost transcribed = self.parts();
        let r: Result<DaemonResponse, DictationError> = match answer {
            Err(error) => {
                notify_failure(&mut self.notifier, "Transcription failed", error.as_str());
                Err(DictationError::Service(error))
            },
            Ok(transcript) => match format_transcript_for_injection(
                transcript.as_str(),
                self.append_space,
            ) {
                None => Ok(DaemonResponse::Stopped),
                Some(text) => {
                    let typed = self.injector.inject_text(text.as_str());
                    let r: Result<DaemonResponse, DictationError> = match typed {
                        Ok(()) => Ok(DaemonResponse::Stopped),
                        Err(error) => {
                            let message = error.message();
                            notify_failure(
                                &mut self.notifier,
                                "Text injection failed",
                                message.as_str(),
                            );
                            Err(DictationError::Inject(error))
                        },
                    };
                    proof {
                        assert(injection_outcome(transcribed, text@, typed, self.parts(), r));
                    }
                    r
                },
            },
        };
        proof {
            assert(transcription_outcome(before, path@, answer, self.parts(), r));
        }
        r
    }

    /// Ends the recording under way, if there is one, and writes its transcript.
    fn stop_transcribe_and_inject(&mut self) -> (r: Result<DaemonResponse, DictationError>)
        ensures
            old(self).hotkey_reply(IpcCommand::HotkeyUp, *final(self), r),
    {
        let ghost before = self.parts();
        let recording = match self.recording.take() {
            Some(recording) => recording,
            None => {
                return Ok(DaemonResponse::AlreadyIdle);
            },
        };
        let stopped = self.recorder.stop(recording);
        let r: Result<DaemonResponse, DictationError> = match stopped {
            Err(error) => {
                notify_failure(&mut self.notifier, "Recording stop failed", error.as_str());
                Err(DictationError::Service(error))
            },
            Ok(path) => self.inject_transcript(path.as_str()),
        };
        proof {
            assert(stop_outcome(before, recording, stopped, self.parts(), r));
        }
        r
    }
}

impl<R: Recorder, T: Transcriber, I: TextInjector, N: ErrorNotifier> HotkeyHandler
    for DictationController<R, T, I, N> {
    type Failure = DictationError;

    open spec fn hotkey_reply(
        &self,
        command: IpcCommand,
        after: Self,
        reply: Result<DaemonResponse, DictationError>,
    ) -> bool {
        match command {
            IpcCommand::HotkeyDown => if self.current() is Some {
                after == *self && reply == Ok::<DaemonResponse, DictationError>(
                    DaemonResponse::AlreadyRecording,
                )
            } else {
                exists|answer: Result<R::Recording, String>| #[trigger]
                    start_outcome(self.parts(), answer, after.parts(), after.current(), reply)
            },
            IpcCommand::HotkeyUp => match self.current() {
                None => after == *self && reply == Ok::<DaemonResponse, DictationError>(
                    DaemonResponse::AlreadyIdle,
                ),
                Some(recording) => {
                    &&& after.current() is None
                    &&& exists|answer: Result<String, String>| #[trigger]
                        stop_outcome(self.parts(), recording, answer, after.parts(), reply)
                },
            },
        }
    }

    fn handle_hotkey(&mut self, command: IpcCommand) -> (r: Result<DaemonResponse, DictationError>)
    {
        match command {
            IpcCommand::HotkeyDown => self.start_recording(),
            IpcCommand::HotkeyUp => self.stop_transcribe_and_inject(),
        }
    }
}

/// Where recording or transcribing fails, the injector is not called.
pub proof fn failed_stages_type_nothing<
    R: Recorder,
    T: Transcriber,
    I: TextInjector,
    N: ErrorNotifier,
>(
    before: DictationParts<R, T, I, N>,
    recording: R::Recording,
    answer: Result<String, String>,
    after: DictationParts<R, T, I, N>,
    reply: Result<DaemonResponse, DictationError>,
)
    requires
        stop_outcome(before, recording, answer, after, reply),
        answer is Err || reply matches Err(DictationError::Service(_)),
    ensures
        after.injector == before.injector,
        reply is Err,
{
}

/// Where nothing was understood, the injector is not called, nobody is told of a failure, and the
/// dictation ends well.
pub proof fn blank_transcripts_are_not_typed<
    R,
    T: Transcriber,
    I: TextInjector,
    N: ErrorNotifier,
>(
    before: DictationParts<R, T, I, N>,
    path: Seq<char>,
    transcript: String,
    after: DictationParts<R, T, I, N>,
    reply: Result<DaemonResponse, DictationError>,
)
    requires
        transcription_outcome(before, path, Ok::<String, String>(transcript), after, reply),
        text::non_empty(transcript@) is None,
    ensures
        after.injector == before.injector,
        after.notifier == before.notifier,
        reply == Ok::<DaemonResponse, DictationError>(DaemonResponse::Stopped),
{
}

/// Records with `pw-record` into files of a directory.
#[derive(Debug, Clone, PartialEq, Eq)]
pub struct PwRecordRecorder {
    pub output_dir: String,
    pub sample_rate: u32,
}

impl PwRecordRecorder {
    /// A recorder at the rate that transcription takes.
    pub fn new(output_dir: String) -> (r: Self)
        ensures
            r.output_dir == output_dir,
            r.sample_rate == STT_SAMPLE_RATE,
    {
        Self { output_dir, sample_rate: STT_SAMPLE_RATE }
    }

    /// The recorder, told its rate.
    pub fn with_sample_rate(self, sample_rate: u32) -> (r: Self)
        ensures
            r.output_dir == self.output_dir,
            r.sample_rate == sample_rate,
    {
        Self { output_dir: self.output_dir, sample_rate }
    }

    /// Where a process puts a recording that it begins at a moment.
    pub fn output_path(&self, pid: u32, millis: u128) -> (r: String)
        ensures
            r@ == text::joined_path(self.output_dir@, recording_name(pid, millis)),
    {
        let name = recording_file_name(pid, millis);
        text::join_path(self.output_dir.as_str(), name.as_str())
    }
}

/// Has recordings transcribed by a server.
#[derive(Debug, Clone, PartialEq, Eq)]
pub struct SpeachesTranscriber {
    pub base_url: String,
    pub options: TranscribeOptions,
}

impl SpeachesTranscriber {
    /// A transcriber.
    pub fn new(base_url: String, options: TranscribeOptions) -> (r: Self)
        ensures
            r.base_url == base_url,
            r.options == options,
    {
        Self { base_url, options }
    }
}

/// The directory for recordings, below that of the session if there is one.
pub fn default_recording_dir(runtime_dir: Option<&str>, temp_dir: &str) -> (r: String)
    ensures
        r@ == text::joined_path(
            match text::opt_str_view(runtime_dir) {
                Some(dir) => dir,
                None => temp_dir@,
            },
            "speaches-companion-recordings"@,
        ),
{
    let base = match runtime_dir {
        Some(dir) => dir,
        None => temp_dir,
    };
    text::join_path(base, "speaches-companion-recordings")
}

/// The name of the file for a recording.
pub open spec fn recording_name(pid: u32, millis: u128) -> Seq<char> {
    "speaches-companion-"@ + text::decimal(pid as nat) + "-"@ + text::decimal(millis as nat)
        + ".wav"@
}

/// The name of the file for a recording that a process begins at a moment.
pub fn recording_file_name(pid: u32, millis: u128) -> (r: String)
    ensures
        r@ == recording_name(pid, millis),
{
    let mut out = "speaches-companion-".to_owned();
    out.append(text::decimal_text(pid as u128).as_str());
    out.append("-");
    out.append(text::decimal_text(millis).as_str());
    out.append(".wav");
    out
}

/// A transcript that is not blank is written by one call, without the white space at its ends, and
/// with a space behind it where that is wanted. The dictation ends well exactly if that call does; if
/// not, the user is told why.
pub proof fn dictations_type_their_transcript<
    R,
    T: Transcriber,
    I: TextInjector,
    N: ErrorNotifier,
>(
    before: DictationParts<R, T, I, N>,
    path: Seq<char>,
    transcript: String,
    after: DictationParts<R, T, I, N>,
    reply: Result<DaemonResponse, DictationError>,
) -> (typed: Result<(), InjectError>)
    requires
        transcription_outcome(before, path, Ok::<String, String>(transcript), after, reply),
        text::trimmed(transcript@).len() > 0,
    ensures
        before.append_space ==> before.injector.inject_reply(
            text::trimmed(transcript@) + seq![' '],
            after.injector,
            typed,
        ),
        !before.append_space ==> before.injector.inject_reply(
            text::trimmed(transcript@),
            after.injector,
            typed,
        ),
        typed is Ok ==> reply == Ok::<DaemonResponse, DictationError>(DaemonResponse::Stopped)
            && after.notifier == before.notifier,
        typed matches Err(error) ==> reply == Err::<DaemonResponse, DictationError>(
            DictationError::Inject(error),
        ) && exists|told: Result<(), String>| #[trigger]
            before.notifier.error_reply(
                notification::DICTATION_ERROR_SUMMARY@,
                "Text injection failed"@ + ": "@ + inject::inject_error_text(error),
                after.notifier,
                told,
            ),
{
    inject::transcripts_are_written_trimmed(transcript@);
    let transcribed = DictationParts { transcriber: after.transcriber, ..before };
    let text = inject::formatted(transcript@, before.append_space)->0;
    assert(injected(transcribed, text, after, reply));
    choose|answer: Result<(), InjectError>| #[trigger]
        injection_outcome(transcribed, text, answer, after, reply)
}

/// The file that a recording was written to is transcribed, by one call; where the recording could not
/// be ended, nothing is.
pub proof fn recordings_are_transcribed<
    R: Recorder,
    T: Transcriber,
    I: TextInjector,
    N: ErrorNotifier,
>(
    before: DictationParts<R, T, I, N>,
    recording: R::Recording,
    answer: Result<String, String>,
    after: DictationParts<R, T, I, N>,
    reply: Result<DaemonResponse, DictationError>,
)
    requires
        stop_outcome(before, recording, answer, after, reply),
    ensures
        before.recorder.stop_reply(recording, after.recorder, answer),
        answer matches Ok(path) ==> exists|transcribed: Result<String, String>| #[trigger]
            before.transcriber.transcribe_reply(path@, after.transcriber, transcribed) && (
            transcribed matches Err(error) ==> reply == Err::<DaemonResponse, DictationError>(
                DictationError::Service(error),
            )),
        answer matches Err(error) ==> after.transcriber == before.transcriber && reply == Err::<
            DaemonResponse,
            DictationError,
        >(DictationError::Service(error)) && exists|told: Result<(), String>| #[trigger]
            before.notifier.error_reply(
                notification::DICTATION_ERROR_SUMMARY@,
                "Recording stop failed"@ + ": "@ + error@,
                after.notifier,
                told,
            ),
{
    if let Ok(path) = answer {
        let stopped = DictationParts { recorder: after.recorder, ..before };
        let transcribed = choose|transcribed: Result<String, String>| #[trigger]
            transcription_outcome(stopped, path@, transcribed, after, reply);
        assert(before.transcriber.transcribe_reply(path@, after.transcriber, transcribed));
    }
}

/// A recording that was begun is the one under way; one that could not be begun is told of.
pub proof fn recordings_begin_or_are_told_of<R: Recorder, T, I, N: ErrorNotifier>(
    before: DictationParts<R, T, I, N>,
    answer: Result<R::Recording, String>,
    after: DictationParts<R, T, I, N>,
    current: Option<R::Recording>,
    reply: Result<DaemonResponse, DictationError>,
)
    requires
        start_outcome(before, answer, after, current, reply),
    ensures
        before.recorder.start_reply(after.recorder, answer),
        after.injector == before.injector,
        after.transcriber == before.transcriber,
        answer matches Ok(recording) ==> current == Some(recording) && reply == Ok::<
            DaemonResponse,
            DictationError,
        >(DaemonResponse::Started) && after.notifier == before.notifier,
        answer matches Err(error) ==> current is None && reply == Err::<
            DaemonResponse,
            DictationError,
        >(DictationError::Service(error)) && exists|told: Result<(), String>| #[trigger]
            before.notifier.error_reply(
                notification::DICTATION_ERROR_SUMMARY@,
                "Recording start failed"@ + ": "@ + error@,
                after.notifier,
                told,
            ),
{
}

/// A recording is named by the process and the time, and is a WAV file.
pub proof fn recordings_are_named_by_process_and_time(pid: u32, millis: u128)
    ensures
        text::ends(recording_name(pid, millis), text::decimal(millis as nat) + ".wav"@),
        text::begins(
            recording_name(pid, millis),
            "speaches-companion-"@ + text::decimal(pid as nat) + "-"@,
        ),
{
    let head = "speaches-companion-"@ + text::decimal(pid as nat) + "-"@;
    let tail = text::decimal(millis as nat) + ".wav"@;
    assert(recording_name(pid, millis) =~= head + tail);
    text::parts_are_found(head, tail, tail);
}

} // verus!
