//! Dictation that shows the transcript while the user still speaks.

use vstd::prelude::*;
use vstd::string::*;

use crate::daemon::DaemonResponse;
use crate::dictation::DictationError;
use crate::inject;
use crate::inject::{
    format_transcript_for_injection, normalize_transcript_for_injection, InjectError, SessionView,
    TextInjector,
};
use crate::notification;
use crate::notification::{
    notify_failure, ErrorNotifier, NoopErrorNotifier, NoopTranscriptNotifier, TranscriptNotifier,
};
use crate::partial;
use crate::partial::{
    PartialChunkingConfig, PartialSettings, PartialText, PartialTextView, Scene,
};
use crate::text;
use crate::transcript;
use crate::transcript::choose_final_transcript;

verus! {

/// A live transcript that has arrived.
#[derive(Debug, Clone, PartialEq, Eq)]
pub struct LiveTranscriptUpdate {
    pub transcript: String,
}

/// How a streaming dictation is done.
pub struct StreamingOptions {
    /// What is shown behind the text while dictation goes on.
    pub listening_marker: Option<Seq<char>>,
    pub partial: PartialSettings,
    /// Whether the final transcript replaces the live one.
    pub final_transcript: bool,
    /// Whether a space follows the transcript.
    pub append_space: bool,
}

/// Shows a live transcript while a hotkey is down, and the final one when it comes up.
pub struct StreamingDictationController<
    S,
    I: TextInjector,
    V: TranscriptNotifier,
    N: ErrorNotifier,
> {
    transcript_notifier: V,
    error_notifier: N,
    listening_marker: Option<String>,
    inline_partials: bool,
    partial_chunking: PartialChunkingConfig,
    final_transcript: bool,
    append_space: bool,
    /// What is written, and with what.
    text: PartialText<I>,
    /// Whether a dictation is under way.
    active: bool,
    /// The session of the transcriber, until it is stopped.
    session: Option<S>,
}

/// The scene with another session.
pub open spec fn with_session<I, V, N>(
    scene: Scene<I, V, N>,
    session: SessionView<I>,
) -> Scene<I, V, N> {
    Scene { text: PartialTextView { session, ..scene.text }, ..scene }
}

/// The user was told of a failure at a stage, and nothing else was done.
pub open spec fn told_failure<I, V, N: ErrorNotifier>(
    before: Scene<I, V, N>,
    stage: Seq<char>,
    error: Seq<char>,
    after: Scene<I, V, N>,
) -> bool {
    &&& notification::failure_told(before.errors, stage, error, after.errors)
    &&& after == (Scene { errors: after.errors, ..before })
}

/// The user was told that dictation has begun, and nothing else was done.
pub open spec fn told_listening<I, V: TranscriptNotifier, N>(
    before: Scene<I, V, N>,
    after: Scene<I, V, N>,
) -> bool {
    &&& notification::listening_told(before.notifier, after.notifier)
    &&& after == (Scene { notifier: after.notifier, ..before })
}

/// What comes of opening the focused window for dictation. The window is asked for (`focused`,
/// `focus`), the marker is put up where one is wanted (`marked`, `shown`), and the user is told that
/// dictation has begun, or which of the two failed.
pub open spec fn opened<I: TextInjector, V: TranscriptNotifier, N: ErrorNotifier>(
    marker: Option<Seq<char>>,
    before: Scene<I, V, N>,
    focused: Scene<I, V, N>,
    focus: Result<(), InjectError>,
    marked: Scene<I, V, N>,
    shown: Result<bool, InjectError>,
    after: Scene<I, V, N>,
    failure: Option<InjectError>,
) -> bool {
    &&& inject::session_opened(before.text.session, focused.text.session, focus)
    &&& match focus {
        Err(error) => {
            &&& focused == with_session(before, focused.text.session)
            &&& told_failure(
                focused,
                "Dictation target capture failed"@,
                inject::inject_error_text(error),
                after,
            )
            &&& failure == Some(error)
        },
        Ok(_) => {
            &&& focused == (Scene {
                text: PartialTextView {
                    display: partial::empty_display(),
                    session: focused.text.session,
                    open: true,
                },
                ..before
            })
            &&& match marker {
                None => told_listening(focused, after) && failure is None,
                Some(marker) => {
                    &&& inject::marker_up(
                        focused.text.session,
                        marker,
                        marked.text.session,
                        shown,
                    )
                    &&& marked == with_session(focused, marked.text.session)
                    &&& match shown {
                        Ok(_) => told_listening(marked, after) && failure is None,
                        Err(error) => told_failure(
                            marked,
                            "Listening marker injection failed"@,
                            inject::inject_error_text(error),
                            after,
                        ) && failure == Some(error),
                    }
                },
            }
        },
    }
}

/// What comes of opening the focused window for dictation.
pub open spec fn window_opened<I: TextInjector, V: TranscriptNotifier, N: ErrorNotifier>(
    marker: Option<Seq<char>>,
    before: Scene<I, V, N>,
    after: Scene<I, V, N>,
    failure: Option<InjectError>,
) -> bool {
    exists|
        focused: Scene<I, V, N>,
        focus: Result<(), InjectError>,
        marked: Scene<I, V, N>,
        shown: Result<bool, InjectError>,
    | #[trigger]
        opened(marker, before, focused, focus, marked, shown, after, failure)
}

/// What is left in the window where no final transcript came: the live one, or else nothing of
/// what was written. Nothing is to do where nothing was written.
pub open spec fn fallback_text(
    latest: Option<Seq<char>>,
    append_space: bool,
    inserted: Seq<char>,
) -> Option<Seq<char>> {
    match latest {
        Some(partial) => inject::formatted(partial, append_space),
        None => if inserted.len() > 0 {
            Some(seq![])
        } else {
            None
        },
    }
}

/// What comes of leaving in the window what is left of the live transcript.
pub open spec fn fallback_outcome<I: TextInjector, V: TranscriptNotifier, N: ErrorNotifier>(
    append_space: bool,
    before: Scene<I, V, N>,
    after: Scene<I, V, N>,
    r: Result<(), InjectError>,
) -> bool {
    let latest = before.text.display.latest;
    match fallback_text(latest, append_space, before.text.session.inserted) {
        None => after == before && r == Ok::<(), InjectError>(()),
        Some(text) => match r {
            Ok(_) => {
                &&& inject::replacement_done(before.text.session, text, after.text.session)
                &&& after == with_session(before, after.text.session)
            },
            Err(error) => {
                &&& inject::replacement(
                    before.text.session,
                    text,
                    after.text.session,
                    Err::<bool, InjectError>(error),
                )
                &&& told_failure(
                    with_session(before, after.text.session),
                    if latest is Some {
                        "Partial fallback replacement failed"@
                    } else {
                        "Speculative text cleanup failed"@
                    },
                    inject::inject_error_text(error),
                    after,
                )
            },
        },
    }
}

/// What comes of writing the final transcript: `written` is what replacing the text answered.
pub open spec fn final_outcome<I: TextInjector, V: TranscriptNotifier, N: ErrorNotifier>(
    transcript: Seq<char>,
    append_space: bool,
    before: Scene<I, V, N>,
    written: Result<bool, InjectError>,
    after: Scene<I, V, N>,
    reply: Result<DaemonResponse, DictationError>,
) -> bool {
    &&& inject::formatted(transcript, append_space) is Some
    &&& inject::replacement(
        before.text.session,
        inject::formatted(transcript, append_space)->0,
        after.text.session,
        written,
    )
    &&& match written {
        Ok(_) => {
            &&& notification::final_told(before.notifier, transcript, after.notifier)
            &&& after == (Scene {
                notifier: after.notifier,
                ..with_session(before, after.text.session)
            })
            &&& reply == Ok::<DaemonResponse, DictationError>(DaemonResponse::Stopped)
        },
        Err(error) => {
            &&& told_failure(
                with_session(before, after.text.session),
                "Final text replacement failed"@,
                inject::inject_error_text(error),
                after,
            )
            &&& reply == Err::<DaemonResponse, DictationError>(DictationError::Inject(error))
        },
    }
}

/// The final transcript, where one is wanted and something was understood.
pub open spec fn final_text(options: StreamingOptions, transcript: Seq<char>) -> Option<
    Seq<char>,
> {
    if options.final_transcript {
        text::non_empty(transcript)
    } else {
        None
    }
}

/// A dictation whose transcription failed was ended: what is left of the live transcript stays,
/// and the user is told of the failure.
pub open spec fn ended_by_failure<I: TextInjector, V: TranscriptNotifier, N: ErrorNotifier>(
    append_space: bool,
    before: Scene<I, V, N>,
    message: Seq<char>,
    left: Scene<I, V, N>,
    r: Result<(), InjectError>,
    after: Scene<I, V, N>,
) -> bool {
    &&& fallback_outcome(append_space, before, left, r)
    &&& told_failure(left, "Streaming transcription failed"@, message, after)
}

/// What comes of the end of a dictation once the marker was taken down, or was to be: `hidden` is
/// what that answered.
pub open spec fn settled<I: TextInjector, V: TranscriptNotifier, N: ErrorNotifier>(
    options: StreamingOptions,
    before: Scene<I, V, N>,
    stopped: Result<String, String>,
    hidden: Result<bool, InjectError>,
    after: Scene<I, V, N>,
    reply: Result<DaemonResponse, DictationError>,
) -> bool {
    match stopped {
        Err(message) => {
            &&& reply == Err::<DaemonResponse, DictationError>(DictationError::Service(message))
            &&& exists|left: Scene<I, V, N>, r: Result<(), InjectError>| #[trigger]
                ended_by_failure(options.append_space, before, message@, left, r, after)
        },
        Ok(transcript) => match hidden {
            Err(error) => after == before && reply == Err::<DaemonResponse, DictationError>(
                DictationError::Inject(error),
            ),
            Ok(_) => match final_text(options, transcript@) {
                Some(final_text) => exists|written: Result<bool, InjectError>| #[trigger]
                    final_outcome(
                        transcript::chosen(final_text, before.text.display.latest),
                        options.append_space,
                        before,
                        written,
                        after,
                        reply,
                    ),
                None => exists|r: Result<(), InjectError>| #[trigger]
                    fallback_outcome(options.append_space, before, after, r) && reply == match r {
                        Ok(_) => Ok::<DaemonResponse, DictationError>(DaemonResponse::Stopped),
                        Err(error) => Err(DictationError::Inject(error)),
                    },
            },
        },
    }
}

/// What comes of the end of a dictation: no more changes are taken (`shut`), the marker is taken
/// down (`unmarked`, `hidden`), of which the user is told if it fails (`reported`), and the
/// transcript is written.
pub open spec fn stop_outcome<I: TextInjector, V: TranscriptNotifier, N: ErrorNotifier>(
    options: StreamingOptions,
    before: Scene<I, V, N>,
    now: u128,
    stopped: Result<String, String>,
    shut: Scene<I, V, N>,
    unmarked: Scene<I, V, N>,
    hidden: Result<bool, InjectError>,
    reported: Scene<I, V, N>,
    after: Scene<I, V, N>,
    reply: Result<DaemonResponse, DictationError>,
) -> bool {
    &&& if before.text.open {
        partial::close_outcome(before, now, shut)
    } else {
        shut == before
    }
    &&& inject::marker_down(shut.text.session, unmarked.text.session, hidden)
    &&& unmarked == with_session(shut, unmarked.text.session)
    &&& match hidden {
        Ok(_) => reported == unmarked,
        Err(error) => told_failure(
            unmarked,
            "Listening marker cleanup failed"@,
            inject::inject_error_text(error),
            reported,
        ),
    }
    &&& settled(options, reported, stopped, hidden, after, reply)
}

/// The message where changes are no longer taken when all are to be shown.
pub const PARTIAL_TEXT_CLOSED: &'static str =
    "partial text task stopped before pending partial could be flushed: channel closed";

/// What comes of the wish to show, at the end, all that has arrived (`drained`, `flushed`): a
/// failure is told only where a final transcript is to come.
pub open spec fn final_flush_outcome<I: TextInjector, V: TranscriptNotifier, N: ErrorNotifier>(
    tell: bool,
    before: Scene<I, V, N>,
    transcripts: Seq<Seq<char>>,
    now: u128,
    drained: Scene<I, V, N>,
    flushed: Result<(), InjectError>,
    after: Scene<I, V, N>,
) -> bool {
    if before.text.open {
        &&& partial::drain_outcome(before, transcripts, now, drained, flushed)
        &&& match flushed {
            Ok(_) => after == drained,
            Err(error) => if tell {
                told_failure(
                    drained,
                    "Pending partial flush failed"@,
                    inject::inject_error_text(error),
                    after,
                )
            } else {
                after == drained
            },
        }
    } else if tell {
        told_failure(before, "Pending partial flush failed"@, PARTIAL_TEXT_CLOSED@, after)
    } else {
        after == before
    }
}

impl<S, I: TextInjector> StreamingDictationController<
    S,
    I,
    NoopTranscriptNotifier,
    NoopErrorNotifier,
> {
    /// An idle controller that tells nobody anything.
    pub fn new(injector: I) -> (r: Self)
        ensures
            r.is_idle_with(injector, NoopTranscriptNotifier, NoopErrorNotifier),
            r.has_default_options(),
    {
        Self::new_with_notifiers(injector, NoopTranscriptNotifier, NoopErrorNotifier)
    }
}

impl<S, I: TextInjector, V: TranscriptNotifier, N: ErrorNotifier> StreamingDictationController<
    S,
    I,
    V,
    N,
> {
    /// Whether a dictation is under way, be it that it is just being ended.
    pub closed spec fn is_active(&self) -> bool {
        self.active
    }

    /// The session of the transcriber, until it is stopped.
    pub closed spec fn session(&self) -> Option<S> {
        self.session
    }

    /// What is written with what, and who is told of it.
    pub closed spec fn scene(&self) -> Scene<I, V, N> {
        self.text.scene(self.transcript_notifier, self.error_notifier)
    }

    /// How dictation is done.
    pub closed spec fn options(&self) -> StreamingOptions {
        StreamingOptions {
            listening_marker: text::opt_view(self.listening_marker),
            partial: PartialSettings {
                inline_partials: self.inline_partials,
                chunking: self.partial_chunking,
            },
            final_transcript: self.final_transcript,
            append_space: self.append_space,
        }
    }

    /// Whether dictation is done as by default: without a marker, showing the live transcript in
    /// chunks, replacing it by the final one, with a space behind it.
    pub open spec fn has_default_options(&self) -> bool {
        let options = self.options();
        &&& options.listening_marker is None
        &&& options.partial.inline_partials
        &&& options.partial.chunking.enabled
        &&& options.partial.chunking.delay@ == partial::DEFAULT_PARTIAL_CHUNK_DELAY * 1_000_000
        &&& options.partial.chunking.max_delay@ == partial::DEFAULT_PARTIAL_CHUNK_MAX_DELAY
            * 1_000_000
        &&& options.final_transcript
        &&& options.append_space
    }

    /// Whether no dictation is under way, and none was.
    pub open spec fn is_idle_with(&self, injector: I, notifier: V, errors: N) -> bool {
        &&& !self.is_active()
        &&& self.session() is None
        &&& self.scene().text.session.injector == injector
        &&& self.scene().notifier == notifier
        &&& self.scene().errors == errors
    }

    /// Whether only the options differ.
    pub open spec fn same_state(&self, other: &Self) -> bool {
        &&& self.is_active() == other.is_active()
        &&& self.session() == other.session()
        &&& self.scene() == other.scene()
    }

    /// An idle controller.
    pub fn new_with_notifiers(injector: I, transcript_notifier: V, error_notifier: N) -> (r: Self)
        ensures
            r.is_idle_with(injector, transcript_notifier, error_notifier),
            r.has_default_options(),
    {
        Self {
            transcript_notifier,
            error_notifier,
            listening_marker: None,
            inline_partials: true,
            partial_chunking: PartialChunkingConfig::default(),
            final_transcript: true,
            append_space: true,
            text: PartialText::unopened(injector),
            active: false,
            session: None,
        }
    }

    /// The controller, told what to show behind the text while dictation goes on.
    pub fn with_listening_marker(self, marker: Option<String>) -> (r: Self)
        ensures
            r.same_state(&self),
            r.options() == (StreamingOptions {
                listening_marker: match marker {
                    Some(marker) => text::non_empty(marker@),
                    None => None,
                },
                ..self.options()
            }),
    {
        let mut controller = self;
        controller.listening_marker = match marker {
            Some(marker) => normalize_transcript_for_injection(marker.as_str()),
            None => None,
        };
        controller
    }

    /// The controller, told whether to show the live transcript.
    pub fn with_inline_partials(self, inline_partials: bool) -> (r: Self)
        ensures
            r.same_state(&self),
            r.options() == (StreamingOptions {
                partial: PartialSettings { inline_partials, ..self.options().partial },
                ..self.options()
            }),
    {
        let mut controller = self;
        controller.inline_partials = inline_partials;
        controller
    }

    /// The controller, told when to show changes of the live transcript.
    pub fn with_partial_chunking_config(self, partial_chunking: PartialChunkingConfig) -> (r: Self)
        ensures
            r.same_state(&self),
            r.options() == (StreamingOptions {
                partial: PartialSettings { chunking: partial_chunking, ..self.options().partial },
                ..self.options()
            }),
    {
        let mut controller = self;
        controller.partial_chunking = partial_chunking;
        controller
    }

    /// The controller, told whether the final transcript replaces the live one.
    pub fn with_final_transcript(self, final_transcript: bool) -> (r: Self)
        ensures
            r.same_state(&self),
            r.options() == (StreamingOptions { final_transcript, ..self.options() }),
    {
        let mut controller = self;
        controller.final_transcript = final_transcript;
        controller
    }

    /// The controller, told whether a space follows the transcript.
    pub fn with_append_space(self, append_space: bool) -> (r: Self)
        ensures
            r.same_state(&self),
            r.options() == (StreamingOptions { append_space, ..self.options() }),
    {
        let mut controller = self;
        controller.append_space = append_space;
        controller
    }

    /// Whether the user is being recorded.
    pub fn is_recording(&self) -> (r: bool)
        ensures
            r == (self.session() is Some),
    {
        self.session.is_some()
    }

    /// The answer to a hotkey that went down while a dictation is under way. If there is none, the
    /// transcriber is to be started.
    pub fn hotkey_down(&self) -> (r: Option<DaemonResponse>)
        ensures
            r == if self.is_active() {
                Some(DaemonResponse::AlreadyRecording)
            } else {
                None
            },
    {
        if self.active {
            Some(DaemonResponse::AlreadyRecording)
        } else {
            None
        }
    }

    /// Takes note that the transcriber could not be started: the user is told.
    pub fn start_failed(&mut self, error: &str)
        ensures
            final(self).options() == old(self).options(),
            final(self).is_active() == old(self).is_active(),
            final(self).session() == old(self).session(),
            told_failure(
                old(self).scene(),
                "Streaming start failed"@,
                error@,
                final(self).scene(),
            ),
    {
        notify_failure(&mut self.error_notifier, "Streaming start failed", error);
    }

    /// The live transcript that has arrived last.
    pub fn latest_partial(&self) -> (r: Option<&str>)
        ensures
            text::opt_str_view(r) == self.scene().text.display.latest,
    {
        self.text.latest_partial()
    }

    /// Whether the final transcript replaces the live one.
    pub fn takes_final_transcript(&self) -> (r: bool)
        ensures
            r == self.options().final_transcript,
    {
        self.final_transcript
    }

    /// Gives the dictation under way up, because what takes the live transcripts has failed: the
    /// user is told, and what stands in the window is left there.
    pub fn updates_failed(&mut self, error: &str)
        ensures
            final(self).options() == old(self).options(),
            !final(self).is_active(),
            final(self).session() is None,
            told_failure(
                old(self).scene(),
                "Partial text replacement failed"@,
                error@,
                final(self).scene(),
            ),
    {
        self.active = false;
        self.session = None;
        notify_failure(&mut self.error_notifier, "Partial text replacement failed", error);
    }

    /// Takes the session of a transcriber that has been started, and opens the focused window. If
    /// that fails, the session is handed back to be stopped.
    pub fn transcriber_started(&mut self, session: S) -> (r: Result<
        DaemonResponse,
        (S, DictationError),
    >)
        requires
            !old(self).is_active(),
        ensures
            final(self).options() == old(self).options(),
            match r {
                Ok(response) => {
                    &&& response == DaemonResponse::Started
                    &&& final(self).is_active()
                    &&& final(self).session() == Some(session)
                    &&& window_opened(
                        old(self).options().listening_marker,
                        old(self).scene(),
                        final(self).scene(),
                        None,
                    )
                },
                Err((back, DictationError::Inject(error))) => {
                    &&& back == session
                    &&& !final(self).is_active()
                    &&& final(self).session() == old(self).session()
                    &&& window_opened(
                        old(self).options().listening_marker,
                        old(self).scene(),
                        final(self).scene(),
                        Some(error),
                    )
                },
                Err(_) => false,
            },
    {
        let ghost marker = self.options().listening_marker;
        let ghost before = self.scene();
        let focus = self.text.open_window();
        let ghost focused = self.scene();
        let ghost mut shown: Result<bool, InjectError> = Ok(true);
        if let Err(error) = focus {
            let message = error.message();
            notify_failure(
                &mut self.error_notifier,
                "Dictation target capture failed",
                message.as_str(),
            );
            proof {
                assert(opened(
                    marker,
                    before,
                    focused,
                    focus,
                    focused,
                    shown,
                    self.scene(),
                    Some(error),
                ));
            }
            return Err((session, DictationError::Inject(error)));
        }
        if let Some(marker_text) = &self.listening_marker {
            let answer = self.text.show_trailing_marker(marker_text.as_str());
            let ghost marked = self.scene();
            proof {
                shown = answer;
            }
            if let Err(error) = answer {
                let message = error.message();
                notify_failure(
                    &mut self.error_notifier,
                    "Listening marker injection failed",
                    message.as_str(),
                );
                proof {
                    assert(opened(
                        marker,
                        before,
                        focused,
                        focus,
                        marked,
                        shown,
                        self.scene(),
                        Some(error),
                    ));
                }
                return Err((session, DictationError::Inject(error)));
            }
        }
        let ghost marked = self.scene();
        let _ = self.transcript_notifier.notify_listening();
        proof {
            assert(told_listening(marked, self.scene()));
            assert(opened(marker, before, focused, focus, marked, shown, self.scene(), None));
        }
        self.active = true;
        self.session = Some(session);
        Ok(DaemonResponse::Started)
    }

    /// When a change of the live transcript that waits is to be shown.
    pub fn next_flush_deadline(&self) -> (r: Option<u128>)
        ensures
            r == if self.is_active() && self.scene().text.open {
                partial::deadline(self.scene().text.display, self.options().partial.chunking)
            } else {
                None
            },
    {
        if self.active {
            self.text.flush_deadline(self.partial_settings())
        } else {
            None
        }
    }

    fn partial_settings(&self) -> (r: PartialSettings)
        ensures
            r == self.options().partial,
    {
        PartialSettings { inline_partials: self.inline_partials, chunking: self.partial_chunking }
    }

    /// Takes a live transcript that has arrived.
    pub fn live_update(&mut self, update: &LiveTranscriptUpdate, now: u128)
        ensures
            final(self).options() == old(self).options(),
            final(self).is_active() == old(self).is_active(),
            final(self).session() == old(self).session(),
            if old(self).is_active() {
                partial::update_outcome(
                    old(self).options().partial,
                    old(self).scene(),
                    update.transcript@,
                    now,
                    final(self).scene(),
                )
            } else {
                final(self).scene() == old(self).scene()
            },
    {
        if self.active {
            let settings = self.partial_settings();
            self.text.take_update(
                update.transcript.as_str(),
                settings,
                &mut self.transcript_notifier,
                &mut self.error_notifier,
                now,
            );
        }
    }

    /// Shows a change of the live transcript whose time has come.
    pub fn flush_due(&mut self, now: u128)
        ensures
            final(self).options() == old(self).options(),
            final(self).is_active() == old(self).is_active(),
            final(self).session() == old(self).session(),
            if old(self).is_active() {
                partial::tick_outcome(
                    old(self).options().partial,
                    old(self).scene(),
                    now,
                    final(self).scene(),
                )
            } else {
                final(self).scene() == old(self).scene()
            },
    {
        if self.active {
            let settings = self.partial_settings();
            self.text.tick(
                settings,
                &mut self.transcript_notifier,
                &mut self.error_notifier,
                now,
            );
        }
    }

    /// Begins to end the dictation under way, when the hotkey comes up: shows the last of the live
    /// transcripts that have arrived, and hands the session out to be stopped. Answers nothing if
    /// no user is being recorded.
    pub fn begin_stop(&mut self, arrived: &Vec<String>, now: u128) -> (r: Option<S>)
        ensures
            final(self).options() == old(self).options(),
            final(self).is_active() == old(self).is_active(),
            final(self).session() is None,
            r == old(self).session(),
            r is None ==> final(self).scene() == old(self).scene(),
            r is Some ==> exists|drained: Scene<I, V, N>, flushed: Result<(), InjectError>|
                #[trigger]
                final_flush_outcome(
                    old(self).options().final_transcript,
                    old(self).scene(),
                    text::views(arrived@),
                    now,
                    drained,
                    flushed,
                    final(self).scene(),
                ),
    {
        let ghost before = self.scene();
        let session = match self.session.take() {
            None => {
                return None;
            },
            Some(session) => session,
        };
        if self.text.is_open() {
            let flushed = self.text.drain(arrived, &mut self.transcript_notifier, now);
            let ghost drained = self.scene();
            if let Err(error) = &flushed {
                if self.final_transcript {
                    let message = error.message();
                    notify_failure(
                        &mut self.error_notifier,
                        "Pending partial flush failed",
                        message.as_str(),
                    );
                }
            }
            proof {
                assert(partial::drain_outcome(
                    before,
                    text::views(arrived@),
                    now,
                    drained,
                    flushed,
                ));
                assert(final_flush_outcome(
                    self.options().final_transcript,
                    before,
                    text::views(arrived@),
                    now,
                    drained,
                    flushed,
                    self.scene(),
                ));
            }
        } else {
            if self.final_transcript {
                notify_failure(
                    &mut self.error_notifier,
                    "Pending partial flush failed",
                    PARTIAL_TEXT_CLOSED,
                );
            }
            proof {
                assert(final_flush_outcome(
                    self.options().final_transcript,
                    before,
                    text::views(arrived@),
                    now,
                    before,
                    Ok(()),
                    self.scene(),
                ));
            }
        }
        Some(session)
    }

    /// Leaves in the window what is left of the live transcript.
    fn leave_partial(&mut self) -> (r: Result<(), InjectError>)
        ensures
            final(self).options() == old(self).options(),
            final(self).is_active() == old(self).is_active(),
            final(self).session() == old(self).session(),
            fallback_outcome(
                old(self).options().append_space,
                old(self).scene(),
                final(self).scene(),
                r,
            ),
    {
        let ghost before = self.scene();
        let (wanted, stage) = match self.text.latest_partial() {
            Some(partial) => (
                format_transcript_for_injection(partial, self.append_space),
                "Partial fallback replacement failed",
            ),
            None => (
                if self.text.inserted_text().unicode_len() > 0 {
                    Some(String::new())
                } else {
                    None
                },
                "Speculative text cleanup failed",
            ),
        };
        proof {
            assert(text::opt_view(wanted) == fallback_text(
                before.text.display.latest,
                self.append_space,
                before.text.session.inserted,
            ));
        }
        match wanted {
            None => Ok(()),
            Some(wanted) => {
                let replaced = self.text.replace_text(wanted.as_str());
                proof {
                    assert(inject::replacement(
                        before.text.session,
                        wanted@,
                        self.scene().text.session,
                        replaced,
                    ));
                }
                match replaced {
                    Ok(_) => Ok(()),
                    Err(error) => {
                        let message = error.message();
                        notify_failure(&mut self.error_notifier, stage, message.as_str());
                        Err(error)
                    },
                }
            },
        }
    }

    /// Writes the final transcript.
    fn write_final(&mut self, transcript: String) -> (r: Result<DaemonResponse, DictationError>)
        requires
            inject::formatted(transcript@, old(self).options().append_space) is Some,
        ensures
            final(self).options() == old(self).options(),
            final(self).is_active() == old(self).is_active(),
            final(self).session() == old(self).session(),
            exists|written: Result<bool, InjectError>| #[trigger]
                final_outcome(
                    transcript@,
                    old(self).options().append_space,
                    old(self).scene(),
                    written,
                    final(self).scene(),
                    r,
                ),
    {
        let ghost before = self.scene();
        let formatted = format_transcript_for_injection(transcript.as_str(), self.append_space);
        let wanted = text::owned_or_empty(
            match &formatted {
                Some(wanted) => Some(wanted.as_str()),
                None => None,
            },
        );
        let written = self.text.replace_text(wanted.as_str());
        let ghost replaced = self.scene();
        let r: Result<DaemonResponse, DictationError> = match written {
            Ok(_) => {
                let _ = self.transcript_notifier.notify_final(transcript.as_str());
                Ok(DaemonResponse::Stopped)
            },
            Err(error) => {
                let message = error.message();
                notify_failure(
                    &mut self.error_notifier,
                    "Final text replacement failed",
                    message.as_str(),
                );
                Err(DictationError::Inject(error))
            },
        };
        proof {
            assert(inject::replacement(
                before.text.session,
                wanted@,
                replaced.text.session,
                written,
            ));
            assert(final_outcome(
                transcript@,
                self.options().append_space,
                before,
                written,
                self.scene(),
                r,
            ));
        }
        r
    }

    /// Ends a dictation once the marker was taken down, or was to be.
    fn settle(
        &mut self,
        stopped: Result<String, String>,
        hidden: Result<bool, InjectError>,
    ) -> (r: Result<DaemonResponse, DictationError>)
        ensures
            final(self).options() == old(self).options(),
            final(self).is_active() == old(self).is_active(),
            final(self).session() == old(self).session(),
            settled(
                old(self).options(),
                old(self).scene(),
                stopped,
                hidden,
                final(self).scene(),
                r,
            ),
    {
        let ghost before = self.scene();
        match stopped {
            Err(message) => {
                let r = self.leave_partial();
                let ghost left = self.scene();
                notify_failure(
                    &mut self.error_notifier,
                    "Streaming transcription failed",
                    message.as_str(),
                );
                proof {
                    assert(ended_by_failure(
                        self.options().append_space,
                        before,
                        message@,
                        left,
                        r,
                        self.scene(),
                    ));
                }
                Err(DictationError::Service(message))
            },
            Ok(transcript) => match hidden {
                Err(error) => Err(DictationError::Inject(error)),
                Ok(_) => {
                    let final_text = if self.final_transcript {
                        normalize_transcript_for_injection(transcript.as_str())
                    } else {
                        None
                    };
                    match final_text {
                        Some(final_text) => {
                            let written = choose_final_transcript(
                                final_text,
                                self.text.latest_partial(),
                            );
                            proof {
                                chosen_transcripts_are_not_empty(
                                    transcript@,
                                    before.text.display.latest,
                                    self.append_space,
                                );
                            }
                            self.write_final(written)
                        },
                        None => {
                            let left = self.leave_partial();
                            proof {
                                assert(fallback_outcome(
                                    self.options().append_space,
                                    before,
                                    self.scene(),
                                    left,
                                ));
                            }
                            match left {
                                Ok(()) => Ok(DaemonResponse::Stopped),
                                Err(error) => Err(DictationError::Inject(error)),
                            }
                        },
                    }
                },
            },
        }
    }

    /// Ends the dictation under way, given what stopping the transcriber answered: takes no more
    /// changes, takes the marker down, and writes the final transcript, or else leaves what is left
    /// of the live one.
    pub fn finish_stop(&mut self, stopped: Result<String, String>, now: u128) -> (r: Result<
        DaemonResponse,
        DictationError,
    >)
        ensures
            final(self).options() == old(self).options(),
            !final(self).is_active(),
            final(self).session() is None,
            if old(self).is_active() {
                exists|
                    shut: Scene<I, V, N>,
                    unmarked: Scene<I, V, N>,
                    hidden: Result<bool, InjectError>,
                    reported: Scene<I, V, N>,
                | #[trigger]
                    stop_outcome(
                        old(self).options(),
                        old(self).scene(),
                        now,
                        stopped,
                        shut,
                        unmarked,
                        hidden,
                        reported,
                        final(self).scene(),
                        r,
                    )
            } else {
                final(self).scene() == old(self).scene() && r == Ok::<
                    DaemonResponse,
                    DictationError,
                >(DaemonResponse::AlreadyIdle)
            },
    {
        let ghost before = self.scene();
        self.session = None;
        if !self.active {
            return Ok(DaemonResponse::AlreadyIdle);
        }
        self.active = false;
        if self.text.is_open() {
            self.text.close(&mut self.transcript_notifier, &mut self.error_notifier, now);
        }
        let ghost shut = self.scene();
        let hidden = self.text.hide_trailing_marker();
        let ghost unmarked = self.scene();
        if let Err(error) = &hidden {
            let message = error.message();
            notify_failure(
                &mut self.error_notifier,
                "Listening marker cleanup failed",
                message.as_str(),
            );
        }
        let ghost reported = self.scene();
        let r = self.settle(stopped, hidden);
        proof {
            assert(stop_outcome(
                self.options(),
                before,
                now,
                stopped,
                shut,
                unmarked,
                hidden,
                reported,
                self.scene(),
                r,
            ));
        }
        r
    }
}

/// What is written in the end is never empty.
pub proof fn chosen_transcripts_are_not_empty(
    transcript: Seq<char>,
    latest: Option<Seq<char>>,
    append_space: bool,
)
    requires
        text::non_empty(transcript) is Some,
    ensures
        inject::formatted(
            transcript::chosen(text::non_empty(transcript)->0, latest),
            append_space,
        ) is Some,
{
    text::trimming_twice_is_trimming_once(transcript);
    if latest is Some {
        text::trimming_twice_is_trimming_once(latest->0);
    }
}

/// A dictation that ended well with a final transcript leaves just the chosen transcript in the
/// window, with a space behind it if one is wanted, and no marker; and the user was told of it.
pub proof fn well_ended_dictations_show_the_transcript<
    I: TextInjector,
    V: TranscriptNotifier,
    N: ErrorNotifier,
>(
    options: StreamingOptions,
    before: Scene<I, V, N>,
    now: u128,
    transcript: String,
    shut: Scene<I, V, N>,
    unmarked: Scene<I, V, N>,
    hidden: Result<bool, InjectError>,
    reported: Scene<I, V, N>,
    after: Scene<I, V, N>,
    reply: Result<DaemonResponse, DictationError>,
)
    requires
        stop_outcome(
            options,
            before,
            now,
            Ok(transcript),
            shut,
            unmarked,
            hidden,
            reported,
            after,
            reply,
        ),
        final_text(options, transcript@) is Some,
        reply is Ok,
    ensures
        ({
            let chosen = transcript::chosen(
                final_text(options, transcript@)->0,
                shut.text.display.latest,
            );
            &&& Some(after.text.session.inserted) == inject::formatted(
                chosen,
                options.append_space,
            )
            &&& after.text.session.marker == 0
            &&& notification::final_told(shut.notifier, chosen, after.notifier)
            &&& after.errors == shut.errors
        }),
{
}

/// Where no final transcript came, the live one stays in the window; where there was none either,
/// nothing stays of what was written.
pub proof fn live_transcripts_stay_without_a_final_one<
    I: TextInjector,
    V: TranscriptNotifier,
    N: ErrorNotifier,
>(
    append_space: bool,
    before: Scene<I, V, N>,
    after: Scene<I, V, N>,
    r: Result<(), InjectError>,
)
    requires
        fallback_outcome(append_space, before, after, r),
        before.text.display.latest matches Some(partial) ==> text::trimmed(partial).len() > 0,
        r is Ok,
    ensures
        match before.text.display.latest {
            Some(partial) => after.text.session.inserted == if append_space {
                text::trimmed(partial) + seq![' ']
            } else {
                text::trimmed(partial)
            },
            None => after.text.session.inserted == Seq::<char>::empty(),
        },
        after.notifier == before.notifier,
        after.errors == before.errors,
{
    if let Some(partial) = before.text.display.latest {
        inject::transcripts_are_written_trimmed(partial);
    }
}

/// A dictation that ends well leaves the final transcript in the window, where one is wanted and it is
/// no shorter than the live one: just its text, without the white space at its ends, with a space
/// behind it if wanted. The user is told of it.
pub proof fn final_transcripts_replace_live_ones<
    I: TextInjector,
    V: TranscriptNotifier,
    N: ErrorNotifier,
>(
    options: StreamingOptions,
    before: Scene<I, V, N>,
    now: u128,
    transcript: String,
    shut: Scene<I, V, N>,
    unmarked: Scene<I, V, N>,
    hidden: Result<bool, InjectError>,
    reported: Scene<I, V, N>,
    after: Scene<I, V, N>,
    reply: Result<DaemonResponse, DictationError>,
)
    requires
        stop_outcome(
            options,
            before,
            now,
            Ok(transcript),
            shut,
            unmarked,
            hidden,
            reported,
            after,
            reply,
        ),
        options.final_transcript,
        text::trimmed(transcript@).len() > 0,
        before.text.display.latest matches Some(live) ==> text::trimmed(live).len()
            <= text::trimmed(transcript@).len(),
        reply is Ok,
    ensures
        reply == Ok::<DaemonResponse, DictationError>(DaemonResponse::Stopped),
        after.text.session.inserted == if options.append_space {
            text::trimmed(transcript@) + seq![' ']
        } else {
            text::trimmed(transcript@)
        },
        after.text.session.marker == 0,
        !after.text.open,
        exists|told: Result<(), String>| #[trigger]
            shut.notifier.final_reply(text::trimmed(transcript@), after.notifier, told),
{
    if before.text.open {
        partial::closing_keeps_the_latest(before, now, shut);
    }
    text::trimming_twice_is_trimming_once(transcript@);
    transcript::longer_finals_win(text::trimmed(transcript@), shut.text.display.latest);
    inject::transcripts_are_written_trimmed(text::trimmed(transcript@));
}

/// Where no final transcript is wanted, or none came, a dictation that ends well leaves the live one
/// as it arrived last, and nobody is told of a final one; where there was none either, nothing of what
/// was written stays.
pub proof fn live_transcripts_are_left_in_the_end<
    I: TextInjector,
    V: TranscriptNotifier,
    N: ErrorNotifier,
>(
    options: StreamingOptions,
    before: Scene<I, V, N>,
    now: u128,
    transcript: String,
    shut: Scene<I, V, N>,
    unmarked: Scene<I, V, N>,
    hidden: Result<bool, InjectError>,
    reported: Scene<I, V, N>,
    after: Scene<I, V, N>,
    reply: Result<DaemonResponse, DictationError>,
)
    requires
        stop_outcome(
            options,
            before,
            now,
            Ok(transcript),
            shut,
            unmarked,
            hidden,
            reported,
            after,
            reply,
        ),
        !options.final_transcript || text::trimmed(transcript@).len() == 0,
        reply is Ok,
    ensures
        reply == Ok::<DaemonResponse, DictationError>(DaemonResponse::Stopped),
        before.text.display.latest matches Some(live) ==> (text::trimmed(live).len() > 0
            ==> after.text.session.inserted == if options.append_space {
            text::trimmed(live) + seq![' ']
        } else {
            text::trimmed(live)
        }),
        before.text.display.latest is None ==> after.text.session.inserted.len() == 0,
        after.text.session.marker == 0,
        !after.text.open,
        after.notifier == shut.notifier,
{
    if before.text.open {
        partial::closing_keeps_the_latest(before, now, shut);
    }
    if let Some(live) = before.text.display.latest {
        inject::transcripts_are_written_trimmed(live);
    }
}

/// Where the transcription failed, the dictation fails with its message, and what was live stays as
/// far as it can be written; the last thing the user is told is that failure, and nobody is told of a
/// final transcript.
pub proof fn failed_transcriptions_are_told<
    I: TextInjector,
    V: TranscriptNotifier,
    N: ErrorNotifier,
>(
    options: StreamingOptions,
    before: Scene<I, V, N>,
    now: u128,
    message: String,
    shut: Scene<I, V, N>,
    unmarked: Scene<I, V, N>,
    hidden: Result<bool, InjectError>,
    reported: Scene<I, V, N>,
    after: Scene<I, V, N>,
    reply: Result<DaemonResponse, DictationError>,
) -> (end: (Scene<I, V, N>, Result<(), InjectError>))
    requires
        stop_outcome(
            options,
            before,
            now,
            Err(message),
            shut,
            unmarked,
            hidden,
            reported,
            after,
            reply,
        ),
    ensures
        reply == Err::<DaemonResponse, DictationError>(DictationError::Service(message)),
        after.notifier == shut.notifier,
        after.text == end.0.text,
        reported.text.display.latest == before.text.display.latest,
        exists|told: Result<(), String>| #[trigger]
            end.0.errors.error_reply(
                notification::DICTATION_ERROR_SUMMARY@,
                "Streaming transcription failed"@ + ": "@ + message@,
                after.errors,
                told,
            ),
        end.1 is Ok ==> end.0.errors == reported.errors,
        end.1 is Ok ==> (before.text.display.latest matches Some(live) ==> (text::trimmed(live).len()
            > 0 ==> end.0.text.session.inserted == if options.append_space {
            text::trimmed(live) + seq![' ']
        } else {
            text::trimmed(live)
        })),
        end.1 is Ok && before.text.display.latest is None ==> end.0.text.session.inserted.len()
            == 0,
        end.1 is Err ==> end.0.text.session.inserted == reported.text.session.inserted,
{
    if before.text.open {
        partial::closing_keeps_the_latest(before, now, shut);
    }
    let (left, r) = choose|left: Scene<I, V, N>, r: Result<(), InjectError>| #[trigger]
        ended_by_failure(options.append_space, reported, message@, left, r, after);
    let latest = reported.text.display.latest;
    let wanted = fallback_text(latest, options.append_space, reported.text.session.inserted);
    if let Some(live) = latest {
        inject::transcripts_are_written_trimmed(live);
    }
    if let Some(text) = wanted {
        match r {
            Ok(_) => {
                let changed = choose|changed: bool| #[trigger]
                    inject::replacement(
                        reported.text.session,
                        text,
                        left.text.session,
                        Ok::<bool, InjectError>(changed),
                    );
                inject::a_replacement_shows_the_text(
                    reported.text.session,
                    text,
                    left.text.session,
                    Ok::<bool, InjectError>(changed),
                );
            },
            Err(error) => {
                inject::a_replacement_shows_the_text(
                    reported.text.session,
                    text,
                    left.text.session,
                    Err::<bool, InjectError>(error),
                );
            },
        }
    }
    (left, r)
}

/// A dictation that does not end well tells of no final transcript, and tells the user why.
pub proof fn failed_endings_tell_of_no_transcript<
    I: TextInjector,
    V: TranscriptNotifier,
    N: ErrorNotifier,
>(
    options: StreamingOptions,
    before: Scene<I, V, N>,
    now: u128,
    transcript: String,
    shut: Scene<I, V, N>,
    unmarked: Scene<I, V, N>,
    hidden: Result<bool, InjectError>,
    reported: Scene<I, V, N>,
    after: Scene<I, V, N>,
    reply: Result<DaemonResponse, DictationError>,
)
    requires
        stop_outcome(
            options,
            before,
            now,
            Ok(transcript),
            shut,
            unmarked,
            hidden,
            reported,
            after,
            reply,
        ),
        reply is Err,
    ensures
        after.notifier == shut.notifier,
        reply->Err_0 is Inject,
        !after.text.open,
        hidden is Err ==> after == reported && reply == Err::<DaemonResponse, DictationError>(
            DictationError::Inject(hidden->Err_0),
        ),
        hidden is Ok ==> exists|text: Seq<char>, error: InjectError| #[trigger]
            inject::replacement(
                reported.text.session,
                text,
                after.text.session,
                Err::<bool, InjectError>(error),
            ) && reply == Err::<DaemonResponse, DictationError>(DictationError::Inject(error)),
        exists|body: Seq<char>, told: Result<(), String>| #[trigger]
            shut.errors.error_reply(
                notification::DICTATION_ERROR_SUMMARY@,
                body,
                after.errors,
                told,
            ),
{
    if before.text.open {
        partial::closing_keeps_the_latest(before, now, shut);
    }
}

/// A dictation that begins takes changes from nothing on, on the window that has the focus; the user is
/// told once that it has begun. One that cannot begin is told of as a failure, and not as begun.
pub proof fn dictations_begin_with_nothing<
    I: TextInjector,
    V: TranscriptNotifier,
    N: ErrorNotifier,
>(
    marker: Option<Seq<char>>,
    before: Scene<I, V, N>,
    after: Scene<I, V, N>,
    failure: Option<InjectError>,
)
    requires
        window_opened(marker, before, after, failure),
    ensures
        failure is None ==> {
            &&& after.text.open
            &&& after.text.display.latest is None
            &&& after.text.display.displayed is None
            &&& after.text.display.announced is None
            &&& after.text.display.dirty_since is None
            &&& after.text.session.inserted.len() == 0
            &&& !after.text.session.aborted
            &&& after.errors == before.errors
            &&& exists|told: Result<(), String>| #[trigger]
                before.notifier.listening_reply(after.notifier, told)
            &&& marker is None ==> after.text.session.marker == 0
                && before.text.session.injector.focus_reply(
                after.text.session.injector,
                Ok::<Option<inject::FocusedWindow>, InjectError>(after.text.session.target),
            )
            &&& marker matches Some(text) ==> after.text.session.marker == text.len()
                || after.text.session.marker == 0
        },
        failure matches Some(error) ==> {
            &&& after.notifier == before.notifier
            &&& exists|stage: Seq<char>, told: Result<(), String>| #[trigger]
                before.errors.error_reply(
                    notification::DICTATION_ERROR_SUMMARY@,
                    stage + ": "@ + inject::inject_error_text(error),
                    after.errors,
                    told,
                )
        },
{
    let (focused, focus, marked, shown) = choose|
        focused: Scene<I, V, N>,
        focus: Result<(), InjectError>,
        marked: Scene<I, V, N>,
        shown: Result<bool, InjectError>,
    | #[trigger]
        opened(marker, before, focused, focus, marked, shown, after, failure);
    if let Some(text) = marker {
        if focus is Ok {
            inject::putting_a_marker_up_keeps_the_text(
                focused.text.session,
                text,
                marked.text.session,
                shown,
            );
            let (asked, wanted, checked, mine, written, typed) = choose|
                asked: SessionView<I>,
                wanted: Result<bool, InjectError>,
                checked: SessionView<I>,
                mine: Result<(), InjectError>,
                written: SessionView<I>,
                typed: Result<(), InjectError>,
            | #[trigger]
                inject::marker_put_up(
                    focused.text.session,
                    text,
                    asked,
                    wanted,
                    checked,
                    mine,
                    written,
                    typed,
                    marked.text.session,
                    shown,
                );
        }
    }
    if let Some(error) = failure {
        let stage = if focus is Err {
            "Dictation target capture failed"@
        } else {
            "Listening marker injection failed"@
        };
        let told = choose|told: Result<(), String>| #[trigger]
            before.errors.error_reply(
                notification::DICTATION_ERROR_SUMMARY@,
                notification::error_body(stage, inject::inject_error_text(error)),
                after.errors,
                told,
            );
        assert(before.errors.error_reply(
            notification::DICTATION_ERROR_SUMMARY@,
            stage + ": "@ + inject::inject_error_text(error),
            after.errors,
            told,
        ));
    }
}

/// When the hotkey comes up, the last transcript that has arrived and is not blank counts, and is
/// shown if that can be done. Where no final transcript is to come, nobody is told of a failure.
pub proof fn the_end_shows_what_has_arrived<
    I: TextInjector,
    V: TranscriptNotifier,
    N: ErrorNotifier,
>(
    tell: bool,
    before: Scene<I, V, N>,
    transcripts: Seq<Seq<char>>,
    k: int,
    now: u128,
    drained: Scene<I, V, N>,
    flushed: Result<(), InjectError>,
    after: Scene<I, V, N>,
)
    requires
        final_flush_outcome(tell, before, transcripts, now, drained, flushed, after),
        before.text.open,
        0 <= k < transcripts.len(),
        text::trimmed(transcripts[k]).len() > 0,
        forall|j: int| k < j < transcripts.len() ==> text::trimmed(#[trigger] transcripts[j]).len()
            == 0,
    ensures
        after.text.display.latest == Some(text::trimmed(transcripts[k])),
        flushed is Ok ==> after.text.display.displayed == Some(text::trimmed(transcripts[k]))
            && after.errors == before.errors,
        flushed is Ok && before.text.display.displayed != Some(text::trimmed(transcripts[k]))
            ==> after.text.session.inserted == text::trimmed(transcripts[k]),
        !tell ==> after.errors == before.errors,
        after.text.open,
{
    partial::the_last_that_arrived_counts(before, transcripts, k, now, drained, flushed);
}

/// A failure to leave what is left of the live transcript is told as one of that; where there was none,
/// as one to clean up.
pub proof fn failed_fallbacks_are_told<I: TextInjector, V: TranscriptNotifier, N: ErrorNotifier>(
    append_space: bool,
    before: Scene<I, V, N>,
    after: Scene<I, V, N>,
    error: InjectError,
)
    requires
        fallback_outcome(append_space, before, after, Err::<(), InjectError>(error)),
    ensures
        after.notifier == before.notifier,
        after.text.session.inserted == before.text.session.inserted,
        before.text.display.latest is Some ==> exists|told: Result<(), String>| #[trigger]
            before.errors.error_reply(
                notification::DICTATION_ERROR_SUMMARY@,
                "Partial fallback replacement failed"@ + ": "@ + inject::inject_error_text(error),
                after.errors,
                told,
            ),
        before.text.display.latest is None ==> exists|told: Result<(), String>| #[trigger]
            before.errors.error_reply(
                notification::DICTATION_ERROR_SUMMARY@,
                "Speculative text cleanup failed"@ + ": "@ + inject::inject_error_text(error),
                after.errors,
                told,
            ),
{
    let latest = before.text.display.latest;
    let text = fallback_text(latest, append_space, before.text.session.inserted)->0;
    inject::a_replacement_shows_the_text(
        before.text.session,
        text,
        after.text.session,
        Err::<bool, InjectError>(error),
    );
}

/// By default live transcripts are shown in the window, in chunks, without a marker, and replaced by the
/// final one with a space behind it.
pub proof fn defaults_show_and_replace<S, I: TextInjector, V: TranscriptNotifier, N: ErrorNotifier>(
    controller: StreamingDictationController<S, I, V, N>,
)
    requires
        controller.has_default_options(),
    ensures
        controller.options().listening_marker is None,
        controller.options().partial.inline_partials,
        controller.options().partial.chunking.enabled,
        controller.options().partial.chunking.delay@ == 80_000_000,
        controller.options().partial.chunking.max_delay@ == 250_000_000,
        controller.options().final_transcript,
        controller.options().append_space,
{
}

/// A controller that is idle has no dictation under way and no session, and writes and tells with what
/// it was given; options change nothing of that.
pub proof fn idle_controllers_wait<S, I: TextInjector, V: TranscriptNotifier, N: ErrorNotifier>(
    controller: StreamingDictationController<S, I, V, N>,
    other: StreamingDictationController<S, I, V, N>,
    injector: I,
    notifier: V,
    errors: N,
)
    requires
        controller.is_idle_with(injector, notifier, errors),
        other.same_state(&controller),
    ensures
        !other.is_active(),
        other.session() is None,
        other.scene().text.session.injector == injector,
        other.scene().notifier == notifier,
        other.scene().errors == errors,
{
}

} // verus!
