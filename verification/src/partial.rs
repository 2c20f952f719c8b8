//! Showing a transcript in the focused window while it is still changing.
//!
//! Points in time are counted in nanoseconds from some fixed one.

use vstd::prelude::*;
use vstd::string::*;

use crate::clock::Duration;
use crate::inject;
use crate::inject::{
    normalize_transcript_for_injection, InjectError, SessionView, SpeculativeTextSession,
    TextInjector,
};
use crate::notification;
use crate::notification::{notify_failure, ErrorNotifier, NoopErrorNotifier, TranscriptNotifier};
use crate::text;
use crate::transcript;

verus! {

/// How long a live transcript has to stay as it is before it is shown, in milliseconds.
pub const DEFAULT_PARTIAL_CHUNK_DELAY: u64 = 80;

/// How long showing a live transcript can be put off, in milliseconds.
pub const DEFAULT_PARTIAL_CHUNK_MAX_DELAY: u64 = 250;

/// When changes of a live transcript are shown.
#[derive(Debug, Clone, Copy, PartialEq, Eq, Structural)]
pub struct PartialChunkingConfig {
    /// Whether changes are collected at all.
    pub enabled: bool,
    pub delay: Duration,
    pub max_delay: Duration,
}

impl Default for PartialChunkingConfig {
    fn default() -> (r: Self)
        ensures
            r.enabled,
            r.delay@ == DEFAULT_PARTIAL_CHUNK_DELAY * 1_000_000,
            r.max_delay@ == DEFAULT_PARTIAL_CHUNK_MAX_DELAY * 1_000_000,
    {
        Self {
            enabled: true,
            delay: Duration::from_millis(DEFAULT_PARTIAL_CHUNK_DELAY),
            max_delay: Duration::from_millis(DEFAULT_PARTIAL_CHUNK_MAX_DELAY),
        }
    }
}

/// What is known of a live transcript and of its display.
pub struct DisplayView {
    /// The transcript as it is now.
    pub latest: Option<Seq<char>>,
    /// The transcript as it is shown.
    pub displayed: Option<Seq<char>>,
    /// The transcript as the user was told of it.
    pub announced: Option<Seq<char>>,
    /// Since when a change waits to be shown.
    pub dirty_since: Option<u128>,
    /// When the last change came that waits to be shown.
    pub last_update: Option<u128>,
    /// When a change was shown last.
    pub last_flush: Option<u128>,
}

/// The display of a transcript of which nothing is known.
pub open spec fn empty_display() -> DisplayView {
    DisplayView {
        latest: None,
        displayed: None,
        announced: None,
        dirty_since: None,
        last_update: None,
        last_flush: None,
    }
}

/// A live transcript and its display.
#[derive(Debug)]
pub struct PartialDisplayState {
    latest_partial: Option<String>,
    displayed_partial: Option<String>,
    last_announced_partial: Option<String>,
    dirty_started_at: Option<u128>,
    last_update_at: Option<u128>,
    last_flush_at: Option<u128>,
}

/// A point in time some span after another, or the last one that can be told.
pub open spec fn later(at: u128, nanos: nat) -> u128 {
    if at + nanos > u128::MAX {
        u128::MAX
    } else {
        (at + nanos) as u128
    }
}

/// When a change that waits is to be shown: the delay after the last change, but no later than the
/// longest delay after something was shown last, or after the first change that waits.
pub open spec fn deadline(display: DisplayView, config: PartialChunkingConfig) -> Option<u128> {
    match display.dirty_since {
        None => None,
        Some(dirty_since) => {
            let last_update = match display.last_update {
                Some(at) => at,
                None => dirty_since,
            };
            let anchor = match display.last_flush {
                Some(at) => at,
                None => dirty_since,
            };
            let quiet = later(last_update, config.delay@);
            let latest = later(anchor, config.max_delay@);
            Some(
                if quiet <= latest {
                    quiet
                } else {
                    latest
                },
            )
        },
    }
}

/// Whether the transcript is not shown yet as it is now.
pub open spec fn pending(display: DisplayView) -> bool {
    display.latest != display.displayed
}

/// The display after a change that waits to be shown.
pub open spec fn waiting(display: DisplayView, now: u128) -> DisplayView {
    DisplayView {
        dirty_since: match display.dirty_since {
            Some(at) => Some(at),
            None => Some(now),
        },
        last_update: Some(now),
        ..display
    }
}

/// The display after the transcript was shown.
pub open spec fn shown(display: DisplayView, now: u128) -> DisplayView {
    DisplayView {
        displayed: display.latest,
        announced: match display.latest {
            Some(partial) => Some(partial),
            None => display.announced,
        },
        dirty_since: None,
        last_update: None,
        last_flush: Some(now),
        ..display
    }
}

/// The user was told of a live transcript, unless that was done.
pub open spec fn announced<V: TranscriptNotifier>(
    display: DisplayView,
    before: V,
    transcript: Seq<char>,
    after: V,
) -> bool {
    if display.announced == Some(transcript) {
        after == before
    } else {
        notification::partial_told(before, transcript, after)
    }
}

fn same_partial(a: &Option<String>, b: &str) -> (r: bool)
    ensures
        r == (text::opt_view(*a) == Some(b@)),
{
    match a {
        Some(a) => text::same_text(a.as_str(), b),
        None => false,
    }
}

impl PartialDisplayState {
    /// What is known of the transcript and of its display.
    pub closed spec fn view(&self) -> DisplayView {
        DisplayView {
            latest: text::opt_view(self.latest_partial),
            displayed: text::opt_view(self.displayed_partial),
            announced: text::opt_view(self.last_announced_partial),
            dirty_since: self.dirty_started_at,
            last_update: self.last_update_at,
            last_flush: self.last_flush_at,
        }
    }

    /// Nothing is known and nothing shown.
    pub fn new() -> (r: Self)
        ensures
            r@ == empty_display(),
    {
        Self {
            latest_partial: None,
            displayed_partial: None,
            last_announced_partial: None,
            dirty_started_at: None,
            last_update_at: None,
            last_flush_at: None,
        }
    }

    /// The transcript as it is now.
    pub fn latest_partial(&self) -> (r: Option<&str>)
        ensures
            text::opt_str_view(r) == self@.latest,
    {
        match &self.latest_partial {
            Some(partial) => Some(partial.as_str()),
            None => None,
        }
    }

    /// Takes note of a transcript. Answers whether it is another than before.
    pub fn update_latest_partial(&mut self, transcript: String) -> (r: bool)
        ensures
            r == (old(self)@.latest != Some(transcript@)),
            final(self)@ == (DisplayView { latest: Some(transcript@), ..old(self)@ }),
    {
        if same_partial(&self.latest_partial, transcript.as_str()) {
            return false;
        }
        self.latest_partial = Some(transcript);
        true
    }

    /// Takes note that a change waits to be shown.
    pub fn note_pending_flush(&mut self, now: u128)
        ensures
            final(self)@ == waiting(old(self)@, now),
    {
        if self.dirty_started_at.is_none() {
            self.dirty_started_at = Some(now);
        }
        self.last_update_at = Some(now);
    }

    /// When a change that waits is to be shown.
    pub fn flush_deadline(&self, config: PartialChunkingConfig) -> (r: Option<u128>)
        ensures
            r == deadline(self@, config),
    {
        match self.dirty_started_at {
            None => None,
            Some(dirty_since) => {
                let last_update: u128 = match self.last_update_at {
                    Some(at) => at,
                    None => dirty_since,
                };
                let anchor: u128 = match self.last_flush_at {
                    Some(at) => at,
                    None => dirty_since,
                };
                let quiet: u128 = last_update.saturating_add(config.delay.as_nanos());
                let latest: u128 = anchor.saturating_add(config.max_delay.as_nanos());
                Some(
                    if quiet <= latest {
                        quiet
                    } else {
                        latest
                    },
                )
            },
        }
    }

    /// Whether the transcript is not shown as it is now.
    pub fn has_pending_partial(&self) -> (r: bool)
        ensures
            r == pending(self@),
    {
        match (&self.latest_partial, &self.displayed_partial) {
            (Some(latest), Some(displayed)) => !text::same_text(
                latest.as_str(),
                displayed.as_str(),
            ),
            (None, None) => false,
            (Some(_), None) => true,
            (None, Some(_)) => true,
        }
    }

    /// Tells the user of a transcript, unless that was done.
    pub fn announce_partial<V: TranscriptNotifier>(
        &mut self,
        transcript_notifier: &mut V,
        transcript: &str,
    )
        ensures
            final(self)@ == (DisplayView { announced: Some(transcript@), ..old(self)@ }),
            announced(
                old(self)@,
                *old(transcript_notifier),
                transcript@,
                *final(transcript_notifier),
            ),
    {
        if same_partial(&self.last_announced_partial, transcript) {
            return;
        }
        let _ = transcript_notifier.notify_partial(transcript);
        self.last_announced_partial = Some(transcript.to_owned());
    }
}

/// What is known of a live transcript, its display and the session that shows it.
pub struct PartialTextView<I> {
    pub display: DisplayView,
    pub session: SessionView<I>,
    /// Whether changes are still taken.
    pub open: bool,
}

/// A live transcript, and who is told of it and of failures.
pub struct Scene<I, V, N> {
    pub text: PartialTextView<I>,
    pub notifier: V,
    pub errors: N,
}

/// A live transcript that is shown in the focused window.
pub struct PartialText<I: TextInjector> {
    display: PartialDisplayState,
    text_session: SpeculativeTextSession<I>,
    open: bool,
}

/// How live transcripts are shown.
#[derive(Debug, Clone, Copy, PartialEq, Eq, Structural)]
pub struct PartialSettings {
    /// Whether they are shown at all before the end.
    pub inline_partials: bool,
    pub chunking: PartialChunkingConfig,
}

/// The transcript was to be shown: `after` and `r` came of it. If the session refused, the display
/// is as before and nobody was told anything; if not, the user was told of a transcript that is
/// new.
pub open spec fn flush_outcome<I: TextInjector, V: TranscriptNotifier, N: ErrorNotifier>(
    before: Scene<I, V, N>,
    now: u128,
    after: Scene<I, V, N>,
    r: Result<(), InjectError>,
) -> bool {
    let wanted = text::or_empty(before.text.display.latest);
    &&& after.text.open == before.text.open
    &&& after.errors == before.errors
    &&& match r {
        Err(error) => {
            &&& after.text.display == before.text.display
            &&& after.notifier == before.notifier
            &&& inject::replacement(
                before.text.session,
                wanted,
                after.text.session,
                Err::<bool, InjectError>(error),
            )
        },
        Ok(_) => {
            &&& after.text.display == shown(before.text.display, now)
            &&& inject::replacement_done(before.text.session, wanted, after.text.session)
            &&& match before.text.display.latest {
                Some(partial) => announced(
                    before.text.display,
                    before.notifier,
                    partial,
                    after.notifier,
                ),
                None => after.notifier == before.notifier,
            }
        },
    }
}

/// What is done about a live transcript that has arrived.
pub enum UpdateAction {
    /// Nothing: it is empty, or as before.
    Ignore,
    /// The user is told of it.
    Announce,
    /// It is shown.
    Flush,
    /// It waits to be shown.
    Wait,
}

/// What is done about a live transcript that has arrived.
pub open spec fn update_action(
    display: DisplayView,
    transcript: Seq<char>,
    settings: PartialSettings,
) -> UpdateAction {
    match text::non_empty(transcript) {
        None => UpdateAction::Ignore,
        Some(partial) => if display.latest == Some(partial) {
            UpdateAction::Ignore
        } else if !settings.inline_partials {
            UpdateAction::Announce
        } else if !settings.chunking.enabled || transcript::at_boundary(transcript) {
            UpdateAction::Flush
        } else {
            UpdateAction::Wait
        },
    }
}

/// The user was told if showing the transcript failed, and of nothing if not.
pub open spec fn flush_reported<N: ErrorNotifier>(
    before: N,
    r: Result<(), InjectError>,
    after: N,
) -> bool {
    match r {
        Ok(_) => after == before,
        Err(error) => notification::failure_told(
            before,
            "Partial text replacement failed"@,
            inject::inject_error_text(error),
            after,
        ),
    }
}

/// No more changes are taken; what was not shown yet was to be shown, which led to `middle` and
/// `r`.
pub open spec fn closed_by<I: TextInjector, V: TranscriptNotifier, N: ErrorNotifier>(
    before: Scene<I, V, N>,
    now: u128,
    middle: Scene<I, V, N>,
    r: Result<(), InjectError>,
    after: Scene<I, V, N>,
) -> bool {
    &&& flush_outcome(before, now, middle, r)
    &&& flush_reported(middle.errors, r, after.errors)
    &&& after.text == (PartialTextView { open: false, ..middle.text })
    &&& after.notifier == middle.notifier
}

/// No more changes are taken; what was not shown yet was to be shown.
pub open spec fn close_outcome<I: TextInjector, V: TranscriptNotifier, N: ErrorNotifier>(
    before: Scene<I, V, N>,
    now: u128,
    after: Scene<I, V, N>,
) -> bool {
    if pending(before.text.display) {
        exists|middle: Scene<I, V, N>, r: Result<(), InjectError>| #[trigger]
            closed_by(before, now, middle, r, after)
    } else {
        after == (Scene { text: PartialTextView { open: false, ..before.text }, ..before })
    }
}

/// The transcript was to be shown while dictation goes on, which led to `middle` and `r`: if that
/// failed, the user was told (`reported`), and no more changes are taken.
pub open spec fn live_flush_outcome<I: TextInjector, V: TranscriptNotifier, N: ErrorNotifier>(
    before: Scene<I, V, N>,
    now: u128,
    middle: Scene<I, V, N>,
    r: Result<(), InjectError>,
    reported: Scene<I, V, N>,
    after: Scene<I, V, N>,
) -> bool {
    &&& flush_outcome(before, now, middle, r)
    &&& flush_reported(middle.errors, r, reported.errors)
    &&& reported == (Scene { errors: reported.errors, ..middle })
    &&& match r {
        Ok(_) => after == reported,
        Err(_) => close_outcome(reported, now, after),
    }
}

/// The transcript was to be shown while dictation goes on; `after` came of it.
pub open spec fn live_flushed<I: TextInjector, V: TranscriptNotifier, N: ErrorNotifier>(
    before: Scene<I, V, N>,
    now: u128,
    after: Scene<I, V, N>,
) -> bool {
    exists|middle: Scene<I, V, N>, r: Result<(), InjectError>, reported: Scene<I, V, N>| #[trigger]
        live_flush_outcome(before, now, middle, r, reported, after)
}

/// The scene with another display.
pub open spec fn with_display<I, V, N>(
    scene: Scene<I, V, N>,
    display: DisplayView,
) -> Scene<I, V, N> {
    Scene { text: PartialTextView { display, ..scene.text }, ..scene }
}

/// What comes of a live transcript that has arrived.
pub open spec fn update_outcome<I: TextInjector, V: TranscriptNotifier, N: ErrorNotifier>(
    settings: PartialSettings,
    before: Scene<I, V, N>,
    transcript: Seq<char>,
    now: u128,
    after: Scene<I, V, N>,
) -> bool {
    if !before.text.open {
        after == before
    } else {
        let partial = text::trimmed(transcript);
        let noted = DisplayView { latest: Some(partial), ..before.text.display };
        match update_action(before.text.display, transcript, settings) {
            UpdateAction::Ignore => after == before,
            UpdateAction::Announce => {
                &&& announced(before.text.display, before.notifier, partial, after.notifier)
                &&& after == (Scene {
                    notifier: after.notifier,
                    ..with_display(before, DisplayView { announced: Some(partial), ..noted })
                })
            },
            UpdateAction::Wait => after == with_display(before, waiting(noted, now)),
            UpdateAction::Flush => live_flushed(with_display(before, noted), now, after),
        }
    }
}

/// What comes of the time going by: a change is shown whose time has come.
pub open spec fn tick_outcome<I: TextInjector, V: TranscriptNotifier, N: ErrorNotifier>(
    settings: PartialSettings,
    before: Scene<I, V, N>,
    now: u128,
    after: Scene<I, V, N>,
) -> bool {
    let due = match deadline(before.text.display, settings.chunking) {
        Some(at) => at <= now,
        None => false,
    };
    if before.text.open && due {
        live_flushed(before, now, after)
    } else {
        after == before
    }
}

/// The display after several transcripts were noted, without showing any.
pub open spec fn noted_all(display: DisplayView, transcripts: Seq<Seq<char>>) -> DisplayView
    decreases transcripts.len(),
{
    if transcripts.len() == 0 {
        display
    } else {
        let before = noted_all(display, transcripts.drop_last());
        match text::non_empty(transcripts.last()) {
            Some(partial) => DisplayView { latest: Some(partial), ..before },
            None => before,
        }
    }
}

/// What comes of the wish to show all that has arrived by now.
pub open spec fn drain_outcome<I: TextInjector, V: TranscriptNotifier, N: ErrorNotifier>(
    before: Scene<I, V, N>,
    transcripts: Seq<Seq<char>>,
    now: u128,
    after: Scene<I, V, N>,
    r: Result<(), InjectError>,
) -> bool {
    let noted = with_display(before, noted_all(before.text.display, transcripts));
    if pending(noted.text.display) {
        flush_outcome(noted, now, after, r)
    } else {
        after == noted && r == Ok::<(), InjectError>(())
    }
}

impl<I: TextInjector> PartialText<I> {
    /// What is known of the transcript, its display and the session.
    pub closed spec fn view(&self) -> PartialTextView<I> {
        PartialTextView {
            display: self.display@,
            session: self.text_session@,
            open: self.open,
        }
    }

    /// The transcript together with who is told of it.
    pub open spec fn scene<V, N>(&self, notifier: V, errors: N) -> Scene<I, V, N> {
        Scene { text: self@, notifier, errors }
    }

    /// A transcript of which nothing is known yet.
    pub fn new(text_session: SpeculativeTextSession<I>) -> (r: Self)
        ensures
            r@ == (PartialTextView {
                display: empty_display(),
                session: text_session@,
                open: true,
            }),
    {
        Self { display: PartialDisplayState::new(), text_session, open: true }
    }

    /// No transcript: none is taken before a window is opened.
    pub fn unopened(injector: I) -> (r: Self)
        ensures
            !r@.open,
            r@.display == empty_display(),
            r@.session.aborted,
            r@.session.inserted == Seq::<char>::empty(),
            r@.session.injector == injector,
    {
        Self {
            display: PartialDisplayState::new(),
            text_session: SpeculativeTextSession::unopened(injector),
            open: false,
        }
    }

    /// Begins anew on the window that has the focus.
    pub fn open_window(&mut self) -> (r: Result<(), InjectError>)
        ensures
            inject::session_opened(old(self)@.session, final(self)@.session, r),
            r is Ok ==> final(self)@.open && final(self)@.display == empty_display(),
            r is Err ==> final(self)@.open == old(self)@.open && final(self)@.display == old(
                self,
            )@.display,
    {
        let opened = self.text_session.open();
        if opened.is_ok() {
            self.display = PartialDisplayState::new();
            self.open = true;
        }
        opened
    }

    /// Whether changes are still taken.
    pub fn is_open(&self) -> (r: bool)
        ensures
            r == self@.open,
    {
        self.open
    }

    /// The transcript as it is now.
    pub fn latest_partial(&self) -> (r: Option<&str>)
        ensures
            text::opt_str_view(r) == self@.display.latest,
    {
        self.display.latest_partial()
    }

    /// The text that stands in the window.
    pub fn inserted_text(&self) -> (r: &str)
        ensures
            r@ == self@.session.inserted,
    {
        self.text_session.inserted_text()
    }

    /// When a change that waits is to be shown.
    pub fn flush_deadline(&self, settings: PartialSettings) -> (r: Option<u128>)
        ensures
            r == if self@.open {
                deadline(self@.display, settings.chunking)
            } else {
                None
            },
    {
        if self.open {
            self.display.flush_deadline(settings.chunking)
        } else {
            None
        }
    }

    /// Shows the transcript. Nobody is told of a failure: it is handed back.
    pub fn flush_display<V: TranscriptNotifier>(&mut self, notifier: &mut V, now: u128) -> (r:
        Result<(), InjectError>)
        ensures
            flush_outcome(
                old(self).scene(*old(notifier), NoopErrorNotifier),
                now,
                final(self).scene(*final(notifier), NoopErrorNotifier),
                r,
            ),
    {
        let ghost before = self@;
        let ghost told = *notifier;
        let wanted = text::owned_or_empty(self.display.latest_partial());
        let replaced = self.text_session.replace_text(wanted.as_str());
        proof {
            assert(inject::replacement(before.session, wanted@, self@.session, replaced));
        }
        match replaced {
            Err(error) => Err(error),
            Ok(_) => {
                self.display.displayed_partial = text::clone_optional(&self.display.latest_partial);
                self.display.dirty_started_at = None;
                self.display.last_update_at = None;
                self.display.last_flush_at = Some(now);
                if let Some(partial) = text::clone_optional(&self.display.latest_partial) {
                    self.display.announce_partial(notifier, partial.as_str());
                }
                Ok(())
            },
        }
    }

    /// Takes no more changes; what was not shown yet is shown.
    pub fn close<V: TranscriptNotifier, N: ErrorNotifier>(
        &mut self,
        notifier: &mut V,
        error_notifier: &mut N,
        now: u128,
    )
        ensures
            close_outcome(
                old(self).scene(*old(notifier), *old(error_notifier)),
                now,
                final(self).scene(*final(notifier), *final(error_notifier)),
            ),
    {
        let ghost before = self.scene(*notifier, *error_notifier);
        if self.display.has_pending_partial() {
            let r = self.flush_display(notifier, now);
            let ghost middle = self.scene(*notifier, *error_notifier);
            if let Err(error) = &r {
                let message = error.message();
                notify_failure(
                    error_notifier,
                    "Partial text replacement failed",
                    message.as_str(),
                );
            }
            self.open = false;
            proof {
                assert(flush_outcome(before, now, middle, r));
                assert(closed_by(
                    before,
                    now,
                    middle,
                    r,
                    self.scene(*notifier, *error_notifier),
                ));
            }
        } else {
            self.open = false;
        }
    }

    /// Shows the transcript while dictation goes on.
    fn live_flush<V: TranscriptNotifier, N: ErrorNotifier>(
        &mut self,
        notifier: &mut V,
        error_notifier: &mut N,
        now: u128,
    )
        ensures
            live_flushed(
                old(self).scene(*old(notifier), *old(error_notifier)),
                now,
                final(self).scene(*final(notifier), *final(error_notifier)),
            ),
    {
        let ghost before = self.scene(*notifier, *error_notifier);
        let r = self.flush_display(notifier, now);
        let ghost middle = self.scene(*notifier, *error_notifier);
        if let Err(error) = &r {
            let message = error.message();
            notify_failure(error_notifier, "Partial text replacement failed", message.as_str());
        }
        let ghost reported = self.scene(*notifier, *error_notifier);
        if r.is_err() {
            self.close(notifier, error_notifier, now);
        }
        proof {
            assert(flush_outcome(before, now, middle, r));
            assert(live_flush_outcome(
                before,
                now,
                middle,
                r,
                reported,
                self.scene(*notifier, *error_notifier),
            ));
        }
    }

    /// Takes a live transcript that has arrived.
    pub fn take_update<V: TranscriptNotifier, N: ErrorNotifier>(
        &mut self,
        transcript: &str,
        settings: PartialSettings,
        notifier: &mut V,
        error_notifier: &mut N,
        now: u128,
    )
        ensures
            update_outcome(
                settings,
                old(self).scene(*old(notifier), *old(error_notifier)),
                transcript@,
                now,
                final(self).scene(*final(notifier), *final(error_notifier)),
            ),
    {
        if !self.open {
            return;
        }
        let partial = match normalize_transcript_for_injection(transcript) {
            Some(partial) => partial,
            None => {
                return;
            },
        };
        if !self.display.update_latest_partial(partial.clone()) {
            return;
        }
        if !settings.inline_partials {
            self.display.announce_partial(notifier, partial.as_str());
            return;
        }
        if !settings.chunking.enabled || transcript::ends_at_stable_boundary(transcript) {
            self.live_flush(notifier, error_notifier, now);
        } else {
            self.display.note_pending_flush(now);
        }
    }

    /// Shows a change whose time has come.
    pub fn tick<V: TranscriptNotifier, N: ErrorNotifier>(
        &mut self,
        settings: PartialSettings,
        notifier: &mut V,
        error_notifier: &mut N,
        now: u128,
    )
        ensures
            tick_outcome(
                settings,
                old(self).scene(*old(notifier), *old(error_notifier)),
                now,
                final(self).scene(*final(notifier), *final(error_notifier)),
            ),
    {
        let due = match self.flush_deadline(settings) {
            Some(at) => at <= now,
            None => false,
        };
        if due {
            self.live_flush(notifier, error_notifier, now);
        }
    }

    /// Takes all transcripts that have arrived and shows the last one. Nobody is told of a failure:
    /// it is handed back.
    pub fn drain<V: TranscriptNotifier>(
        &mut self,
        transcripts: &Vec<String>,
        notifier: &mut V,
        now: u128,
    ) -> (r: Result<(), InjectError>)
        ensures
            drain_outcome(
                old(self).scene(*old(notifier), NoopErrorNotifier),
                text::views(transcripts@),
                now,
                final(self).scene(*final(notifier), NoopErrorNotifier),
                r,
            ),
    {
        let ghost all = text::views(transcripts@);
        let ghost before = self@;
        let mut i: usize = 0;
        while i < transcripts.len()
            invariant
                i <= transcripts@.len(),
                all == text::views(transcripts@),
                self@.session == before.session,
                self@.open == before.open,
                self@.display == noted_all(before.display, all.take(i as int)),
                *notifier == *old(notifier),
            decreases transcripts@.len() - i,
        {
            proof {
                assert(all.take(i + 1).drop_last() =~= all.take(i as int));
                assert(all.take(i + 1).last() == transcripts@[i as int]@);
            }
            if let Some(partial) = normalize_transcript_for_injection(transcripts[i].as_str()) {
                let _ = self.display.update_latest_partial(partial);
            }
            i += 1;
        }
        proof {
            assert(all.take(i as int) =~= all);
        }
        if self.display.has_pending_partial() {
            self.flush_display(notifier, now)
        } else {
            Ok(())
        }
    }

    /// Makes `text` of the text that stands in the window.
    pub fn replace_text(&mut self, text: &str) -> (r: Result<bool, InjectError>)
        ensures
            inject::replacement(old(self)@.session, text@, final(self)@.session, r),
            final(self)@.display == old(self)@.display,
            final(self)@.open == old(self)@.open,
    {
        self.text_session.replace_text(text)
    }

    /// Types a marker to the right of the cursor.
    pub fn show_trailing_marker(&mut self, marker: &str) -> (r: Result<bool, InjectError>)
        ensures
            inject::marker_up(old(self)@.session, marker@, final(self)@.session, r),
            final(self)@.display == old(self)@.display,
            final(self)@.open == old(self)@.open,
    {
        self.text_session.show_trailing_marker(marker)
    }

    /// Erases the marker to the right of the cursor.
    pub fn hide_trailing_marker(&mut self) -> (r: Result<bool, InjectError>)
        ensures
            inject::marker_down(old(self)@.session, final(self)@.session, r),
            final(self)@.display == old(self)@.display,
            final(self)@.open == old(self)@.open,
    {
        self.text_session.hide_trailing_marker()
    }
}

/// A change never waits longer than the longest delay after something was shown last, or after
/// the first change that waits.
pub proof fn changes_are_shown_in_time(display: DisplayView, config: PartialChunkingConfig)
    requires
        display.dirty_since is Some,
    ensures
        deadline(display, config) is Some,
        deadline(display, config)->0 <= later(
            match display.last_flush {
                Some(at) => at,
                None => display.dirty_since->0,
            },
            config.max_delay@,
        ),
{
}

/// A further change never puts off the last moment at which waiting changes are shown.
pub proof fn further_changes_keep_the_last_moment(
    display: DisplayView,
    config: PartialChunkingConfig,
    now: u128,
)
    requires
        display.dirty_since is Some,
    ensures
        deadline(waiting(display, now), config)->0 <= later(
            match display.last_flush {
                Some(at) => at,
                None => display.dirty_since->0,
            },
            config.max_delay@,
        ),
        waiting(display, now).dirty_since == display.dirty_since,
{
}

/// Once the transcript was shown, nothing is pending and nothing waits.
pub proof fn shown_transcripts_are_not_pending(
    display: DisplayView,
    config: PartialChunkingConfig,
    now: u128,
)
    ensures
        !pending(shown(display, now)),
        deadline(shown(display, now), config) is None,
{
}

/// A transcript that is empty or as before changes nothing, and nobody is called.
pub proof fn repeated_transcripts_change_nothing<
    I: TextInjector,
    V: TranscriptNotifier,
    N: ErrorNotifier,
>(
    settings: PartialSettings,
    before: Scene<I, V, N>,
    transcript: Seq<char>,
    now: u128,
    after: Scene<I, V, N>,
)
    requires
        update_outcome(settings, before, transcript, now, after),
        text::trimmed(transcript).len() == 0 || before.text.display.latest == Some(
            text::trimmed(transcript),
        ),
    ensures
        after == before,
{
}

/// A live transcript that arrives while changes are taken is from then on the latest one, without
/// the white space at its ends, whatever stood there before: longer or shorter.
pub proof fn the_last_transcript_counts<
    I: TextInjector,
    V: TranscriptNotifier,
    N: ErrorNotifier,
>(
    settings: PartialSettings,
    before: Scene<I, V, N>,
    transcript: Seq<char>,
    now: u128,
    after: Scene<I, V, N>,
)
    requires
        before.text.open,
        text::trimmed(transcript).len() > 0,
        update_outcome(settings, before, transcript, now, after),
    ensures
        after.text.display.latest == Some(text::trimmed(transcript)),
{
    if update_action(before.text.display, transcript, settings) is Flush {
        let noted = with_display(
            before,
            DisplayView { latest: Some(text::trimmed(transcript)), ..before.text.display },
        );
        live_flushes_keep_the_latest(noted, now, after);
    }
}

/// Showing a transcript while dictation goes on leaves the latest one as it is. If changes are
/// still taken then, it stands in the window, and no change waits; if not, showing it has failed,
/// and the user was told.
pub proof fn live_flushes_keep_the_latest<
    I: TextInjector,
    V: TranscriptNotifier,
    N: ErrorNotifier,
>(
    before: Scene<I, V, N>,
    now: u128,
    after: Scene<I, V, N>,
)
    requires
        live_flushed(before, now, after),
    ensures
        after.text.display.latest == before.text.display.latest,
        before.text.open && after.text.open ==> {
            &&& after.text.display.displayed == before.text.display.latest
            &&& after.text.display.dirty_since is None
            &&& after.text.display.last_flush == Some(now)
            &&& after.text.session.inserted == text::or_empty(before.text.display.latest)
            &&& after.errors == before.errors
            &&& before.text.display.latest matches Some(latest) ==> after.text.display.announced
                == Some(latest) && if before.text.display.announced == Some(latest) {
                after.notifier == before.notifier
            } else {
                exists|reply: Result<(), String>| #[trigger]
                    before.notifier.partial_reply(latest, after.notifier, reply)
            }
        },
        before.text.open && !after.text.open ==> exists|
            middle: N,
            body: Seq<char>,
            reply: Result<(), String>,
        | #[trigger]
            before.errors.error_reply(
                notification::DICTATION_ERROR_SUMMARY@,
                body,
                middle,
                reply,
            ),
{
    let (middle, r, reported) = choose|
        middle: Scene<I, V, N>,
        r: Result<(), InjectError>,
        reported: Scene<I, V, N>,
    | #[trigger]
        live_flush_outcome(before, now, middle, r, reported, after);
    match r {
        Ok(_) => {
            let changed = choose|changed: bool| #[trigger]
                inject::replacement(
                    before.text.session,
                    text::or_empty(before.text.display.latest),
                    middle.text.session,
                    Ok::<bool, InjectError>(changed),
                );
            inject::a_replacement_shows_the_text(
                before.text.session,
                text::or_empty(before.text.display.latest),
                middle.text.session,
                Ok::<bool, InjectError>(changed),
            );
        },
        Err(error) => {
            closing_keeps_the_latest(reported, now, after);
            let reply = choose|reply: Result<(), String>| #[trigger]
                before.errors.error_reply(
                    notification::DICTATION_ERROR_SUMMARY@,
                    notification::error_body(
                        "Partial text replacement failed"@,
                        inject::inject_error_text(error),
                    ),
                    reported.errors,
                    reply,
                );
        },
    }
}

/// After closing no more changes are taken. The latest transcript stays what it was, and so does
/// the window if it showed it already.
pub proof fn closing_keeps_the_latest<
    I: TextInjector,
    V: TranscriptNotifier,
    N: ErrorNotifier,
>(
    before: Scene<I, V, N>,
    now: u128,
    after: Scene<I, V, N>,
)
    requires
        close_outcome(before, now, after),
    ensures
        !after.text.open,
        after.text.display.latest == before.text.display.latest,
        before.text.display.displayed == before.text.display.latest ==> after.text.session
            == before.text.session && after.notifier == before.notifier && after.errors
            == before.errors && after.text.display == before.text.display,
        after.notifier == before.notifier || (before.text.display.latest is Some && exists|
            reply: Result<(), String>,
        | #[trigger]
            before.notifier.partial_reply(
                before.text.display.latest->0,
                after.notifier,
                reply,
            )),
        after.text.display.displayed == before.text.display.latest || exists|
            body: Seq<char>,
            reply: Result<(), String>,
        | #[trigger]
            before.errors.error_reply(
                notification::DICTATION_ERROR_SUMMARY@,
                body,
                after.errors,
                reply,
            ),
{
    if before.text.display.latest != before.text.display.displayed {
        let (middle, r) = choose|middle: Scene<I, V, N>, r: Result<(), InjectError>| #[trigger]
            closed_by(before, now, middle, r, after);
        if let Err(error) = r {
            let reply = choose|reply: Result<(), String>| #[trigger]
                before.errors.error_reply(
                    notification::DICTATION_ERROR_SUMMARY@,
                    notification::error_body(
                        "Partial text replacement failed"@,
                        inject::inject_error_text(error),
                    ),
                    after.errors,
                    reply,
                );
        }
    }
}

/// A new transcript is shown at once where changes are not collected, and where it ends behind a
/// word or a punctuation mark: it stands in the window then, if changes are still taken.
pub proof fn finished_words_are_shown_at_once<
    I: TextInjector,
    V: TranscriptNotifier,
    N: ErrorNotifier,
>(
    settings: PartialSettings,
    before: Scene<I, V, N>,
    transcript: Seq<char>,
    now: u128,
    after: Scene<I, V, N>,
)
    requires
        before.text.open,
        text::trimmed(transcript).len() > 0,
        before.text.display.latest != Some(text::trimmed(transcript)),
        settings.inline_partials,
        !settings.chunking.enabled || text::white_space(transcript.last()) || transcript.last()
            == '.' || transcript.last() == ',' || transcript.last() == '!' || transcript.last()
            == '?' || transcript.last() == ';' || transcript.last() == ':' || transcript.last()
            == ')' || transcript.last() == ']' || transcript.last() == '}' || transcript.last()
            == '"' || transcript.last() == '\'',
        update_outcome(settings, before, transcript, now, after),
        after.text.open,
    ensures
        after.text.session.inserted == text::trimmed(transcript),
        after.text.display.displayed == Some(text::trimmed(transcript)),
        after.text.display.latest == Some(text::trimmed(transcript)),
        after.text.display.dirty_since is None,
        after.errors == before.errors,
{
    let noted = with_display(
        before,
        DisplayView { latest: Some(text::trimmed(transcript)), ..before.text.display },
    );
    assert(transcript.len() > 0);
    live_flushes_keep_the_latest(noted, now, after);
}

/// A new transcript that ends within a word waits, where changes are collected: nothing is written
/// and nobody is told, and it has waited since the first change that waits.
pub proof fn words_under_way_wait<
    I: TextInjector,
    V: TranscriptNotifier,
    N: ErrorNotifier,
>(
    settings: PartialSettings,
    before: Scene<I, V, N>,
    transcript: Seq<char>,
    now: u128,
    after: Scene<I, V, N>,
)
    requires
        before.text.open,
        text::trimmed(transcript).len() > 0,
        before.text.display.latest != Some(text::trimmed(transcript)),
        settings.inline_partials,
        settings.chunking.enabled,
        ('a' <= transcript.last() && transcript.last() <= 'z') || ('A' <= transcript.last()
            && transcript.last() <= 'Z') || ('0' <= transcript.last() && transcript.last()
            <= '9'),
        update_outcome(settings, before, transcript, now, after),
    ensures
        after.text.open,
        after.text.session == before.text.session,
        after.notifier == before.notifier,
        after.errors == before.errors,
        after.text.display.latest == Some(text::trimmed(transcript)),
        after.text.display.displayed == before.text.display.displayed,
        after.text.display.announced == before.text.display.announced,
        after.text.display.last_flush == before.text.display.last_flush,
        after.text.display.last_update == Some(now),
        after.text.display.dirty_since == match before.text.display.dirty_since {
            Some(at) => Some(at),
            None => Some(now),
        },
{
}

/// Where transcripts are not shown in the window, a new one is only told: once, and nothing is
/// written.
pub proof fn hidden_transcripts_are_told<
    I: TextInjector,
    V: TranscriptNotifier,
    N: ErrorNotifier,
>(
    settings: PartialSettings,
    before: Scene<I, V, N>,
    transcript: Seq<char>,
    now: u128,
    after: Scene<I, V, N>,
)
    requires
        before.text.open,
        text::trimmed(transcript).len() > 0,
        before.text.display.latest != Some(text::trimmed(transcript)),
        !settings.inline_partials,
        update_outcome(settings, before, transcript, now, after),
    ensures
        after.text.open,
        after.text.session == before.text.session,
        after.errors == before.errors,
        after.text.display.displayed == before.text.display.displayed,
        after.text.display.announced == Some(text::trimmed(transcript)),
        before.text.display.announced == Some(text::trimmed(transcript)) ==> after.notifier
            == before.notifier,
        before.text.display.announced != Some(text::trimmed(transcript)) ==> exists|
            reply: Result<(), String>,
        | #[trigger]
            before.notifier.partial_reply(text::trimmed(transcript), after.notifier, reply),
{
}

/// Once dictation takes no more changes, transcripts that arrive change nothing.
pub proof fn late_transcripts_change_nothing<
    I: TextInjector,
    V: TranscriptNotifier,
    N: ErrorNotifier,
>(
    settings: PartialSettings,
    before: Scene<I, V, N>,
    transcript: Seq<char>,
    now: u128,
    after: Scene<I, V, N>,
)
    requires
        !before.text.open,
        update_outcome(settings, before, transcript, now, after),
    ensures
        after == before,
{
}

/// A change that waits is shown once nothing has changed for the delay, or the longest delay has
/// gone by since something was shown last, or since it waits; and not before.
pub proof fn waiting_changes_are_shown_when_due<
    I: TextInjector,
    V: TranscriptNotifier,
    N: ErrorNotifier,
>(
    settings: PartialSettings,
    before: Scene<I, V, N>,
    now: u128,
    after: Scene<I, V, N>,
)
    requires
        before.text.open,
        tick_outcome(settings, before, now, after),
        before.text.display.dirty_since is Some,
        before.text.display.last_update is Some,
    ensures
        ({
            let display = before.text.display;
            let since = match display.last_flush {
                Some(at) => at,
                None => display.dirty_since->0,
            };
            let due = now - display.last_update->0 >= settings.chunking.delay@ || now - since
                >= settings.chunking.max_delay@;
            &&& due && after.text.open ==> {
                &&& after.text.display.displayed == display.latest
                &&& after.text.session.inserted == text::or_empty(display.latest)
                &&& after.text.display.dirty_since is None
            }
            &&& !due && now < u128::MAX ==> after == before
        }),
{
    let display = before.text.display;
    if deadline(display, settings.chunking)->0 <= now {
        live_flushes_keep_the_latest(before, now, after);
    }
}

/// As long as no change waits, the time that goes by changes nothing.
pub proof fn time_alone_changes_nothing<
    I: TextInjector,
    V: TranscriptNotifier,
    N: ErrorNotifier,
>(
    settings: PartialSettings,
    before: Scene<I, V, N>,
    now: u128,
    after: Scene<I, V, N>,
)
    requires
        tick_outcome(settings, before, now, after),
        before.text.display.dirty_since is None || !before.text.open,
    ensures
        after == before,
{
}

/// Of several transcripts that have arrived, the last one that is not blank is the latest one; if
/// all are blank, the one before stays. If showing it did not fail, it stands in the window.
pub proof fn the_last_that_arrived_counts<
    I: TextInjector,
    V: TranscriptNotifier,
    N: ErrorNotifier,
>(
    before: Scene<I, V, N>,
    transcripts: Seq<Seq<char>>,
    k: int,
    now: u128,
    after: Scene<I, V, N>,
    r: Result<(), InjectError>,
)
    requires
        drain_outcome(before, transcripts, now, after, r),
        -1 <= k < transcripts.len(),
        k >= 0 ==> text::trimmed(transcripts[k]).len() > 0,
        forall|j: int| k < j < transcripts.len() ==> text::trimmed(#[trigger] transcripts[j]).len()
            == 0,
    ensures
        after.text.display.latest == if k >= 0 {
            Some(text::trimmed(transcripts[k]))
        } else {
            before.text.display.latest
        },
        r is Ok ==> after.text.display.displayed == after.text.display.latest,
        r is Ok && before.text.display.displayed != after.text.display.latest
            ==> after.text.session.inserted == text::or_empty(after.text.display.latest),
        before.text.display.displayed == after.text.display.latest ==> after.text.session
            == before.text.session && r is Ok,
        r is Err ==> after.text.display.displayed == before.text.display.displayed
            && after.text.session.inserted == before.text.session.inserted,
        after.errors == before.errors,
        after.text.open == before.text.open,
{
    let display = noted_all(before.text.display, transcripts);
    last_noted(before.text.display, transcripts, k);
    if display.latest != display.displayed {
        let wanted = text::or_empty(display.latest);
        match r {
            Ok(_) => {
                let changed = choose|changed: bool| #[trigger]
                    inject::replacement(
                        before.text.session,
                        wanted,
                        after.text.session,
                        Ok::<bool, InjectError>(changed),
                    );
                inject::a_replacement_shows_the_text(
                    before.text.session,
                    wanted,
                    after.text.session,
                    Ok::<bool, InjectError>(changed),
                );
            },
            Err(error) => {
                inject::a_replacement_shows_the_text(
                    before.text.session,
                    wanted,
                    after.text.session,
                    Err::<bool, InjectError>(error),
                );
            },
        }
    }
}

proof fn last_noted(display: DisplayView, transcripts: Seq<Seq<char>>, k: int)
    requires
        -1 <= k < transcripts.len(),
        k >= 0 ==> text::trimmed(transcripts[k]).len() > 0,
        forall|j: int| k < j < transcripts.len() ==> text::trimmed(#[trigger] transcripts[j]).len()
            == 0,
    ensures
        noted_all(display, transcripts) == (DisplayView {
            latest: if k >= 0 {
                Some(text::trimmed(transcripts[k]))
            } else {
                display.latest
            },
            ..display
        }),
    decreases transcripts.len(),
{
    if transcripts.len() > 0 {
        let most = transcripts.drop_last();
        if k == transcripts.len() - 1 {
            only_the_latest_is_noted(display, most);
        } else {
            assert(text::trimmed(transcripts[transcripts.len() - 1]).len() == 0);
            last_noted(display, most, k);
        }
    }
}

proof fn only_the_latest_is_noted(display: DisplayView, transcripts: Seq<Seq<char>>)
    ensures
        noted_all(display, transcripts) == (DisplayView {
            latest: noted_all(display, transcripts).latest,
            ..display
        }),
    decreases transcripts.len(),
{
    if transcripts.len() > 0 {
        only_the_latest_is_noted(display, transcripts.drop_last());
    }
}

/// A change that waits is shown when nothing has changed for the delay, or when the longest delay
/// has gone by since something was shown last, or else since the first change that waits, whichever
/// comes first.
pub proof fn the_earlier_moment_counts(display: DisplayView, config: PartialChunkingConfig, at: u128)
    requires
        deadline(display, config) == Some(at),
        at < u128::MAX,
    ensures
        display.dirty_since is Some,
        ({
            let quiet = match display.last_update {
                Some(update) => update,
                None => display.dirty_since->0,
            } + config.delay@;
            let longest = match display.last_flush {
                Some(flush) => flush,
                None => display.dirty_since->0,
            } + config.max_delay@;
            at <= quiet && at <= longest && (at == quiet || at == longest)
        }),
{
}

} // verus!
