//! What the user is told while dictating.

use vstd::prelude::*;
use vstd::string::*;

use crate::single::Single;
use crate::text;

verus! {

pub const DICTATION_ERROR_SUMMARY: &'static str = "Speaches Companion dictation failed";

pub const DICTATION_PARTIAL_SUMMARY: &'static str = "Speaches Companion dictating";

pub const DICTATION_FINAL_SUMMARY: &'static str = "Speaches Companion dictation";

pub const HOTKEY_ERROR_SUMMARY: &'static str = "Speaches Companion hotkey failed";

pub const READ_ALOUD_ERROR_SUMMARY: &'static str = "Speaches Companion read-aloud failed";

pub const WAKEWORD_DETECTED_SUMMARY: &'static str = "Speaches Companion wakeword";

/// The number under which transcripts replace one another on the desktop.
pub const TRANSCRIPT_NOTIFICATION_ID: u32 = 0x7472_6563;

/// The number under which wakewords replace one another on the desktop.
pub const WAKEWORD_NOTIFICATION_ID: u32 = 0x7761_6b65;

/// How many characters of a transcript a notification shows.
pub const MAX_BODY_CHARS: usize = 240;

/// What tells the user of failures.
///
/// `error_reply` holds of the answers that an implementation may give, and of the state that it may
/// have then.
pub trait ErrorNotifier: Send + Sync + Sized {
    open spec fn error_reply(
        &self,
        summary: Seq<char>,
        body: Seq<char>,
        after: Self,
        reply: Result<(), String>,
    ) -> bool {
        true
    }

    /// Tells of a failure.
    fn notify_error(&mut self, summary: &str, body: &str) -> (r: Result<(), String>)
        ensures
            old(self).error_reply(summary@, body@, *final(self), r),
    ;
}

/// What tells the user of transcripts.
///
/// Each `.._reply` relation holds of the answers that an implementation may give, and of the state
/// that it may have then.
pub trait TranscriptNotifier: Send + Sync + Sized {
    open spec fn listening_reply(&self, after: Self, reply: Result<(), String>) -> bool {
        true
    }

    open spec fn partial_reply(
        &self,
        transcript: Seq<char>,
        after: Self,
        reply: Result<(), String>,
    ) -> bool {
        true
    }

    open spec fn final_reply(
        &self,
        transcript: Seq<char>,
        after: Self,
        reply: Result<(), String>,
    ) -> bool {
        true
    }

    /// Tells that dictation has begun.
    fn notify_listening(&mut self) -> (r: Result<(), String>)
        ensures
            old(self).listening_reply(*final(self), r),
    ;

    /// Tells what was understood so far.
    fn notify_partial(&mut self, transcript: &str) -> (r: Result<(), String>)
        ensures
            old(self).partial_reply(transcript@, *final(self), r),
    ;

    /// Tells what was understood in the end.
    fn notify_final(&mut self, transcript: &str) -> (r: Result<(), String>)
        ensures
            old(self).final_reply(transcript@, *final(self), r),
    ;
}

/// Tells nobody of failures.
#[derive(Debug, Clone, Copy, PartialEq, Eq, Structural)]
pub struct NoopErrorNotifier;

impl ErrorNotifier for NoopErrorNotifier {
    open spec fn error_reply(
        &self,
        summary: Seq<char>,
        body: Seq<char>,
        after: Self,
        reply: Result<(), String>,
    ) -> bool {
        reply is Ok
    }

    fn notify_error(&mut self, _summary: &str, _body: &str) -> (r: Result<(), String>) {
        Ok(())
    }
}

/// Tells nobody of transcripts.
#[derive(Debug, Clone, Copy, PartialEq, Eq, Structural)]
pub struct NoopTranscriptNotifier;

impl TranscriptNotifier for NoopTranscriptNotifier {
    open spec fn listening_reply(&self, after: Self, reply: Result<(), String>) -> bool {
        reply is Ok
    }

    open spec fn partial_reply(
        &self,
        transcript: Seq<char>,
        after: Self,
        reply: Result<(), String>,
    ) -> bool {
        reply is Ok
    }

    open spec fn final_reply(
        &self,
        transcript: Seq<char>,
        after: Self,
        reply: Result<(), String>,
    ) -> bool {
        reply is Ok
    }

    fn notify_listening(&mut self) -> (r: Result<(), String>) {
        Ok(())
    }

    fn notify_partial(&mut self, _transcript: &str) -> (r: Result<(), String>) {
        Ok(())
    }

    fn notify_final(&mut self, _transcript: &str) -> (r: Result<(), String>) {
        Ok(())
    }
}

/// The user was told that dictation has begun: the notifier got this call, and no other.
pub open spec fn listening_told<V: TranscriptNotifier>(before: V, after: V) -> bool {
    exists|reply: Result<(), String>| #[trigger] before.listening_reply(after, reply)
}

/// The user was told of a live transcript: the notifier got this call, and no other.
pub open spec fn partial_told<V: TranscriptNotifier>(
    before: V,
    transcript: Seq<char>,
    after: V,
) -> bool {
    exists|reply: Result<(), String>| #[trigger] before.partial_reply(transcript, after, reply)
}

/// The user was told of the final transcript: the notifier got this call, and no other.
pub open spec fn final_told<V: TranscriptNotifier>(
    before: V,
    transcript: Seq<char>,
    after: V,
) -> bool {
    exists|reply: Result<(), String>| #[trigger] before.final_reply(transcript, after, reply)
}

/// The body of a notification on a failure: the stage that failed, and why.
pub open spec fn error_body(stage: Seq<char>, error: Seq<char>) -> Seq<char> {
    stage + ": "@ + error
}

/// The body of a notification on a failure: the stage that failed, and why.
pub fn dictation_error_body(stage: &str, error: &str) -> (r: String)
    ensures
        r@ == error_body(stage@, error@),
{
    let mut out = stage.to_owned();
    out.append(": ");
    out.append(error);
    out
}

/// The first characters of a text, with dots if some are missing.
pub open spec fn shortened(body: Seq<char>, max: nat) -> Seq<char> {
    if body.len() > max {
        body.take(max as int) + "..."@
    } else {
        body
    }
}

/// A transcript as a notification shows it.
pub fn truncate_notification_body(body: &str) -> (r: String)
    ensures
        r@ == shortened(body@, MAX_BODY_CHARS as nat),
{
    if body.unicode_len() > MAX_BODY_CHARS {
        let head = body.substring_char(0, MAX_BODY_CHARS);
        proof {
            assert(head@ =~= body@.take(MAX_BODY_CHARS as int));
        }
        let mut out = head.to_owned();
        out.append("...");
        out
    } else {
        body.to_owned()
    }
}

/// A notification shows a short transcript whole, and of a long one as much as fits.
pub proof fn notification_bodies_are_bounded(body: Seq<char>, max: nat)
    ensures
        body.len() <= max ==> shortened(body, max) == body,
        shortened(body, max).len() <= max + 3,
        shortened(body, max).take(
            if body.len() <= max {
                body.len() as int
            } else {
                max as int
            },
        ) == body.take(
            if body.len() <= max {
                body.len() as int
            } else {
                max as int
            },
        ),
{
    reveal_strlit("...");
    if body.len() > max {
        assert(shortened(body, max).take(max as int) =~= body.take(max as int));
    }
}

/// The user was told of an error: the notifier got this call, and no other.
pub open spec fn error_told<N: ErrorNotifier>(
    before: N,
    summary: Seq<char>,
    body: Seq<char>,
    after: N,
) -> bool {
    exists|reply: Result<(), String>| #[trigger] before.error_reply(summary, body, after, reply)
}

/// The user was told of a failure at a stage of a dictation.
pub open spec fn failure_told<N: ErrorNotifier>(
    before: N,
    stage: Seq<char>,
    error: Seq<char>,
    after: N,
) -> bool {
    error_told(before, DICTATION_ERROR_SUMMARY@, error_body(stage, error), after)
}

/// Tells of a failure at a stage. What the notifier answers is not looked at.
pub fn notify_failure<N: ErrorNotifier>(notifier: &mut N, stage: &str, error: &str)
    ensures
        failure_told(*old(notifier), stage@, error@, *final(notifier)),
{
    let body = dictation_error_body(stage, error);
    let _ = notifier.notify_error(DICTATION_ERROR_SUMMARY, body.as_str());
}

/// Tells that a hotkey could not be passed on. Hands back what the notifier answers.
pub fn notify_hotkey_failure<N: ErrorNotifier>(notifier: &mut N, error: &str) -> (r: Result<
    (),
    String,
>)
    ensures
        old(notifier).error_reply(HOTKEY_ERROR_SUMMARY@, error@, *final(notifier), r),
{
    notifier.notify_error(HOTKEY_ERROR_SUMMARY, error)
}

/// How a hotkey command ends.
#[derive(Debug)]
pub struct HotkeyEnd {
    /// What is printed, if anything.
    pub line: Option<String>,
    pub exit_code: u8,
    /// What the notifier answered, if it was asked.
    pub told: Result<(), String>,
}

/// How a hotkey command ends, given the daemon's answer, or why there was none: the user is told of
/// a failure, and only of that.
pub fn finish_hotkey<N: ErrorNotifier>(notifier: &mut N, answer: Result<String, String>) -> (r:
    HotkeyEnd)
    ensures
        match answer {
            Ok(response) => {
                &&& r.exit_code == 0
                &&& text::opt_view(r.line) == if response@.len() == 0 {
                    None
                } else {
                    Some(response@)
                }
                &&& r.told is Ok
                &&& *final(notifier) == *old(notifier)
            },
            Err(error) => {
                &&& r.exit_code == 1
                &&& text::opt_view(r.line) == Some("speaches-companion hotkey failed: "@ + error@)
                &&& old(notifier).error_reply(
                    HOTKEY_ERROR_SUMMARY@,
                    error@,
                    *final(notifier),
                    r.told,
                )
            },
        },
{
    match answer {
        Ok(response) => {
            let line = if response.as_str().unicode_len() == 0 {
                None
            } else {
                Some(response)
            };
            HotkeyEnd { line, exit_code: 0, told: Ok(()) }
        },
        Err(error) => {
            let mut line = "speaches-companion hotkey failed: ".to_owned();
            line.append(error.as_str());
            let told = notify_hotkey_failure(notifier, error.as_str());
            HotkeyEnd { line: Some(line), exit_code: 1, told }
        },
    }
}

/// Tells that text could not be read aloud. Hands back what the notifier answers.
pub fn notify_read_aloud_failure<N: ErrorNotifier>(notifier: &mut N, error: &str) -> (r: Result<
    (),
    String,
>)
    ensures
        old(notifier).error_reply(READ_ALOUD_ERROR_SUMMARY@, error@, *final(notifier), r),
{
    notifier.notify_error(READ_ALOUD_ERROR_SUMMARY, error)
}

/// What tells the user that the wakeword was heard.
///
/// `detected_reply` holds of the answers that an implementation may give, and of the state that it
/// may have then.
pub trait WakewordNotifier: Send + Sync + Sized {
    open spec fn detected_reply(
        &self,
        name: Seq<char>,
        score: Single,
        after: Self,
        reply: Result<(), String>,
    ) -> bool {
        true
    }

    /// Tells which wakeword was heard, and how surely.
    fn notify_detected(&mut self, name: &str, score: Single) -> (r: Result<(), String>)
        ensures
            old(self).detected_reply(name@, score, *final(self), r),
    ;
}

/// Tells nobody of wakewords.
#[derive(Debug, Clone, Copy, PartialEq, Eq, Structural)]
pub struct NoopWakewordNotifier;

impl WakewordNotifier for NoopWakewordNotifier {
    open spec fn detected_reply(
        &self,
        name: Seq<char>,
        score: Single,
        after: Self,
        reply: Result<(), String>,
    ) -> bool {
        reply is Ok
    }

    fn notify_detected(&mut self, _name: &str, _score: Single) -> (r: Result<(), String>) {
        Ok(())
    }
}

/// How long a notification on a dictation under way is shown, in milliseconds.
pub const PARTIAL_TIMEOUT_MS: u32 = 2_000;

/// How long a notification on a final transcript is shown, in milliseconds.
pub const FINAL_TIMEOUT_MS: u32 = 3_000;

/// A notification on a transcript.
#[derive(Debug, Clone, PartialEq, Eq)]
pub struct TranscriptNotification {
    pub summary: &'static str,
    pub body: String,
    /// How long it is shown, in milliseconds.
    pub timeout_ms: u32,
}

/// The notification that dictation has begun.
pub fn listening_notification() -> (r: TranscriptNotification)
    ensures
        r.summary@ == DICTATION_PARTIAL_SUMMARY@,
        r.body@ == "listening..."@,
        r.timeout_ms == PARTIAL_TIMEOUT_MS,
{
    TranscriptNotification {
        summary: DICTATION_PARTIAL_SUMMARY,
        body: "listening...".to_owned(),
        timeout_ms: PARTIAL_TIMEOUT_MS,
    }
}

/// The notification on what was understood so far.
pub fn partial_notification(transcript: &str) -> (r: TranscriptNotification)
    ensures
        r.summary@ == DICTATION_PARTIAL_SUMMARY@,
        r.body@ == shortened(transcript@, MAX_BODY_CHARS as nat),
        r.timeout_ms == PARTIAL_TIMEOUT_MS,
{
    TranscriptNotification {
        summary: DICTATION_PARTIAL_SUMMARY,
        body: truncate_notification_body(transcript),
        timeout_ms: PARTIAL_TIMEOUT_MS,
    }
}

/// The notification on what was understood in the end.
pub fn final_notification(transcript: &str) -> (r: TranscriptNotification)
    ensures
        r.summary@ == DICTATION_FINAL_SUMMARY@,
        r.body@ == shortened(transcript@, MAX_BODY_CHARS as nat),
        r.timeout_ms == FINAL_TIMEOUT_MS,
{
    TranscriptNotification {
        summary: DICTATION_FINAL_SUMMARY,
        body: truncate_notification_body(transcript),
        timeout_ms: FINAL_TIMEOUT_MS,
    }
}

/// A transcript that is too long is cut just where it gets so, and dots tell of it.
pub proof fn long_bodies_are_cut(body: Seq<char>, max: nat)
    ensures
        body.len() > max ==> shortened(body, max) == body.take(max as int) + seq!['.', '.', '.'],
        body.len() <= max ==> shortened(body, max) == body,
{
    reveal_strlit("...");
    assert("..."@ =~= seq!['.', '.', '.']);
}

/// A failure is told by the stage that failed and why, with a colon between, under the summary for
/// dictation; the notifier gets this one call.
pub proof fn failures_name_their_stage<N: ErrorNotifier>(
    before: N,
    stage: Seq<char>,
    error: Seq<char>,
    after: N,
)
    requires
        failure_told(before, stage, error, after),
    ensures
        exists|reply: Result<(), String>| #[trigger]
            before.error_reply(
                "Speaches Companion dictation failed"@,
                stage + ": "@ + error,
                after,
                reply,
            ),
{
}

} // verus!
