//! Writing dictated text into the focused window.

use vstd::prelude::*;
use vstd::string::*;

use crate::text;

verus! {

/// How long a pasted text is left on the clipboard by default, in milliseconds.
pub const DEFAULT_PASTE_SETTLE_DELAY_MS: u64 = 120;

/// A window that has the keyboard focus, by its number.
#[derive(Debug, Clone, Copy, PartialEq, Eq, Structural)]
pub struct FocusedWindow(pub u64);

/// Why text could not be written.
#[derive(Debug, Clone, PartialEq, Eq)]
pub enum InjectError {
    /// The injector cannot erase this many characters.
    EraseUnsupported { count: usize },
    /// The injector cannot move the cursor by this many characters.
    CursorUnsupported { count: usize },
    /// The session was given up earlier.
    TargetUnsafe,
    /// No window has the focus.
    FocusUnavailable,
    /// Another window has the focus.
    FocusChanged { from: u64, to: u64 },
    /// What an injector reports of itself.
    Backend(String),
}

/// The text of an [`InjectError`].
pub open spec fn inject_error_text(e: InjectError) -> Seq<char> {
    match e {
        InjectError::EraseUnsupported { count } => "text injector does not support erasing "@
            + text::decimal(count as nat) + " characters"@,
        InjectError::CursorUnsupported { count } =>
            "text injector does not support moving the cursor by "@ + text::decimal(count as nat)
                + " characters"@,
        InjectError::TargetUnsafe => "dictation target is no longer safe for replacement"@,
        InjectError::FocusUnavailable =>
            "focused desktop target is unavailable; aborting replacement"@,
        InjectError::FocusChanged { from, to } => "focused desktop target changed from "@
            + text::decimal(from as nat) + " to "@ + text::decimal(to as nat)
            + "; aborting replacement"@,
        InjectError::Backend(message) => message@,
    }
}

impl InjectError {
    /// The text of this error.
    pub fn message(&self) -> (r: String)
        ensures
            r@ == inject_error_text(*self),
    {
        match self {
            InjectError::EraseUnsupported { count } => {
                let mut out = "text injector does not support erasing ".to_owned();
                out.append(text::decimal_text(*count as u128).as_str());
                out.append(" characters");
                out
            },
            InjectError::CursorUnsupported { count } => {
                let mut out = "text injector does not support moving the cursor by ".to_owned();
                out.append(text::decimal_text(*count as u128).as_str());
                out.append(" characters");
                out
            },
            InjectError::TargetUnsafe =>
                "dictation target is no longer safe for replacement".to_owned(),
            InjectError::FocusUnavailable =>
                "focused desktop target is unavailable; aborting replacement".to_owned(),
            InjectError::FocusChanged { from, to } => {
                let mut out = "focused desktop target changed from ".to_owned();
                out.append(text::decimal_text(*from as u128).as_str());
                out.append(" to ");
                out.append(text::decimal_text(*to as u128).as_str());
                out.append("; aborting replacement");
                out
            },
            InjectError::Backend(message) => message.clone(),
        }
    }
}

/// The answer of an injector that cannot erase.
pub open spec fn no_erasure(count: usize) -> Result<(), InjectError> {
    if count == 0 {
        Ok(())
    } else {
        Err(InjectError::EraseUnsupported { count })
    }
}

/// The answer of an injector that cannot move the cursor.
pub open spec fn no_movement(count: usize) -> Result<(), InjectError> {
    if count == 0 {
        Ok(())
    } else {
        Err(InjectError::CursorUnsupported { count })
    }
}

/// What writes text into the focused window.
///
/// Each `.._reply` relation holds of the answers that an implementation may give to the call of
/// the same name with those arguments, and of the state that it may have then. A session that
/// goes from one state to the next by such a step has made that call, and no other.
pub trait TextInjector: Send + Sync + Sized {
    open spec fn inject_reply(
        &self,
        text: Seq<char>,
        after: Self,
        reply: Result<(), InjectError>,
    ) -> bool {
        true
    }

    open spec fn marker_reply(&self, after: Self, reply: Result<bool, InjectError>) -> bool {
        true
    }

    open spec fn enter_reply(&self, after: Self, reply: Result<(), InjectError>) -> bool {
        true
    }

    open spec fn erase_reply(
        &self,
        count: usize,
        after: Self,
        reply: Result<(), InjectError>,
    ) -> bool {
        true
    }

    open spec fn left_reply(
        &self,
        count: usize,
        after: Self,
        reply: Result<(), InjectError>,
    ) -> bool {
        true
    }

    open spec fn right_reply(
        &self,
        count: usize,
        after: Self,
        reply: Result<(), InjectError>,
    ) -> bool {
        true
    }

    open spec fn tail_reply(
        &self,
        erase_count: usize,
        text_suffix: Seq<char>,
        after: Self,
        reply: Result<(), InjectError>,
    ) -> bool {
        true
    }

    open spec fn focus_reply(
        &self,
        after: Self,
        reply: Result<Option<FocusedWindow>, InjectError>,
    ) -> bool {
        true
    }

    /// Types `text`.
    fn inject_text(&mut self, text: &str) -> (r: Result<(), InjectError>)
        ensures
            old(self).inject_reply(text@, *final(self), r),
    ;

    /// Whether a marker may be shown while listening.
    fn should_show_listening_marker(&mut self) -> (r: Result<bool, InjectError>)
        ensures
            old(self).marker_reply(*final(self), r),
    ;

    /// Presses the enter key. [`TextInjector::type_enter`] does so by typing a
    /// newline.
    fn press_enter(&mut self) -> (r: Result<(), InjectError>)
        ensures
            old(self).enter_reply(*final(self), r),
    ;

    /// Erases characters to the left of the cursor. [`erasing_unsupported`] is the answer of an
    /// injector that cannot.
    fn erase_chars(&mut self, count: usize) -> (r: Result<(), InjectError>)
        ensures
            old(self).erase_reply(count, *final(self), r),
    ;

    /// Moves the cursor to the left. [`moving_unsupported`] is the answer of an injector that
    /// cannot.
    fn move_cursor_left(&mut self, count: usize) -> (r: Result<(), InjectError>)
        ensures
            old(self).left_reply(count, *final(self), r),
    ;

    /// Moves the cursor to the right. [`moving_unsupported`] is the answer of an injector that
    /// cannot.
    fn move_cursor_right(&mut self, count: usize) -> (r: Result<(), InjectError>)
        ensures
            old(self).right_reply(count, *final(self), r),
    ;

    /// Erases characters to the left of the cursor, then types `text_suffix`.
    /// [`TextInjector::erase_and_type`] does so by two calls.
    fn replace_tail(&mut self, erase_count: usize, text_suffix: &str) -> (r: Result<
        (),
        InjectError,
    >)
        ensures
            old(self).tail_reply(erase_count, text_suffix@, *final(self), r),
    ;

    /// The window that has the focus, if the injector can tell.
    fn focused_window(&mut self) -> (r: Result<Option<FocusedWindow>, InjectError>)
        ensures
            old(self).focus_reply(*final(self), r),
    ;

    /// Presses the enter key by typing a newline.
    fn type_enter(&mut self) -> (r: Result<(), InjectError>)
        ensures
            old(self).inject_reply("\n"@, *final(self), r),
    {
        self.inject_text("\n")
    }

    /// Erases characters to the left of the cursor by one call and, unless this failed, types
    /// `text_suffix` by another.
    fn erase_and_type(&mut self, erase_count: usize, text_suffix: &str) -> (r: Result<
        (),
        InjectError,
    >)
        ensures
            exists|middle: Self, erased: Result<(), InjectError>|
                {
                    &&& #[trigger] old(self).erase_reply(erase_count, middle, erased)
                    &&& match erased {
                        Ok(_) => middle.inject_reply(text_suffix@, *final(self), r),
                        Err(error) => *final(self) == middle && r == Err::<(), InjectError>(error),
                    }
                },
    {
        let ghost before = *self;
        let erased = self.erase_chars(erase_count);
        proof {
            assert(before.erase_reply(erase_count, *self, erased));
        }
        match erased {
            Ok(()) => self.inject_text(text_suffix),
            Err(error) => Err(error),
        }
    }
}

/// The answer of an injector that cannot erase.
pub fn erasing_unsupported(count: usize) -> (r: Result<(), InjectError>)
    ensures
        r == no_erasure(count),
{
    if count == 0 {
        return Ok(());
    }
    Err(InjectError::EraseUnsupported { count })
}

/// The answer of an injector that cannot move the cursor.
pub fn moving_unsupported(count: usize) -> (r: Result<(), InjectError>)
    ensures
        r == no_movement(count),
{
    if count == 0 {
        return Ok(());
    }
    Err(InjectError::CursorUnsupported { count })
}

/// How many characters two texts have in common at the start.
pub open spec fn common_prefix(left: Seq<char>, right: Seq<char>) -> nat
    decreases left.len(),
{
    if left.len() == 0 || right.len() == 0 || left[0] != right[0] {
        0
    } else {
        1 + common_prefix(left.drop_first(), right.drop_first())
    }
}

/// The common prefix is as long as given if the texts agree that far and no further.
proof fn common_prefix_is(left: Seq<char>, right: Seq<char>, n: nat)
    requires
        n <= left.len(),
        n <= right.len(),
        forall|i: int| 0 <= i < n ==> left[i] == right[i],
        n == left.len() || n == right.len() || left[n as int] != right[n as int],
    ensures
        common_prefix(left, right) == n,
    decreases n,
{
    if n > 0 {
        common_prefix_is(left.drop_first(), right.drop_first(), (n - 1) as nat);
    }
}

/// The common prefix is a prefix of both texts, and the two differ behind it.
pub proof fn common_prefix_is_common(left: Seq<char>, right: Seq<char>)
    ensures
        common_prefix(left, right) <= left.len(),
        common_prefix(left, right) <= right.len(),
        left.take(common_prefix(left, right) as int) == right.take(
            common_prefix(left, right) as int,
        ),
        common_prefix(left, right) < left.len() && common_prefix(left, right) < right.len()
            ==> left[common_prefix(left, right) as int]
            != right[common_prefix(left, right) as int],
    decreases left.len(),
{
    let n = common_prefix(left, right) as int;
    if left.len() > 0 && right.len() > 0 && left[0] == right[0] {
        let l = left.drop_first();
        let r = right.drop_first();
        common_prefix_is_common(l, r);
        assert(left.take(n) =~= seq![left[0]] + l.take(n - 1));
        assert(right.take(n) =~= seq![right[0]] + r.take(n - 1));
    } else {
        assert(left.take(n) =~= right.take(n));
    }
}

/// How many characters two texts have in common at the start.
pub fn common_prefix_len(left: &str, right: &str) -> (r: usize)
    ensures
        r == common_prefix(left@, right@),
        r <= left@.len(),
        r <= right@.len(),
{
    let l = text::chars_of(left);
    let r = text::chars_of(right);
    let mut n: usize = 0;
    while n < l.len() && n < r.len() && l[n] == r[n]
        invariant
            n <= l@.len(),
            n <= r@.len(),
            forall|i: int| 0 <= i < n ==> l@[i] == r@[i],
        decreases l@.len() - n,
    {
        n += 1;
    }
    proof {
        common_prefix_is(left@, right@, n as nat);
    }
    n
}

/// How many characters have to go from the end of `before` to make `after` of it.
pub open spec fn erased_tail(before: Seq<char>, after: Seq<char>) -> nat {
    (before.len() - common_prefix(before, after)) as nat
}

/// What has to be typed after the erasure to make `after` of `before`.
pub open spec fn typed_tail(before: Seq<char>, after: Seq<char>) -> Seq<char> {
    after.skip(common_prefix(before, after) as int)
}

/// Erasing the tail and typing the new one makes the new text of the old one. Nothing less can be
/// erased for it, and a text that only grew is not erased from.
pub proof fn tail_replacement_gives_the_new_text(before: Seq<char>, after: Seq<char>)
    ensures
        erased_tail(before, after) <= before.len(),
        before.take(before.len() - erased_tail(before, after)) + typed_tail(before, after)
            == after,
        forall|kept: int, typed: Seq<char>|
            0 <= kept <= before.len() && #[trigger] (before.take(kept) + typed) == after
                ==> erased_tail(before, after) <= before.len() - kept,
        text::begins(after, before) ==> erased_tail(before, after) == 0,
{
    common_prefix_is_common(before, after);
    let n = common_prefix(before, after) as int;
    assert(before.take(n) + after.skip(n) =~= after.take(n) + after.skip(n));
    assert(after.take(n) + after.skip(n) =~= after);
    assert forall|kept: int, typed: Seq<char>|
        0 <= kept <= before.len() && #[trigger] (before.take(kept) + typed) == after implies
        erased_tail(before, after) <= before.len() - kept by {
        if n < kept {
            assert((before.take(kept) + typed)[n] == before[n]);
        }
    }
    if text::begins(after, before) {
        assert forall|i: int| 0 <= i < before.len() implies before[i] == after[i] by {
            assert(after.take(before.len() as int)[i] == after[i]);
        }
        common_prefix_is(before, after, before.len());
    }
}

/// What a speculative session knows, and the state of its injector.
pub struct SessionView<I> {
    /// The window that had the focus at the start, if the injector could tell.
    pub target: Option<FocusedWindow>,
    /// The text that stands in the window.
    pub inserted: Seq<char>,
    /// Whether the session was given up.
    pub aborted: bool,
    /// How many characters the marker to the right of the cursor has.
    pub marker: nat,
    /// What writes.
    pub injector: I,
}

/// Text that is written before it is final, and replaced as it changes.
pub struct SpeculativeTextSession<I: TextInjector> {
    injector: I,
    target_window: Option<FocusedWindow>,
    inserted_text: String,
    aborted: bool,
    marker_chars: usize,
}

/// How a text becomes another: how much is erased at its end, and what is typed then.
#[derive(Debug, Clone, PartialEq, Eq)]
pub struct EditPlan {
    pub erase: usize,
    pub suffix: String,
}

/// The session on a window, before anything was written.
pub open spec fn fresh_session<I>(target: Option<FocusedWindow>, injector: I) -> SessionView<I> {
    SessionView { target, inserted: seq![], aborted: false, marker: 0, injector }
}

/// The session with its injector in another state.
pub open spec fn with_injector<I>(session: SessionView<I>, injector: I) -> SessionView<I> {
    SessionView { injector, ..session }
}

/// A session was opened: the focused window was asked for, and nothing else, and `after` and `r`
/// came of the answer.
pub open spec fn session_opened<I: TextInjector>(
    before: SessionView<I>,
    after: SessionView<I>,
    r: Result<(), InjectError>,
) -> bool {
    match r {
        Ok(_) => before.injector.focus_reply(
            after.injector,
            Ok::<Option<FocusedWindow>, InjectError>(after.target),
        ) && after == fresh_session(after.target, after.injector),
        Err(error) => before.injector.focus_reply(
            after.injector,
            Err::<Option<FocusedWindow>, InjectError>(error),
        ) && after == with_injector(before, after.injector),
    }
}

/// Whether an edit of the session has to ask for the focused window.
pub open spec fn asks_focus<I>(session: SessionView<I>) -> bool {
    !session.aborted && session.target is Some
}

/// What is made of the focused window before an edit.
pub open spec fn focus_verdict<I>(
    session: SessionView<I>,
    focus: Result<Option<FocusedWindow>, InjectError>,
) -> Result<(), InjectError> {
    if session.aborted {
        Err(InjectError::TargetUnsafe)
    } else if session.target is None {
        Ok(())
    } else {
        match focus {
            Err(error) => Err(error),
            Ok(None) => Err(InjectError::FocusUnavailable),
            Ok(Some(current)) => if current == session.target->0 {
                Ok(())
            } else {
                Err(InjectError::FocusChanged { from: (session.target->Some_0).0, to: current.0 })
            },
        }
    }
}

/// The session after the focused window was asked for: it is given up if the focus went to
/// another window, or to none.
pub open spec fn after_focus<I>(
    session: SessionView<I>,
    focus: Result<Option<FocusedWindow>, InjectError>,
) -> SessionView<I> {
    SessionView {
        aborted: session.aborted || (asks_focus(session) && focus is Ok && focus->Ok_0
            != session.target),
        ..session
    }
}

/// The focused window was asked for where the session has to, and nothing else; `focus` is the
/// answer, and `after` and `r` came of it.
pub open spec fn focus_checked<I: TextInjector>(
    before: SessionView<I>,
    focus: Result<Option<FocusedWindow>, InjectError>,
    after: SessionView<I>,
    r: Result<(), InjectError>,
) -> bool {
    &&& if asks_focus(before) {
        before.injector.focus_reply(after.injector, focus)
    } else {
        after.injector == before.injector
    }
    &&& after == with_injector(after_focus(before, focus), after.injector)
    &&& r == focus_verdict(before, focus)
}

/// The focused window was asked for where the session has to, and nothing else; `after` and `r`
/// came of the answer.
pub open spec fn focus_settled<I: TextInjector>(
    before: SessionView<I>,
    after: SessionView<I>,
    r: Result<(), InjectError>,
) -> bool {
    exists|focus: Result<Option<FocusedWindow>, InjectError>| #[trigger]
        focus_checked(before, focus, after, r)
}

/// The tail of the text was replaced by one call, which `r` is made of.
pub open spec fn tail_replaced<I: TextInjector>(
    before: SessionView<I>,
    text: Seq<char>,
    after: SessionView<I>,
    r: Result<bool, InjectError>,
) -> bool {
    exists|tail: Result<(), InjectError>|
        {
            &&& #[trigger] before.injector.tail_reply(
                erased_tail(before.inserted, text) as usize,
                typed_tail(before.inserted, text),
                after.injector,
                tail,
            )
            &&& match tail {
                Ok(_) => r == Ok::<bool, InjectError>(true) && after == (SessionView {
                    inserted: text,
                    injector: after.injector,
                    ..before
                }),
                Err(error) => r == Err::<bool, InjectError>(error) && after == with_injector(
                    before,
                    after.injector,
                ),
            }
        }
}

/// The session `before` was asked to show `text`. If it shows it already, nothing is called. If
/// not, the focus is checked, which leads to `checked` and `focused`, and only where it is right
/// the tail of the text is replaced.
pub open spec fn replaced<I: TextInjector>(
    before: SessionView<I>,
    text: Seq<char>,
    checked: SessionView<I>,
    focused: Result<(), InjectError>,
    after: SessionView<I>,
    r: Result<bool, InjectError>,
) -> bool {
    if text == before.inserted {
        after == before && r == Ok::<bool, InjectError>(false)
    } else {
        &&& focus_settled(before, checked, focused)
        &&& match focused {
            Err(error) => after == checked && r == Err::<bool, InjectError>(error),
            Ok(_) => tail_replaced(checked, text, after, r),
        }
    }
}

/// The session `before` was asked to show `text`; `after` and `r` came of it.
pub open spec fn replacement<I: TextInjector>(
    before: SessionView<I>,
    text: Seq<char>,
    after: SessionView<I>,
    r: Result<bool, InjectError>,
) -> bool {
    exists|checked: SessionView<I>, focused: Result<(), InjectError>| #[trigger]
        replaced(before, text, checked, focused, after, r)
}

/// The session `before` was asked to show a text, and does so now.
pub open spec fn replacement_done<I: TextInjector>(
    before: SessionView<I>,
    text: Seq<char>,
    after: SessionView<I>,
) -> bool {
    exists|changed: bool| #[trigger]
        replacement(before, text, after, Ok::<bool, InjectError>(changed))
}

/// The session `before` was asked to put up the marker `marker`: the injector is asked whether it
/// wants one (`asked`, `wanted`), the focus is checked (`checked`, `focused`), the marker is typed
/// (`written`, `typed`), and the cursor is moved in front of it, each only where what goes before
/// allows it.
pub open spec fn marker_put_up<I: TextInjector>(
    before: SessionView<I>,
    marker: Seq<char>,
    asked: SessionView<I>,
    wanted: Result<bool, InjectError>,
    checked: SessionView<I>,
    focused: Result<(), InjectError>,
    written: SessionView<I>,
    typed: Result<(), InjectError>,
    after: SessionView<I>,
    r: Result<bool, InjectError>,
) -> bool {
    &&& before.injector.marker_reply(asked.injector, wanted)
    &&& asked == with_injector(before, asked.injector)
    &&& match wanted {
        Err(error) => after == asked && r == Err::<bool, InjectError>(error),
        Ok(false) => after == asked && r == Ok::<bool, InjectError>(false),
        Ok(true) => {
            &&& focus_settled(asked, checked, focused)
            &&& match focused {
                Err(error) => after == checked && r == Err::<bool, InjectError>(error),
                Ok(_) => {
                    &&& checked.injector.inject_reply(marker, written.injector, typed)
                    &&& written == with_injector(checked, written.injector)
                    &&& match typed {
                        Err(error) => after == written && r == Err::<bool, InjectError>(error),
                        Ok(_) => cursor_put_back(written, marker.len(), after, r),
                    }
                },
            }
        },
    }
}

/// The cursor was moved in front of a marker.
pub open spec fn cursor_put_back<I: TextInjector>(
    before: SessionView<I>,
    len: nat,
    after: SessionView<I>,
    r: Result<bool, InjectError>,
) -> bool {
    exists|moved: Result<(), InjectError>|
        {
            &&& #[trigger] before.injector.left_reply(len as usize, after.injector, moved)
            &&& match moved {
                Ok(_) => r == Ok::<bool, InjectError>(true) && after == (SessionView {
                    marker: len,
                    injector: after.injector,
                    ..before
                }),
                Err(error) => r == Err::<bool, InjectError>(error) && after == with_injector(
                    before,
                    after.injector,
                ),
            }
        }
}

/// The session `before` was asked to put up a marker; `after` and `r` came of it.
pub open spec fn marker_up<I: TextInjector>(
    before: SessionView<I>,
    marker: Seq<char>,
    after: SessionView<I>,
    r: Result<bool, InjectError>,
) -> bool {
    exists|
        asked: SessionView<I>,
        wanted: Result<bool, InjectError>,
        checked: SessionView<I>,
        focused: Result<(), InjectError>,
        written: SessionView<I>,
        typed: Result<(), InjectError>,
    | #[trigger]
        marker_put_up(
            before,
            marker,
            asked,
            wanted,
            checked,
            focused,
            written,
            typed,
            after,
            r,
        )
}

/// The session `before` was asked to take its marker down: the focus is checked (`checked`,
/// `focused`), the cursor is moved behind the marker (`behind`, `moved`), and the marker is erased,
/// each only where what goes before allows it. Without a marker nothing is called.
pub open spec fn marker_taken_down<I: TextInjector>(
    before: SessionView<I>,
    checked: SessionView<I>,
    focused: Result<(), InjectError>,
    behind: SessionView<I>,
    moved: Result<(), InjectError>,
    after: SessionView<I>,
    r: Result<bool, InjectError>,
) -> bool {
    if before.marker == 0 {
        after == before && r == Ok::<bool, InjectError>(false)
    } else {
        &&& focus_settled(before, checked, focused)
        &&& match focused {
            Err(error) => after == checked && r == Err::<bool, InjectError>(error),
            Ok(_) => {
                &&& checked.injector.right_reply(before.marker as usize, behind.injector, moved)
                &&& behind == with_injector(checked, behind.injector)
                &&& match moved {
                    Err(error) => after == behind && r == Err::<bool, InjectError>(error),
                    Ok(_) => marker_erased(behind, after, r),
                }
            },
        }
    }
}

/// The marker in front of the cursor was erased.
pub open spec fn marker_erased<I: TextInjector>(
    before: SessionView<I>,
    after: SessionView<I>,
    r: Result<bool, InjectError>,
) -> bool {
    exists|erased: Result<(), InjectError>|
        {
            &&& #[trigger] before.injector.erase_reply(
                before.marker as usize,
                after.injector,
                erased,
            )
            &&& match erased {
                Ok(_) => r == Ok::<bool, InjectError>(true) && after == (SessionView {
                    marker: 0,
                    injector: after.injector,
                    ..before
                }),
                Err(error) => r == Err::<bool, InjectError>(error) && after == with_injector(
                    before,
                    after.injector,
                ),
            }
        }
}

/// The session `before` was asked to take its marker down; `after` and `r` came of it.
pub open spec fn marker_down<I: TextInjector>(
    before: SessionView<I>,
    after: SessionView<I>,
    r: Result<bool, InjectError>,
) -> bool {
    exists|
        checked: SessionView<I>,
        focused: Result<(), InjectError>,
        behind: SessionView<I>,
        moved: Result<(), InjectError>,
    | #[trigger]
        marker_taken_down(before, checked, focused, behind, moved, after, r)
}

impl<I: TextInjector> SpeculativeTextSession<I> {
    /// What the session knows.
    pub closed spec fn view(&self) -> SessionView<I> {
        SessionView {
            target: self.target_window,
            inserted: self.inserted_text@,
            aborted: self.aborted,
            marker: self.marker_chars as nat,
            injector: self.injector,
        }
    }

    /// The injector that the session writes with.
    pub open spec fn injector(&self) -> I {
        self@.injector
    }

    /// A session that was not opened: it edits nothing.
    pub fn unopened(injector: I) -> (r: Self)
        ensures
            r@ == (SessionView {
                target: None,
                inserted: seq![],
                aborted: true,
                marker: 0,
                injector,
            }),
    {
        let session = Self {
            injector,
            target_window: None,
            inserted_text: String::new(),
            aborted: true,
            marker_chars: 0,
        };
        proof {
            assert(session@.inserted =~= seq![]);
        }
        session
    }

    /// Begins anew on the window that has the focus.
    pub fn open(&mut self) -> (r: Result<(), InjectError>)
        ensures
            session_opened(old(self)@, final(self)@, r),
    {
        match self.injector.focused_window() {
            Ok(target_window) => {
                self.target_window = target_window;
                self.inserted_text = String::new();
                self.aborted = false;
                self.marker_chars = 0;
                proof {
                    assert(self@.inserted =~= seq![]);
                }
                Ok(())
            },
            Err(error) => Err(error),
        }
    }

    /// A session on the window that has the focus.
    pub fn start(injector: I) -> (r: Result<Self, InjectError>)
        ensures
            match r {
                Ok(session) => injector.focus_reply(
                    session@.injector,
                    Ok::<Option<FocusedWindow>, InjectError>(session@.target),
                ) && session@ == fresh_session(session@.target, session@.injector),
                Err(error) => exists|after: I| #[trigger]
                    injector.focus_reply(
                        after,
                        Err::<Option<FocusedWindow>, InjectError>(error),
                    ),
            },
    {
        let mut session = Self::unopened(injector);
        match session.open() {
            Ok(()) => Ok(session),
            Err(error) => Err(error),
        }
    }

    /// How the text in the window becomes `text`.
    pub fn edit_plan(&self, text: &str) -> (r: EditPlan)
        ensures
            r.erase == erased_tail(self@.inserted, text@),
            r.suffix@ == typed_tail(self@.inserted, text@),
    {
        let prefix = common_prefix_len(self.inserted_text.as_str(), text);
        let suffix = text.substring_char(prefix, text.unicode_len());
        proof {
            assert(suffix@ =~= typed_tail(self@.inserted, text@));
        }
        EditPlan {
            erase: self.inserted_text.as_str().unicode_len() - prefix,
            suffix: suffix.to_owned(),
        }
    }

    /// What is made of the focused window before an edit, as the injector has told it where it
    /// had to be asked: the session is given up if the focus went to another window, or to none.
    pub fn judge_focus(&mut self, focus: Result<Option<FocusedWindow>, InjectError>) -> (r: Result<
        (),
        InjectError,
    >)
        ensures
            r == focus_verdict(old(self)@, focus),
            final(self)@ == after_focus(old(self)@, focus),
            final(self).injector() == old(self).injector(),
    {
        if self.aborted {
            return Err(InjectError::TargetUnsafe);
        }
        let target = match self.target_window {
            Some(target) => target,
            None => {
                return Ok(());
            },
        };
        match focus {
            Err(error) => Err(error),
            Ok(None) => {
                self.abort();
                Err(InjectError::FocusUnavailable)
            },
            Ok(Some(current)) => if current != target {
                self.abort();
                Err(InjectError::FocusChanged { from: target.0, to: current.0 })
            } else {
                Ok(())
            },
        }
    }

    /// Makes `text` of the text that stands in the window: erases what differs at its end and
    /// types the rest, by one call. Answers whether anything was to do.
    pub fn replace_text(&mut self, text: &str) -> (r: Result<bool, InjectError>)
        ensures
            replacement(old(self)@, text@, final(self)@, r),
    {
        let ghost before = self@;
        if text::same_text(text, self.inserted_text.as_str()) {
            let r: Result<bool, InjectError> = Ok(false);
            proof {
                assert(replaced(before, text@, self@, Ok(()), self@, r));
            }
            return r;
        }
        let focused = self.ensure_target_is_still_focused();
        let ghost checked = self@;
        if let Err(error) = focused {
            let r: Result<bool, InjectError> = Err(error);
            proof {
                assert(replaced(before, text@, checked, focused, self@, r));
            }
            return r;
        }
        let plan = self.edit_plan(text);
        let tail = self.injector.replace_tail(plan.erase, plan.suffix.as_str());
        let r: Result<bool, InjectError> = match tail {
            Ok(_) => {
                self.inserted_text = text.to_owned();
                Ok(true)
            },
            Err(error) => Err(error),
        };
        proof {
            assert(checked.injector.tail_reply(
                erased_tail(checked.inserted, text@) as usize,
                typed_tail(checked.inserted, text@),
                self@.injector,
                tail,
            ));
            assert(tail_replaced(checked, text@, self@, r));
            assert(replaced(before, text@, checked, focused, self@, r));
        }
        r
    }

    /// Types a marker to the right of the cursor, if the injector wants one shown. Answers
    /// whether it stands there.
    pub fn show_trailing_marker(&mut self, marker: &str) -> (r: Result<bool, InjectError>)
        ensures
            marker_up(old(self)@, marker@, final(self)@, r),
    {
        let ghost before = self@;
        let ghost fine: Result<(), InjectError> = Ok(());
        let wanted = self.injector.should_show_listening_marker();
        let ghost asked = self@;
        let show = match wanted {
            Ok(show) => show,
            Err(error) => {
                let r: Result<bool, InjectError> = Err(error);
                proof {
                    assert(marker_put_up(
                        before,
                        marker@,
                        asked,
                        wanted,
                        asked,
                        fine,
                        asked,
                        fine,
                        self@,
                        r,
                    ));
                }
                return r;
            },
        };
        if !show {
            let r: Result<bool, InjectError> = Ok(false);
            proof {
                assert(marker_put_up(
                    before,
                    marker@,
                    asked,
                    wanted,
                    asked,
                    fine,
                    asked,
                    fine,
                    self@,
                    r,
                ));
            }
            return r;
        }
        let focused = self.ensure_target_is_still_focused();
        let ghost checked = self@;
        if let Err(error) = focused {
            let r: Result<bool, InjectError> = Err(error);
            proof {
                assert(marker_put_up(
                    before,
                    marker@,
                    asked,
                    wanted,
                    checked,
                    focused,
                    checked,
                    fine,
                    self@,
                    r,
                ));
            }
            return r;
        }
        let typed = self.injector.inject_text(marker);
        let ghost written = self@;
        if let Err(error) = typed {
            let r: Result<bool, InjectError> = Err(error);
            proof {
                assert(marker_put_up(
                    before,
                    marker@,
                    asked,
                    wanted,
                    checked,
                    focused,
                    written,
                    typed,
                    self@,
                    r,
                ));
            }
            return r;
        }
        let count: usize = marker.unicode_len();
        let moved = self.injector.move_cursor_left(count);
        let r: Result<bool, InjectError> = match moved {
            Ok(_) => {
                self.marker_chars = count;
                Ok(true)
            },
            Err(error) => Err(error),
        };
        proof {
            assert(written.injector.left_reply(marker@.len() as usize, self@.injector, moved));
            assert(cursor_put_back(written, marker@.len(), self@, r));
            assert(marker_put_up(
                before,
                marker@,
                asked,
                wanted,
                checked,
                focused,
                written,
                typed,
                self@,
                r,
            ));
        }
        r
    }

    /// Erases the marker to the right of the cursor, if one stands there. Answers whether it
    /// did.
    pub fn hide_trailing_marker(&mut self) -> (r: Result<bool, InjectError>)
        ensures
            marker_down(old(self)@, final(self)@, r),
    {
        let ghost before = self@;
        let ghost fine: Result<(), InjectError> = Ok(());
        if self.marker_chars == 0 {
            let r: Result<bool, InjectError> = Ok(false);
            proof {
                assert(marker_taken_down(before, before, fine, before, fine, self@, r));
            }
            return r;
        }
        let focused = self.ensure_target_is_still_focused();
        let ghost checked = self@;
        if let Err(error) = focused {
            let r: Result<bool, InjectError> = Err(error);
            proof {
                assert(marker_taken_down(before, checked, focused, checked, fine, self@, r));
            }
            return r;
        }
        let moved = self.injector.move_cursor_right(self.marker_chars);
        let ghost behind = self@;
        if let Err(error) = moved {
            let r: Result<bool, InjectError> = Err(error);
            proof {
                assert(marker_taken_down(before, checked, focused, behind, moved, self@, r));
            }
            return r;
        }
        let erased = self.injector.erase_chars(self.marker_chars);
        let r: Result<bool, InjectError> = match erased {
            Ok(_) => {
                self.marker_chars = 0;
                Ok(true)
            },
            Err(error) => Err(error),
        };
        proof {
            assert(behind.injector.erase_reply(behind.marker as usize, self@.injector, erased));
            assert(marker_erased(behind, self@, r));
            assert(marker_taken_down(before, checked, focused, behind, moved, self@, r));
        }
        r
    }

    /// The text that stands in the window.
    pub fn inserted_text(&self) -> (r: &str)
        ensures
            r@ == self@.inserted,
    {
        self.inserted_text.as_str()
    }

    /// Gives the session up: nothing is edited any more.
    pub fn abort(&mut self)
        ensures
            final(self)@ == (SessionView { aborted: true, ..old(self)@ }),
    {
        self.aborted = true;
    }

    /// Whether the session was given up.
    pub fn is_aborted(&self) -> (r: bool)
        ensures
            r == self@.aborted,
    {
        self.aborted
    }

    /// Checks that the window of the session still has the focus, and gives the session up if
    /// it has not.
    fn ensure_target_is_still_focused(&mut self) -> (r: Result<(), InjectError>)
        ensures
            focus_settled(old(self)@, final(self)@, r),
    {
        let ghost before = self@;
        let focus = if !self.aborted && self.target_window.is_some() {
            self.injector.focused_window()
        } else {
            Ok(None)
        };
        let r = self.judge_focus(focus);
        proof {
            assert(focus_checked(before, focus, self@, r));
        }
        r
    }
}

/// A transcript as it is written: trimmed, or nothing if nothing is left.
pub fn normalize_transcript_for_injection(transcript: &str) -> (r: Option<String>)
    ensures
        text::opt_view(r) == text::non_empty(transcript@),
{
    match text::non_empty_str(transcript) {
        Some(text) => Some(text.to_owned()),
        None => None,
    }
}

/// A transcript as it is written, with a space at its end if wanted.
pub open spec fn formatted(transcript: Seq<char>, append_space: bool) -> Option<Seq<char>> {
    match text::non_empty(transcript) {
        Some(text) => Some(
            if append_space {
                text.push(' ')
            } else {
                text
            },
        ),
        None => None,
    }
}

/// A transcript as it is written, with a space at its end if wanted.
pub fn format_transcript_for_injection(transcript: &str, append_space: bool) -> (r: Option<String>)
    ensures
        text::opt_view(r) == formatted(transcript@, append_space),
{
    match normalize_transcript_for_injection(transcript) {
        Some(mut text) => {
            if append_space {
                text.push(' ');
            }
            Some(text)
        },
        None => None,
    }
}

/// Normalizing a normalized transcript changes nothing.
pub proof fn normalizing_twice_is_normalizing_once(transcript: Seq<char>)
    ensures
        text::non_empty(transcript) matches Some(once) ==> text::non_empty(once) == Some(once),
{
    text::trimming_twice_is_trimming_once(transcript);
}

/// A session that was given up answers every edit without calling the injector, and stays as it
/// is.
pub proof fn aborted_sessions_edit_nothing<I: TextInjector>(
    before: SessionView<I>,
    text: Seq<char>,
    after: SessionView<I>,
    r: Result<bool, InjectError>,
)
    requires
        before.aborted,
        replacement(before, text, after, r),
    ensures
        after == before,
        text != before.inserted ==> r == Err::<bool, InjectError>(InjectError::TargetUnsafe),
{
}

/// A text that stands in the window already is shown without calling the injector, be the session
/// given up or the focus elsewhere.
pub proof fn texts_that_stand_are_left_alone<I: TextInjector>(
    before: SessionView<I>,
    after: SessionView<I>,
    r: Result<bool, InjectError>,
)
    requires
        replacement(before, before.inserted, after, r),
    ensures
        after == before,
        r == Ok::<bool, InjectError>(false),
{
}

/// An edit while another window has the focus, or none, fails and gives the session up. Nothing is
/// written: the injector was asked for the focused window, and got no other call.
pub proof fn a_lost_focus_ends_the_session<I: TextInjector>(
    before: SessionView<I>,
    text: Seq<char>,
    after: SessionView<I>,
    r: Result<bool, InjectError>,
)
    requires
        asks_focus(before),
        text != before.inserted,
        replacement(before, text, after, r),
        forall|next: I, focus: Result<Option<FocusedWindow>, InjectError>|
            before.injector.focus_reply(next, focus) ==> focus is Ok && focus->Ok_0
                != before.target,
    ensures
        after.aborted,
        after.inserted == before.inserted,
        r is Err,
        exists|focus: Result<Option<FocusedWindow>, InjectError>|
            before.injector.focus_reply(after.injector, focus),
{
    let (checked, focused) = choose|checked: SessionView<I>, focused: Result<(), InjectError>|
        #[trigger] replaced(before, text, checked, focused, after, r);
    let focus = choose|focus: Result<Option<FocusedWindow>, InjectError>| #[trigger]
        focus_checked(before, focus, checked, focused);
    assert(before.injector.focus_reply(checked.injector, focus));
}

/// An edit whose question for the focused window fails hands the error on, and changes nothing of
/// the session.
pub proof fn a_failed_question_keeps_the_session<I: TextInjector>(
    before: SessionView<I>,
    text: Seq<char>,
    error: InjectError,
    after: SessionView<I>,
    r: Result<bool, InjectError>,
)
    requires
        asks_focus(before),
        text != before.inserted,
        replacement(before, text, after, r),
        forall|next: I, focus: Result<Option<FocusedWindow>, InjectError>|
            before.injector.focus_reply(next, focus) ==> focus == Err::<
                Option<FocusedWindow>,
                InjectError,
            >(error),
    ensures
        r == Err::<bool, InjectError>(error),
        after == with_injector(before, after.injector),
        before.injector.focus_reply(
            after.injector,
            Err::<Option<FocusedWindow>, InjectError>(error),
        ),
{
    let (checked, focused) = choose|checked: SessionView<I>, focused: Result<(), InjectError>|
        #[trigger] replaced(before, text, checked, focused, after, r);
    let focus = choose|focus: Result<Option<FocusedWindow>, InjectError>| #[trigger]
        focus_checked(before, focus, checked, focused);
    assert(before.injector.focus_reply(checked.injector, focus));
}

/// An edit while the window of the session has the focus is one replacement of the tail that
/// differs, and succeeds if that does.
pub proof fn a_kept_focus_gets_one_edit<I: TextInjector>(
    before: SessionView<I>,
    text: Seq<char>,
    after: SessionView<I>,
    r: Result<bool, InjectError>,
)
    requires
        !before.aborted,
        text != before.inserted,
        replacement(before, text, after, r),
        before.target is Some ==> forall|
            next: I,
            focus: Result<Option<FocusedWindow>, InjectError>,
        |
            before.injector.focus_reply(next, focus) ==> focus == Ok::<
                Option<FocusedWindow>,
                InjectError,
            >(before.target),
    ensures
        exists|asked: I, tail: Result<(), InjectError>|
            {
                &&& if before.target is Some {
                    before.injector.focus_reply(
                        asked,
                        Ok::<Option<FocusedWindow>, InjectError>(before.target),
                    )
                } else {
                    asked == before.injector
                }
                &&& #[trigger] asked.tail_reply(
                    erased_tail(before.inserted, text) as usize,
                    typed_tail(before.inserted, text),
                    after.injector,
                    tail,
                )
                &&& match tail {
                    Ok(_) => r == Ok::<bool, InjectError>(true) && after.inserted == text,
                    Err(error) => r == Err::<bool, InjectError>(error) && after.inserted
                        == before.inserted,
                }
            },
        !after.aborted,
{
    let (checked, focused) = choose|checked: SessionView<I>, focused: Result<(), InjectError>|
        #[trigger] replaced(before, text, checked, focused, after, r);
    let focus = choose|focus: Result<Option<FocusedWindow>, InjectError>| #[trigger]
        focus_checked(before, focus, checked, focused);
    if before.target is Some {
        assert(before.injector.focus_reply(checked.injector, focus));
    }
    let tail = choose|tail: Result<(), InjectError>|
        {
            &&& #[trigger] checked.injector.tail_reply(
                erased_tail(before.inserted, text) as usize,
                typed_tail(before.inserted, text),
                after.injector,
                tail,
            )
            &&& match tail {
                Ok(_) => r == Ok::<bool, InjectError>(true) && after.inserted == text,
                Err(error) => r == Err::<bool, InjectError>(error) && after.inserted
                    == before.inserted,
            }
        };
    assert(checked.injector.tail_reply(
        erased_tail(before.inserted, text) as usize,
        typed_tail(before.inserted, text),
        after.injector,
        tail,
    ));
}

/// After a replacement that succeeded, the session shows exactly the text that was asked for; after
/// one that failed, the text that it showed before.
pub proof fn a_replacement_shows_the_text<I: TextInjector>(
    before: SessionView<I>,
    text: Seq<char>,
    after: SessionView<I>,
    r: Result<bool, InjectError>,
)
    requires
        replacement(before, text, after, r),
    ensures
        r is Ok ==> after.inserted == text,
        r is Err ==> after.inserted == before.inserted,
{
}

/// Putting a marker up leaves the text as it is, whatever comes of it.
pub proof fn putting_a_marker_up_keeps_the_text<I: TextInjector>(
    before: SessionView<I>,
    marker: Seq<char>,
    after: SessionView<I>,
    r: Result<bool, InjectError>,
)
    requires
        marker_up(before, marker, after, r),
    ensures
        after.inserted == before.inserted,
        r == Ok::<bool, InjectError>(true) ==> after.marker == marker.len(),
        r != Ok::<bool, InjectError>(true) ==> after.marker == before.marker,
{
}

/// Taking the marker down leaves the text as it is, whatever comes of it, and no marker if it
/// succeeds.
pub proof fn taking_the_marker_down_keeps_the_text<I: TextInjector>(
    before: SessionView<I>,
    after: SessionView<I>,
    r: Result<bool, InjectError>,
)
    requires
        marker_down(before, after, r),
    ensures
        after.inserted == before.inserted,
        r is Ok ==> after.marker == 0,
        r is Err ==> after.marker == before.marker,
{
}

/// How text is written on a desktop: through Sway where it runs, else through X11.
#[derive(Debug, Clone)]
pub struct DesktopTextInjector {
    delay_microsecs: u32,
    paste_settle_delay_ms: u64,
    paste_in_terminals: bool,
}

impl DesktopTextInjector {
    /// The time between keys, in microseconds.
    pub closed spec fn delay(&self) -> u32 {
        self.delay_microsecs
    }

    /// How long a pasted text stays on the clipboard, in milliseconds.
    pub closed spec fn settle_delay(&self) -> u64 {
        self.paste_settle_delay_ms
    }

    /// Whether text is pasted into terminals.
    pub closed spec fn pastes_in_terminals(&self) -> bool {
        self.paste_in_terminals
    }

    /// An injector with the given time between keys.
    pub fn new(delay_microsecs: u32) -> (r: Self)
        ensures
            r.delay() == delay_microsecs,
            r.settle_delay() == DEFAULT_PASTE_SETTLE_DELAY_MS,
            !r.pastes_in_terminals(),
    {
        Self::new_with_options(delay_microsecs, DEFAULT_PASTE_SETTLE_DELAY_MS, false)
    }

    /// An injector with the given times.
    pub fn new_with_paste_settle_delay(
        delay_microsecs: u32,
        paste_settle_delay_ms: u64,
    ) -> (r: Self)
        ensures
            r.delay() == delay_microsecs,
            r.settle_delay() == paste_settle_delay_ms,
            !r.pastes_in_terminals(),
    {
        Self::new_with_options(delay_microsecs, paste_settle_delay_ms, false)
    }

    /// An injector with the given options.
    pub fn new_with_options(
        delay_microsecs: u32,
        paste_settle_delay_ms: u64,
        paste_in_terminals: bool,
    ) -> (r: Self)
        ensures
            r.delay() == delay_microsecs,
            r.settle_delay() == paste_settle_delay_ms,
            r.pastes_in_terminals() == paste_in_terminals,
    {
        Self { delay_microsecs, paste_settle_delay_ms, paste_in_terminals }
    }

    /// The time between keys, in microseconds.
    pub fn delay_microsecs(&self) -> (r: u32)
        ensures
            r == self.delay(),
    {
        self.delay_microsecs
    }

    /// How long a pasted text stays on the clipboard, in milliseconds.
    pub fn paste_settle_delay_ms(&self) -> (r: u64)
        ensures
            r == self.settle_delay(),
    {
        self.paste_settle_delay_ms
    }

    /// Whether text is pasted into terminals.
    pub fn paste_in_terminals(&self) -> (r: bool)
        ensures
            r == self.pastes_in_terminals(),
    {
        self.paste_in_terminals
    }
}

impl Default for DesktopTextInjector {
    fn default() -> (r: Self)
        ensures
            r.delay() == 0,
            r.settle_delay() == DEFAULT_PASTE_SETTLE_DELAY_MS,
            !r.pastes_in_terminals(),
    {
        Self::new(0)
    }
}

/// How text is written under X11.
#[derive(Debug, Clone)]
pub struct LibXdoTextInjector {
    delay_microsecs: u32,
}

impl LibXdoTextInjector {
    /// The time between keys, in microseconds.
    pub closed spec fn delay(&self) -> u32 {
        self.delay_microsecs
    }

    /// An injector with the given time between keys.
    pub fn new(delay_microsecs: u32) -> (r: Self)
        ensures
            r.delay() == delay_microsecs,
    {
        Self { delay_microsecs }
    }

    /// The time between keys, in microseconds.
    pub fn delay_microsecs(&self) -> (r: u32)
        ensures
            r == self.delay(),
    {
        self.delay_microsecs
    }
}

impl Default for LibXdoTextInjector {
    fn default() -> (r: Self)
        ensures
            r.delay() == 0,
    {
        Self::new(0)
    }
}

/// A transcript is written without the white space at its ends, and with a space behind it where that
/// is wanted; a blank one is not written.
pub proof fn transcripts_are_written_trimmed(transcript: Seq<char>)
    ensures
        text::trimmed(transcript).len() > 0 ==> formatted(transcript, false) == Some(
            text::trimmed(transcript),
        ) && formatted(transcript, true) == Some(text::trimmed(transcript) + seq![' ']),
        text::trimmed(transcript).len() == 0 ==> formatted(transcript, false) is None && formatted(
            transcript,
            true,
        ) is None,
{
    assert(text::trimmed(transcript).push(' ') =~= text::trimmed(transcript) + seq![' ']);
}

/// A session that was just opened has written nothing, is not given up, and stays with the window
/// that the injector named. One that could not be opened is as it was.
pub proof fn sessions_begin_on_the_focused_window<I: TextInjector>(
    before: SessionView<I>,
    after: SessionView<I>,
    r: Result<(), InjectError>,
)
    requires
        session_opened(before, after, r),
    ensures
        r is Ok ==> after.inserted.len() == 0 && !after.aborted && after.marker == 0
            && before.injector.focus_reply(
            after.injector,
            Ok::<Option<FocusedWindow>, InjectError>(after.target),
        ),
        r matches Err(error) ==> before.injector.focus_reply(
            after.injector,
            Err::<Option<FocusedWindow>, InjectError>(error),
        ) && after.inserted == before.inserted && after.target == before.target && after.aborted
            == before.aborted && after.marker == before.marker,
{
}

/// An edit is safe only while the session is not given up and its window has the focus, or it never
/// knew one. A focus that went elsewhere, or nowhere, gives the session up; a question that failed
/// does not.
pub proof fn only_the_own_window_is_edited<I>(
    session: SessionView<I>,
    focus: Result<Option<FocusedWindow>, InjectError>,
)
    ensures
        session.aborted ==> focus_verdict(session, focus) == Err::<(), InjectError>(
            InjectError::TargetUnsafe,
        ) && after_focus(session, focus) == session,
        !session.aborted && session.target is None ==> focus_verdict(session, focus) is Ok
            && after_focus(session, focus) == session,
        !session.aborted && session.target is Some ==> match focus {
            Ok(Some(current)) => if current == session.target->0 {
                focus_verdict(session, focus) is Ok && after_focus(session, focus) == session
            } else {
                focus_verdict(session, focus) == Err::<(), InjectError>(
                    InjectError::FocusChanged { from: (session.target->0).0, to: current.0 },
                ) && after_focus(session, focus).aborted
            },
            Ok(None) => focus_verdict(session, focus) == Err::<(), InjectError>(
                InjectError::FocusUnavailable,
            ) && after_focus(session, focus).aborted,
            Err(error) => focus_verdict(session, focus) == Err::<(), InjectError>(error)
                && after_focus(session, focus) == session,
        },
        after_focus(session, focus).inserted == session.inserted,
        after_focus(session, focus).target == session.target,
        after_focus(session, focus).marker == session.marker,
{
}

/// A marker that stands was typed as it is, and the cursor went to the left by as many characters.
/// One that the injector does not want is not typed, and nothing else is asked.
pub proof fn markers_stand_behind_the_cursor<I: TextInjector>(
    before: SessionView<I>,
    marker: Seq<char>,
    after: SessionView<I>,
    r: Result<bool, InjectError>,
)
    requires
        marker_up(before, marker, after, r),
        marker.len() <= usize::MAX,
    ensures
        after.inserted == before.inserted,
        after.target == before.target,
        r == Ok::<bool, InjectError>(true) ==> after.marker == marker.len() && !after.aborted
            && exists|checked: I, typed: Result<(), InjectError>, written: I, moved: Result<
            (),
            InjectError,
        >|
            #![trigger checked.inject_reply(marker, written, typed), written.left_reply(marker.len() as usize, after.injector, moved)]
            {
                &&& checked.inject_reply(marker, written, typed)
                &&& typed is Ok
                &&& written.left_reply(marker.len() as usize, after.injector, moved)
                &&& moved is Ok
            },
        r == Ok::<bool, InjectError>(false) ==> after == with_injector(before, after.injector)
            && before.injector.marker_reply(after.injector, Ok::<bool, InjectError>(false)),
        r is Err ==> after.marker == before.marker,
{
    let (asked, wanted, checked, focused, written, typed) = choose|
        asked: SessionView<I>,
        wanted: Result<bool, InjectError>,
        checked: SessionView<I>,
        focused: Result<(), InjectError>,
        written: SessionView<I>,
        typed: Result<(), InjectError>,
    | #[trigger]
        marker_put_up(before, marker, asked, wanted, checked, focused, written, typed, after, r);
    if r == Ok::<bool, InjectError>(true) {
        assert(checked.injector.inject_reply(marker, written.injector, typed));
        let moved = choose|moved: Result<(), InjectError>|
            {
                &&& #[trigger] written.injector.left_reply(
                    marker.len() as usize,
                    after.injector,
                    moved,
                )
                &&& moved is Ok
            };
        assert(written.injector.left_reply(marker.len() as usize, after.injector, moved));
    }
}

/// A marker is taken down by going behind it and erasing just its characters. Where none stands,
/// nothing is asked and nothing changes.
pub proof fn markers_are_erased_whole<I: TextInjector>(
    before: SessionView<I>,
    after: SessionView<I>,
    r: Result<bool, InjectError>,
)
    requires
        marker_down(before, after, r),
    ensures
        before.marker == 0 ==> after == before && r == Ok::<bool, InjectError>(false),
        before.marker > 0 ==> r != Ok::<bool, InjectError>(false),
        r == Ok::<bool, InjectError>(true) ==> after.marker == 0 && !after.aborted && exists|
            checked: I,
            moved: Result<(), InjectError>,
            behind: I,
            erased: Result<(), InjectError>,
        |
            #![trigger checked.right_reply(before.marker as usize, behind, moved), behind.erase_reply(before.marker as usize, after.injector, erased)]
            {
                &&& checked.right_reply(before.marker as usize, behind, moved)
                &&& moved is Ok
                &&& behind.erase_reply(before.marker as usize, after.injector, erased)
                &&& erased is Ok
            },
        r is Err ==> after.marker == before.marker,
        after.inserted == before.inserted,
        after.target == before.target,
{
    if before.marker > 0 {
        let (checked, focused, behind, moved) = choose|
            checked: SessionView<I>,
            focused: Result<(), InjectError>,
            behind: SessionView<I>,
            moved: Result<(), InjectError>,
        | #[trigger]
            marker_taken_down(before, checked, focused, behind, moved, after, r);
        if r == Ok::<bool, InjectError>(true) {
            assert(checked.injector.right_reply(before.marker as usize, behind.injector, moved));
            let erased = choose|erased: Result<(), InjectError>|
                {
                    &&& #[trigger] behind.injector.erase_reply(
                        before.marker as usize,
                        after.injector,
                        erased,
                    )
                    &&& erased is Ok
                };
            assert(behind.injector.erase_reply(before.marker as usize, after.injector, erased));
        }
    }
}

/// The message of an error names the windows or the number that it is about, or is what the injector
/// reports.
pub proof fn errors_say_what_is_wrong(error: InjectError)
    ensures
        error matches InjectError::Backend(message) ==> inject_error_text(error) == message@,
        error matches InjectError::FocusChanged { from, to } ==> inject_error_text(error)
            == "focused desktop target changed from "@ + text::decimal(from as nat) + " to "@
            + text::decimal(to as nat) + "; aborting replacement"@,
        error matches InjectError::EraseUnsupported { count } ==> text::occurs(
            inject_error_text(error),
            text::decimal(count as nat),
        ),
        error matches InjectError::CursorUnsupported { count } ==> text::occurs(
            inject_error_text(error),
            text::decimal(count as nat),
        ),
{
    match error {
        InjectError::EraseUnsupported { count } => {
            text::parts_are_found(
                "text injector does not support erasing "@,
                text::decimal(count as nat),
                " characters"@,
            );
        },
        InjectError::CursorUnsupported { count } => {
            text::parts_are_found(
                "text injector does not support moving the cursor by "@,
                text::decimal(count as nat),
                " characters"@,
            );
        },
        _ => {},
    }
}

/// An injector that cannot erase, or move the cursor, fails wherever there is anything to do, and says
/// how much that was.
pub proof fn missing_abilities_are_told(count: usize)
    ensures
        count > 0 ==> no_erasure(count) == Err::<(), InjectError>(
            InjectError::EraseUnsupported { count },
        ) && no_movement(count) == Err::<(), InjectError>(InjectError::CursorUnsupported { count }),
        no_erasure(0) is Ok && no_movement(0) is Ok,
{
}

} // verus!
