//! A demonstration that types a text into a shell.

use vstd::prelude::*;
use vstd::string::*;

use crate::clock::Duration;
use crate::text;

verus! {

/// How long the shell gets to start, in milliseconds.
pub const SHELL_STARTUP_DELAY_MS: u64 = 400;

/// How long each character takes, in milliseconds.
pub const SHELL_CHAR_DELAY_MS: u64 = 50;

/// How long the shell gets to carry the text out, in milliseconds.
pub const SHELL_SETTLE_DELAY_MS: u64 = 800;

/// What is typed into which shell, and how fast.
#[derive(Debug, Clone, PartialEq, Eq)]
pub struct ShellTypingDemoOptions {
    pub shell_path: String,
    pub text: String,
    pub startup_delay: Duration,
    pub char_delay: Duration,
    pub settle_delay: Duration,
}

impl ShellTypingDemoOptions {
    /// A text for a shell, at the usual pace.
    pub fn new(shell_path: String, text: String) -> (r: Self)
        ensures
            r.shell_path == shell_path,
            r.text == text,
            r.startup_delay@ == SHELL_STARTUP_DELAY_MS * 1_000_000,
            r.char_delay@ == SHELL_CHAR_DELAY_MS * 1_000_000,
            r.settle_delay@ == SHELL_SETTLE_DELAY_MS * 1_000_000,
    {
        Self {
            shell_path,
            text,
            startup_delay: Duration::from_millis(SHELL_STARTUP_DELAY_MS),
            char_delay: Duration::from_millis(SHELL_CHAR_DELAY_MS),
            settle_delay: Duration::from_millis(SHELL_SETTLE_DELAY_MS),
        }
    }
}

/// The shell of the user, if it is named by an absolute path, or else the one that is always there.
pub fn default_shell_path(shell: Option<&str>) -> (r: String)
    ensures
        r@ == match text::opt_str_view(shell) {
            Some(path) => if text::absolute(path) {
                path
            } else {
                "/bin/sh"@
            },
            None => "/bin/sh"@,
        },
        text::absolute(r@),
{
    proof {
        reveal_strlit("/bin/sh");
    }
    match shell {
        Some(path) => if text::is_absolute(path) {
            path.to_owned()
        } else {
            "/bin/sh".to_owned()
        },
        None => "/bin/sh".to_owned(),
    }
}

/// A step of the demonstration.
#[derive(Debug, Clone, PartialEq, Eq)]
pub enum ShellStep {
    /// Waits.
    Pause(Duration),
    /// Types a character, and gives up if that fails.
    Type(char),
    /// Presses the Enter key, and gives up if that fails.
    Enter,
    /// Types a character, whatever comes of it.
    TryType(char),
    /// Presses the Enter key, whatever comes of it.
    TryEnter,
}

/// The steps that type a text at a pace, each character followed by a pause unless it is to be
/// none.
pub open spec fn typing(text: Seq<char>, pace: Duration, must: bool) -> Seq<ShellStep>
    decreases text.len(),
{
    if text.len() == 0 {
        seq![]
    } else {
        let key = if must {
            ShellStep::Type(text.last())
        } else {
            ShellStep::TryType(text.last())
        };
        let before = typing(text.drop_last(), pace, must).push(key);
        if pace@ == 0 {
            before
        } else {
            before.push(ShellStep::Pause(pace))
        }
    }
}

/// A pause, unless it is to be none.
pub open spec fn pause(span: Duration) -> Seq<ShellStep> {
    if span@ == 0 {
        seq![]
    } else {
        seq![ShellStep::Pause(span)]
    }
}

/// The steps of the demonstration.
pub open spec fn demo_steps(options: ShellTypingDemoOptions) -> Seq<ShellStep> {
    pause(options.startup_delay) + typing(options.text@, options.char_delay, true) + seq![
        ShellStep::Enter,
    ] + pause(options.settle_delay) + typing("exit"@, options.char_delay, false) + seq![
        ShellStep::TryEnter,
    ]
}

fn push_pause(steps: &mut Vec<ShellStep>, span: Duration)
    ensures
        final(steps)@ == old(steps)@ + pause(span),
{
    if span.as_nanos() > 0 {
        steps.push(ShellStep::Pause(span));
    }
    proof {
        assert(steps@ =~= old(steps)@ + pause(span));
    }
}

fn push_typing(steps: &mut Vec<ShellStep>, text: &str, pace: Duration, must: bool)
    ensures
        final(steps)@ == old(steps)@ + typing(text@, pace, must),
{
    let ghost before = steps@;
    let n: usize = text.unicode_len();
    let mut i: usize = 0;
    proof {
        assert(before + typing(text@.take(0), pace, must) =~= before);
    }
    while i < n
        invariant
            i <= n == text@.len(),
            steps@ == before + typing(text@.take(i as int), pace, must),
        decreases n - i,
    {
        proof {
            assert(text@.take(i + 1).drop_last() =~= text@.take(i as int));
        }
        let c: char = text.get_char(i);
        if must {
            steps.push(ShellStep::Type(c));
        } else {
            steps.push(ShellStep::TryType(c));
        }
        if pace.as_nanos() > 0 {
            steps.push(ShellStep::Pause(pace));
        }
        i += 1;
        proof {
            assert(steps@ =~= before + typing(text@.take(i as int), pace, must));
        }
    }
    proof {
        assert(text@.take(i as int) =~= text@);
    }
}

/// The steps of the demonstration: the text, then the Enter key, and in the end `exit`.
pub fn shell_typing_steps(options: &ShellTypingDemoOptions) -> (r: Vec<ShellStep>)
    ensures
        r@ == demo_steps(*options),
{
    let mut steps: Vec<ShellStep> = Vec::new();
    push_pause(&mut steps, options.startup_delay);
    push_typing(&mut steps, options.text.as_str(), options.char_delay, true);
    steps.push(ShellStep::Enter);
    push_pause(&mut steps, options.settle_delay);
    push_typing(&mut steps, "exit", options.char_delay, false);
    steps.push(ShellStep::TryEnter);
    proof {
        assert(steps@ =~= demo_steps(*options));
    }
    steps
}

/// Characters are typed in their order, each with a pause behind it where there is one.
pub proof fn characters_are_typed_in_order(text: Seq<char>, c: char, pace: Duration)
    ensures
        typing(Seq::<char>::empty(), pace, true).len() == 0,
        typing(Seq::<char>::empty(), pace, false).len() == 0,
        pace@ == 0 ==> typing(text.push(c), pace, true) == typing(text, pace, true) + seq![
            ShellStep::Type(c),
        ] && typing(text.push(c), pace, false) == typing(text, pace, false) + seq![
            ShellStep::TryType(c),
        ],
        pace@ > 0 ==> typing(text.push(c), pace, true) == typing(text, pace, true) + seq![
            ShellStep::Type(c),
            ShellStep::Pause(pace),
        ] && typing(text.push(c), pace, false) == typing(text, pace, false) + seq![
            ShellStep::TryType(c),
            ShellStep::Pause(pace),
        ],
{
    assert(text.push(c).drop_last() =~= text);
    let typed = typing(text, pace, true);
    let tried = typing(text, pace, false);
    assert(typed.push(ShellStep::Type(c)) =~= typed + seq![ShellStep::Type(c)]);
    assert(tried.push(ShellStep::TryType(c)) =~= tried + seq![ShellStep::TryType(c)]);
    assert(typed.push(ShellStep::Type(c)).push(ShellStep::Pause(pace)) =~= typed + seq![
        ShellStep::Type(c),
        ShellStep::Pause(pace),
    ]);
    assert(tried.push(ShellStep::TryType(c)).push(ShellStep::Pause(pace)) =~= tried + seq![
        ShellStep::TryType(c),
        ShellStep::Pause(pace),
    ]);
}

/// A demonstration waits for the shell, types its text and presses Enter, waits again, and leaves the
/// shell; pauses of no length are left out.
pub proof fn demonstrations_type_enter_and_leave(options: ShellTypingDemoOptions)
    ensures
        options.startup_delay@ > 0 && options.settle_delay@ > 0 ==> demo_steps(options) == seq![
            ShellStep::Pause(options.startup_delay),
        ] + typing(options.text@, options.char_delay, true) + seq![
            ShellStep::Enter,
            ShellStep::Pause(options.settle_delay),
        ] + typing("exit"@, options.char_delay, false) + seq![ShellStep::TryEnter],
        options.startup_delay@ == 0 && options.settle_delay@ == 0 ==> demo_steps(options) == typing(
            options.text@,
            options.char_delay,
            true,
        ) + seq![ShellStep::Enter] + typing("exit"@, options.char_delay, false) + seq![
            ShellStep::TryEnter,
        ],
{
    let typed = typing(options.text@, options.char_delay, true);
    let leave = typing("exit"@, options.char_delay, false);
    let none = Seq::<ShellStep>::empty();
    assert(none + typed + seq![ShellStep::Enter] + none + leave + seq![ShellStep::TryEnter]
        =~= typed + seq![ShellStep::Enter] + leave + seq![ShellStep::TryEnter]);
    let first = seq![ShellStep::Pause(options.startup_delay)];
    let second = seq![ShellStep::Pause(options.settle_delay)];
    assert(first + typed + seq![ShellStep::Enter] + second + leave + seq![ShellStep::TryEnter]
        =~= first + typed + seq![ShellStep::Enter, ShellStep::Pause(options.settle_delay)] + leave
        + seq![ShellStep::TryEnter]);
}

} // verus!
