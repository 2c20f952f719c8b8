//! Decisions on the text of a transcript.

use vstd::prelude::*;
use vstd::string::*;

use crate::inject::normalize_transcript_for_injection;
use crate::text;

verus! {

/// How many characters of a transcript a log line shows.
pub const PREVIEW_CHARS: usize = 96;

/// Whether a text that ends with this character ends at a place where it hardly changes later.
pub open spec fn stable_end(c: char) -> bool {
    text::white_space(c) || c == '.' || c == ',' || c == '!' || c == '?' || c == ';' || c == ':'
        || c == ')' || c == ']' || c == '}' || c == '"' || c == '\'' || c == '\u{bb}' || c
        == '\u{201d}' || c == '\u{2019}' || c == '\u{2026}'
}

/// Whether a transcript ends at a place where it hardly changes later.
pub open spec fn at_boundary(transcript: Seq<char>) -> bool {
    transcript.len() > 0 && stable_end(transcript.last())
}

/// Whether a transcript ends at a place where it hardly changes later: behind a word or a
/// punctuation mark.
pub fn ends_at_stable_boundary(transcript: &str) -> (r: bool)
    ensures
        r == at_boundary(transcript@),
{
    let n = transcript.unicode_len();
    if n == 0 {
        return false;
    }
    let c = transcript.get_char(n - 1);
    text::is_white_space(c) || c == '.' || c == ',' || c == '!' || c == '?' || c == ';' || c == ':'
        || c == ')' || c == ']' || c == '}' || c == '"' || c == '\'' || c == '\u{bb}' || c
        == '\u{201d}' || c == '\u{2019}' || c == '\u{2026}'
}

/// How many words a text has.
pub fn word_count(text: &str) -> (r: usize)
    ensures
        r == text::words(text@).len(),
{
    let words = text::words_of(text);
    proof {
        assert(text::views(words@).len() == words@.len());
    }
    words.len()
}

/// A product, or the largest machine number if it is larger.
pub open spec fn capped_product(a: nat, b: nat) -> nat {
    if a * b > usize::MAX {
        usize::MAX as nat
    } else {
        a * b
    }
}

/// Whether a final transcript looks as if something of the live one was lost, given both in lower
/// case: it is shorter, and repeats only the end of the live one, or has far fewer words.
pub open spec fn truncated(
    final_transcript: Seq<char>,
    partial: Seq<char>,
    final_lower: Seq<char>,
    partial_lower: Seq<char>,
) -> bool {
    let final_words = text::words(final_transcript).len();
    let partial_words = text::words(partial).len();
    &&& partial_words >= 8
    &&& final_words < partial_words
    &&& {
        ||| text::ends(partial_lower, text::trimmed(final_lower))
        ||| partial_words >= 12 && capped_product(final_words, 10) < capped_product(
            partial_words,
            7,
        )
    }
}

fn capped(a: usize, b: u8) -> (r: usize)
    ensures
        r == capped_product(a as nat, b as nat),
{
    proof {
        assert(0 <= a * b <= 0xffff_ffff_ffff_ffff * 0xff) by (nonlinear_arith)
            requires
                a <= 0xffff_ffff_ffff_ffff,
                b <= 0xff,
        ;
    }
    let product: u128 = a as u128 * b as u128;
    if product > usize::MAX as u128 {
        usize::MAX
    } else {
        product as usize
    }
}

/// Whether a final transcript looks as if something of the live one was lost, given both in lower
/// case.
pub fn looks_truncated(
    final_transcript: &str,
    partial: &str,
    final_lower: &str,
    partial_lower: &str,
) -> (r: bool)
    ensures
        r == truncated(final_transcript@, partial@, final_lower@, partial_lower@),
{
    let final_words = word_count(final_transcript);
    let partial_words = word_count(partial);
    if partial_words < 8 || final_words >= partial_words {
        return false;
    }
    if text::ends_with(partial_lower, text::trim(final_lower)) {
        return true;
    }
    partial_words >= 12 && capped(final_words, 10) < capped(partial_words, 7)
}

/// Whether a final transcript looks as if something of the live one was lost.
pub fn final_transcript_looks_truncated(final_transcript: &str, partial: &str) -> (r: bool)
    ensures
        r == truncated(
            final_transcript@,
            partial@,
            text::lowercase(final_transcript@),
            text::lowercase(partial@),
        ),
{
    let final_lower = text::to_lowercase(final_transcript);
    let partial_lower = text::to_lowercase(partial);
    looks_truncated(final_transcript, partial, final_lower.as_str(), partial_lower.as_str())
}

/// Which of two transcripts was chosen.
#[derive(Debug, Clone, Copy, PartialEq, Eq, Structural)]
pub enum FinalChoice {
    /// The live one: the final one looks as if something was lost.
    Partial,
    /// The final one: it is shorter, but may well be right.
    Final,
}

/// The choice between a final transcript and the live one, where the final one is the shorter; else
/// there is none to make.
pub open spec fn choice(final_transcript: Seq<char>, latest_partial: Option<Seq<char>>) -> Option<
    FinalChoice,
> {
    let partial = match latest_partial {
        Some(partial) => text::non_empty(partial),
        None => None,
    };
    match partial {
        None => None,
        Some(partial) => if final_transcript.len() >= partial.len() {
            None
        } else if truncated(
            final_transcript,
            partial,
            text::lowercase(final_transcript),
            text::lowercase(partial),
        ) {
            Some(FinalChoice::Partial)
        } else {
            Some(FinalChoice::Final)
        },
    }
}

/// The choice between a final transcript and the live one, where there is one to make.
pub fn final_choice(final_transcript: &str, latest_partial: Option<&str>) -> (r: Option<
    FinalChoice,
>)
    ensures
        r == choice(final_transcript@, text::opt_str_view(latest_partial)),
{
    let partial = match latest_partial {
        Some(partial) => match normalize_transcript_for_injection(partial) {
            Some(partial) => partial,
            None => {
                return None;
            },
        },
        None => {
            return None;
        },
    };
    if final_transcript.unicode_len() >= partial.as_str().unicode_len() {
        return None;
    }
    if final_transcript_looks_truncated(final_transcript, partial.as_str()) {
        Some(FinalChoice::Partial)
    } else {
        Some(FinalChoice::Final)
    }
}

/// Which transcript is written in the end: the final one, unless it looks as if something of the
/// live one was lost.
pub open spec fn chosen(final_transcript: Seq<char>, latest_partial: Option<Seq<char>>) -> Seq<
    char,
> {
    let partial = match latest_partial {
        Some(partial) => text::non_empty(partial),
        None => None,
    };
    match partial {
        None => final_transcript,
        Some(partial) => if final_transcript.len() < partial.len() && truncated(
            final_transcript,
            partial,
            text::lowercase(final_transcript),
            text::lowercase(partial),
        ) {
            partial
        } else {
            final_transcript
        },
    }
}

/// Which transcript is written in the end.
pub fn choose_final_transcript(final_transcript: String, latest_partial: Option<&str>) -> (r:
    String)
    ensures
        r@ == chosen(final_transcript@, text::opt_str_view(latest_partial)),
{
    match (final_choice(final_transcript.as_str(), latest_partial), latest_partial) {
        (Some(FinalChoice::Partial), Some(partial)) => match normalize_transcript_for_injection(
            partial,
        ) {
            Some(partial) => partial,
            None => final_transcript,
        },
        _ => final_transcript,
    }
}

/// A transcript as a log line shows it: its first characters, with single spaces between the
/// words.
pub open spec fn preview(text: Seq<char>) -> Seq<char> {
    let line = text::joined(text::words(text), " "@);
    let head = if line.len() > PREVIEW_CHARS {
        line.take(PREVIEW_CHARS as int)
    } else {
        line
    };
    if text.len() > PREVIEW_CHARS {
        head + "..."@
    } else {
        head
    }
}

/// A transcript as a log line shows it.
pub fn transcript_preview(text: &str) -> (r: String)
    ensures
        r@ == preview(text@),
{
    let line = text::join(&text::words_of(text), " ");
    let mut head = if line.as_str().unicode_len() > PREVIEW_CHARS {
        let part = line.as_str().substring_char(0, PREVIEW_CHARS);
        proof {
            assert(part@ =~= line@.take(PREVIEW_CHARS as int));
        }
        part.to_owned()
    } else {
        line
    };
    if text.unicode_len() > PREVIEW_CHARS {
        head.append("...");
    }
    head
}

/// A final transcript that is not shorter than the live one is always the one that is written,
/// and what is written is one of the two.
pub proof fn longer_finals_win(final_transcript: Seq<char>, latest_partial: Option<Seq<char>>)
    ensures
        chosen(final_transcript, latest_partial) == final_transcript || (latest_partial is Some
            && text::non_empty(latest_partial->0) == Some(chosen(final_transcript, latest_partial))),
        latest_partial is None ==> chosen(final_transcript, latest_partial) == final_transcript,
        latest_partial is Some && text::trimmed(latest_partial->0).len() <= final_transcript.len()
            ==> chosen(final_transcript, latest_partial) == final_transcript,
{
}

/// A transcript ends at a place where it hardly changes later if it ends with white space, or with a
/// mark that closes a word, a sentence, a bracket or a quotation; with nothing else.
pub proof fn marks_close_words(transcript: Seq<char>)
    ensures
        transcript.len() == 0 ==> !at_boundary(transcript),
        transcript.len() > 0 ==> (at_boundary(transcript) <==> text::white_space(transcript.last())
            || seq![
            '.',
            ',',
            '!',
            '?',
            ';',
            ':',
            ')',
            ']',
            '}',
            '"',
            '\'',
            '\u{bb}',
            '\u{201d}',
            '\u{2019}',
            '\u{2026}',
        ].contains(transcript.last())),
{
    let marks = seq![
        '.',
        ',',
        '!',
        '?',
        ';',
        ':',
        ')',
        ']',
        '}',
        '"',
        '\'',
        '\u{bb}',
        '\u{201d}',
        '\u{2019}',
        '\u{2026}',
    ];
    assert(marks[0] == '.' && marks[1] == ',' && marks[2] == '!' && marks[3] == '?' && marks[4]
        == ';' && marks[5] == ':' && marks[6] == ')' && marks[7] == ']' && marks[8] == '}'
        && marks[9] == '"' && marks[10] == '\'' && marks[11] == '\u{bb}' && marks[12]
        == '\u{201d}' && marks[13] == '\u{2019}' && marks[14] == '\u{2026}');
}

/// A live transcript of fewer than eight words never wins, nor one with no more words than the final
/// one has.
pub proof fn short_partials_never_win(
    final_transcript: Seq<char>,
    partial: Seq<char>,
    final_lower: Seq<char>,
    partial_lower: Seq<char>,
)
    requires
        text::words(partial).len() < 8 || text::words(final_transcript).len() >= text::words(
            partial,
        ).len(),
    ensures
        !truncated(final_transcript, partial, final_lower, partial_lower),
{
}

/// A final transcript that has lost words of a live one of eight or more, and is only the end of it,
/// whatever its capital letters, is taken for cut off; so is one with less than seven tenths of the
/// words of a live one of twelve or more. Any other is not.
pub proof fn lost_words_are_noticed(
    final_transcript: Seq<char>,
    partial: Seq<char>,
    final_lower: Seq<char>,
    partial_lower: Seq<char>,
)
    requires
        text::words(partial).len() >= 8,
        text::words(final_transcript).len() < text::words(partial).len(),
        10 * text::words(partial).len() <= usize::MAX,
    ensures
        ({
            let is_end = exists|head: Seq<char>|
                partial_lower == #[trigger] (head + text::trimmed(final_lower));
            let far_fewer = text::words(partial).len() >= 12 && 10 * text::words(
                final_transcript,
            ).len() < 7 * text::words(partial).len();
            truncated(final_transcript, partial, final_lower, partial_lower) <==> is_end || far_fewer
        }),
{
    let end = text::trimmed(final_lower);
    if text::ends(partial_lower, end) {
        text::found_parts_are_there(partial_lower, end);
    }
    if exists|head: Seq<char>| partial_lower == #[trigger] (head + end) {
        let head = choose|head: Seq<char>| partial_lower == #[trigger] (head + end);
        text::parts_are_found(head, end, end);
    }
}

/// The live transcript is written in place of the final one only where it is longer and that has lost
/// words of it; it is written without the white space at its ends then.
pub proof fn the_live_transcript_wins_only_over_a_cut_one(
    final_transcript: Seq<char>,
    partial: Seq<char>,
)
    ensures
        chosen(final_transcript, None) == final_transcript,
        choice(final_transcript, None) is None,
        ({
            let live = text::trimmed(partial);
            let cut = final_transcript.len() < live.len() && truncated(
                final_transcript,
                live,
                text::lowercase(final_transcript),
                text::lowercase(live),
            );
            &&& cut ==> chosen(final_transcript, Some(partial)) == live && choice(
                final_transcript,
                Some(partial),
            ) == Some(FinalChoice::Partial)
            &&& !cut ==> chosen(final_transcript, Some(partial)) == final_transcript && choice(
                final_transcript,
                Some(partial),
            ) != Some(FinalChoice::Partial)
            &&& choice(final_transcript, Some(partial)) is Some <==> final_transcript.len()
                < live.len()
        }),
{
}

/// A log line shows the words of a transcript with single spaces between them, no more than its first
/// 96 characters, with dots where the transcript is longer.
pub proof fn previews_are_short(text: Seq<char>)
    ensures
        preview(text).len() <= 99,
        text.len() <= 96 && text::joined(text::words(text), " "@).len() <= 96 ==> preview(text)
            == text::joined(text::words(text), " "@),
        text.len() > 96 && text::joined(text::words(text), " "@).len() >= 96 ==> preview(text)
            == text::joined(text::words(text), " "@).take(96) + "..."@,
{
    reveal_strlit("...");
    let line = text::joined(text::words(text), " "@);
    if line.len() == 96 {
        assert(line.take(96) =~= line);
    }
}

} // verus!
