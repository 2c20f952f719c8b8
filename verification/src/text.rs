//! Text helpers on the characters of a string.

use vstd::prelude::*;
use vstd::string::*;

verus! {

/// The characters with the Unicode property `White_Space`.
pub open spec fn white_space(c: char) -> bool {
    let n = c as int;
    ||| 0x9 <= n <= 0xd
    ||| n == 0x20
    ||| n == 0x85
    ||| n == 0xa0
    ||| n == 0x1680
    ||| 0x2000 <= n <= 0x200a
    ||| n == 0x2028
    ||| n == 0x2029
    ||| n == 0x202f
    ||| n == 0x205f
    ||| n == 0x3000
}

/// `s` without the white space at either end.
pub open spec fn trimmed(s: Seq<char>) -> Seq<char>
    decreases s.len(),
{
    if s.len() == 0 {
        s
    } else if white_space(s[0]) {
        trimmed(s.drop_first())
    } else if white_space(s.last()) {
        trimmed(s.drop_last())
    } else {
        s
    }
}

/// What is left of `s` after trimming, if anything is.
pub open spec fn non_empty(s: Seq<char>) -> Option<Seq<char>> {
    if trimmed(s).len() == 0 {
        None
    } else {
        Some(trimmed(s))
    }
}

/// The view of an optional string.
pub open spec fn opt_view(s: Option<String>) -> Option<Seq<char>> {
    match s {
        Some(s) => Some(s@),
        None => None,
    }
}

/// The view of an optional string slice.
pub open spec fn opt_str_view(s: Option<&str>) -> Option<Seq<char>> {
    match s {
        Some(s) => Some(s@),
        None => None,
    }
}

/// A text, or the empty one.
pub open spec fn or_empty(s: Option<Seq<char>>) -> Seq<char> {
    match s {
        Some(s) => s,
        None => seq![],
    }
}

/// The views of a sequence of strings.
pub open spec fn views(s: Seq<String>) -> Seq<Seq<char>> {
    s.map_values(|t: String| t@)
}

/// Whether `s` begins with `prefix`.
pub open spec fn begins(s: Seq<char>, prefix: Seq<char>) -> bool {
    prefix.len() <= s.len() && s.take(prefix.len() as int) == prefix
}

/// Whether `s` ends with `suffix`.
pub open spec fn ends(s: Seq<char>, suffix: Seq<char>) -> bool {
    suffix.len() <= s.len() && s.skip(s.len() - suffix.len()) == suffix
}

/// Whether `part` stands at position `i` of `s`.
pub open spec fn occurs_at(s: Seq<char>, part: Seq<char>, i: int) -> bool {
    0 <= i && i + part.len() <= s.len() && s.subrange(i, i + part.len()) == part
}

/// Whether `part` stands somewhere in `s`.
pub open spec fn occurs(s: Seq<char>, part: Seq<char>) -> bool {
    exists|i: int| occurs_at(s, part, i)
}

/// Where `part` stands first in `s`.
pub open spec fn first_index(s: Seq<char>, part: Seq<char>) -> Option<nat>
    decreases s.len(),
{
    if begins(s, part) {
        Some(0)
    } else if s.len() == 0 {
        None
    } else {
        match first_index(s.drop_first(), part) {
            Some(i) => Some(i + 1),
            None => None,
        }
    }
}

/// The pieces of `s` between the occurrences of a separator, which is not empty.
pub open spec fn pieces(s: Seq<char>, sep: Seq<char>) -> Seq<Seq<char>>
    decreases s.len(),
{
    match first_index(s, sep) {
        None => seq![s],
        Some(i) => if sep.len() == 0 || i + sep.len() > s.len() {
            seq![s]
        } else {
            seq![s.take(i as int)] + pieces(s.skip((i + sep.len()) as int), sep)
        },
    }
}

/// `s` without one carriage return at its end.
pub open spec fn without_return(s: Seq<char>) -> Seq<char> {
    if s.len() > 0 && s.last() == '\r' {
        s.drop_last()
    } else {
        s
    }
}

/// The lines of `s`. A line ends with a newline, or a carriage return and a newline; the end of
/// the last one may be missing.
pub open spec fn lines(s: Seq<char>) -> Seq<Seq<char>>
    decreases s.len(),
{
    if s.len() == 0 {
        seq![]
    } else {
        match first_index(s, seq!['\n']) {
            None => seq![s],
            Some(i) => if i + 1 > s.len() {
                seq![s]
            } else {
                seq![without_return(s.take(i as int))] + lines(s.skip((i + 1) as int))
            },
        }
    }
}

/// Whether `s` holds neither a newline nor a carriage return.
pub open spec fn one_line(s: Seq<char>) -> bool {
    forall|i: int| 0 <= i < s.len() ==> #[trigger] s[i] != '\n' && s[i] != '\r'
}

/// How many characters at the start of `s` are no white space.
pub open spec fn word_len(s: Seq<char>) -> nat
    decreases s.len(),
{
    if s.len() == 0 || white_space(s[0]) {
        0
    } else {
        1 + word_len(s.drop_first())
    }
}

/// The longest stretches of `s` without white space.
pub open spec fn words(s: Seq<char>) -> Seq<Seq<char>>
    decreases s.len(),
{
    if s.len() == 0 {
        seq![]
    } else if white_space(s[0]) {
        words(s.drop_first())
    } else if word_len(s) == 0 || word_len(s) > s.len() {
        seq![]
    } else {
        seq![s.take(word_len(s) as int)] + words(s.skip(word_len(s) as int))
    }
}

/// The parts in order, with `sep` between each two.
pub open spec fn joined(parts: Seq<Seq<char>>, sep: Seq<char>) -> Seq<char>
    decreases parts.len(),
{
    if parts.len() == 0 {
        seq![]
    } else if parts.len() == 1 {
        parts[0]
    } else {
        joined(parts.drop_last(), sep) + sep + parts.last()
    }
}

/// The lower case of an ASCII letter; any other character as it is.
pub open spec fn ascii_lower_char(c: char) -> char {
    if 'A' <= c && c <= 'Z' {
        ((c as u32) + 32) as char
    } else {
        c
    }
}

/// `s` with each ASCII letter in lower case.
pub open spec fn ascii_lower(s: Seq<char>) -> Seq<char> {
    s.map_values(|c: char| ascii_lower_char(c))
}

/// The decimal digit of a number below ten.
pub open spec fn digit(n: nat) -> char {
    (48 + n) as char
}

/// The decimal notation of `n`.
pub open spec fn decimal(n: nat) -> Seq<char>
    decreases n,
{
    if n < 10 {
        seq![digit(n)]
    } else {
        decimal(n / 10).push(digit(n % 10))
    }
}

/// Whether `c` is an ASCII digit.
pub open spec fn is_digit_char(c: char) -> bool {
    '0' <= c && c <= '9'
}

/// Whether `s` is one or more ASCII digits.
pub open spec fn is_number(s: Seq<char>) -> bool {
    s.len() > 0 && forall|i: int| 0 <= i < s.len() ==> is_digit_char(#[trigger] s[i])
}

/// The value of a run of decimal digits.
pub open spec fn number_value(s: Seq<char>) -> nat
    decreases s.len(),
{
    if s.len() == 0 {
        0
    } else {
        (10 * number_value(s.drop_last()) + (s.last() as int - 48)) as nat
    }
}

/// The number that `s` denotes: decimal digits, with or without a plus sign, of value at
/// most `max`.
pub open spec fn parsed_unsigned(s: Seq<char>, max: nat) -> Option<nat> {
    let digits = if s.len() > 0 && s[0] == '+' {
        s.drop_first()
    } else {
        s
    };
    if is_number(digits) && number_value(digits) <= max {
        Some(number_value(digits))
    } else {
        None
    }
}

/// The number that `s` denotes: as [`parsed_unsigned`], or a minus sign and decimal digits.
pub open spec fn parsed_signed(s: Seq<char>, max: nat) -> Option<int> {
    if s.len() > 0 && s[0] == '-' {
        let digits = s.drop_first();
        if is_number(digits) && number_value(digits) <= max + 1 {
            Some(-(number_value(digits) as int))
        } else {
            None
        }
    } else {
        match parsed_unsigned(s, max) {
            Some(n) => Some(n as int),
            None => None,
        }
    }
}

/// `String::push` appends one character.
pub assume_specification[ String::push ](s: &mut String, ch: char)
    ensures
        final(s)@ == old(s)@.push(ch),
;

/// Whether `c` has the Unicode property `White_Space`.
pub fn is_white_space(c: char) -> (r: bool)
    ensures
        r == white_space(c),
{
    let n: u32 = c as u32;
    (0x9 <= n && n <= 0xd) || n == 0x20 || n == 0x85 || n == 0xa0 || n == 0x1680 || (0x2000 <= n
        && n <= 0x200a) || n == 0x2028 || n == 0x2029 || n == 0x202f || n == 0x205f || n == 0x3000
}

/// The characters of `s`.
pub fn chars_of(s: &str) -> (r: Vec<char>)
    ensures
        r@ == s@,
{
    let mut out: Vec<char> = Vec::new();
    for c in it: s.chars()
        invariant
            it.seq() == s@,
            out@ == s@.take(it.index()),
    {
        out.push(c);
    }
    out
}

/// The string made of `chars[from..to]`.
pub fn string_of(chars: &[char], from: usize, to: usize) -> (r: String)
    requires
        from <= to <= chars@.len(),
    ensures
        r@ == chars@.subrange(from as int, to as int),
{
    let mut out = String::new();
    let mut i: usize = from;
    while i < to
        invariant
            from <= i <= to <= chars@.len(),
            out@ == chars@.subrange(from as int, i as int),
        decreases to - i,
    {
        out.push(chars[i]);
        i += 1;
    }
    out
}

/// Whether two texts are the same.
pub fn same_text(a: &str, b: &str) -> (r: bool)
    ensures
        r == (a@ == b@),
{
    a.to_owned() == b.to_owned()
}

/// A text without the white space at either end.
pub fn trim<'a>(s: &'a str) -> (r: &'a str)
    ensures
        r@ == trimmed(s@),
{
    let chars = chars_of(s);
    let mut from: usize = 0;
    proof {
        assert(s@.skip(0) =~= s@);
    }
    while from < chars.len() && is_white_space(chars[from])
        invariant
            from <= chars@.len(),
            chars@ == s@,
            trimmed(s@) == trimmed(s@.skip(from as int)),
        decreases chars@.len() - from,
    {
        proof {
            assert(s@.skip(from as int).drop_first() =~= s@.skip(from + 1));
        }
        from += 1;
    }
    let mut to: usize = chars.len();
    proof {
        assert(s@.subrange(from as int, to as int) =~= s@.skip(from as int));
    }
    while from < to && is_white_space(chars[to - 1])
        invariant
            from <= to <= chars@.len(),
            chars@ == s@,
            trimmed(s@) == trimmed(s@.subrange(from as int, to as int)),
            from < to ==> !white_space(s@[from as int]),
        decreases to,
    {
        proof {
            assert(s@.subrange(from as int, to as int).drop_last() =~= s@.subrange(
                from as int,
                to - 1,
            ));
        }
        to -= 1;
    }
    s.substring_char(from, to)
}

/// A text, or the empty one.
pub fn owned_or_empty(s: Option<&str>) -> (r: String)
    ensures
        r@ == or_empty(opt_str_view(s)),
{
    match s {
        Some(s) => s.to_owned(),
        None => String::new(),
    }
}

/// The trimmed text, or nothing if only white space is in it.
pub fn non_empty_str(value: &str) -> (r: Option<&str>)
    ensures
        opt_str_view(r) == non_empty(value@),
{
    let rest = trim(value);
    if rest.unicode_len() == 0 {
        None
    } else {
        Some(rest)
    }
}

/// The trimmed text, or nothing if only white space is in it.
pub fn non_empty_string(value: String) -> (r: Option<String>)
    ensures
        opt_view(r) == non_empty(value@),
{
    match non_empty_str(value.as_str()) {
        Some(text) => Some(text.to_owned()),
        None => None,
    }
}

/// Whether `s` begins with `prefix`.
pub fn starts_with(s: &str, prefix: &str) -> (r: bool)
    ensures
        r == begins(s@, prefix@),
{
    let n = prefix.unicode_len();
    if n > s.unicode_len() {
        return false;
    }
    let head = s.substring_char(0, n);
    proof {
        assert(head@ =~= s@.take(n as int));
    }
    same_text(head, prefix)
}

/// Whether `s` ends with `suffix`.
pub fn ends_with(s: &str, suffix: &str) -> (r: bool)
    ensures
        r == ends(s@, suffix@),
{
    let n = suffix.unicode_len();
    let len = s.unicode_len();
    if n > len {
        return false;
    }
    let tail = s.substring_char(len - n, len);
    proof {
        assert(tail@ =~= s@.skip(len - n));
    }
    same_text(tail, suffix)
}

/// Whether `part` stands at position `at` of `chars`.
fn stands_at(chars: &[char], part: &[char], at: usize) -> (r: bool)
    requires
        at <= chars@.len(),
    ensures
        r == begins(chars@.skip(at as int), part@),
{
    let len: usize = chars.len();
    if part.len() > len - at {
        return false;
    }
    let ghost rest = chars@.skip(at as int);
    let mut i: usize = 0;
    while i < part.len()
        invariant
            i <= part@.len(),
            at + part@.len() <= len == chars@.len(),
            rest == chars@.skip(at as int),
            forall|j: int| 0 <= j < i ==> rest[j] == part@[j],
        decreases part@.len() - i,
    {
        if chars[at + i] != part[i] {
            proof {
                assert(rest.take(part@.len() as int)[i as int] != part@[i as int]);
            }
            return false;
        }
        i += 1;
    }
    proof {
        assert(rest.take(part@.len() as int) =~= part@);
    }
    true
}

/// Where `part` stands first in `chars`, at `from` or later.
fn find_from(chars: &[char], part: &[char], from: usize) -> (r: Option<usize>)
    requires
        from <= chars@.len(),
    ensures
        match r {
            Some(i) => from <= i && i + part@.len() <= chars@.len() && first_index(
                chars@.skip(from as int),
                part@,
            ) == Some((i - from) as nat),
            None => first_index(chars@.skip(from as int), part@) is None,
        },
{
    let mut i: usize = from;
    loop
        invariant
            from <= i <= chars@.len(),
            first_index(chars@.skip(from as int), part@) == match first_index(
                chars@.skip(i as int),
                part@,
            ) {
                Some(k) => Some((k + (i - from)) as nat),
                None => None,
            },
        decreases chars@.len() - i,
    {
        if stands_at(chars, part, i) {
            return Some(i);
        }
        if i == chars.len() {
            return None;
        }
        proof {
            assert(chars@.skip(i as int).drop_first() =~= chars@.skip(i + 1));
        }
        i += 1;
    }
}

/// The first index is the place of an occurrence, and nothing occurs without one.
pub proof fn first_index_is_an_occurrence(s: Seq<char>, part: Seq<char>)
    ensures
        match first_index(s, part) {
            Some(i) => occurs_at(s, part, i as int) && forall|j: int|
                0 <= j < i ==> !occurs_at(s, part, j),
            None => !occurs(s, part),
        },
    decreases s.len(),
{
    assert(s.take(part.len() as int) =~= s.subrange(0, part.len() as int));
    if begins(s, part) {
        assert(occurs_at(s, part, 0));
    } else if s.len() > 0 {
        let rest = s.drop_first();
        first_index_is_an_occurrence(rest, part);
        assert forall|j: int| j >= 1 && occurs_at(s, part, j) implies occurs_at(
            rest,
            part,
            j - 1,
        ) by {
            assert(rest.subrange(j - 1, j - 1 + part.len()) =~= s.subrange(j, j + part.len()));
        }
        assert(!occurs_at(s, part, 0));
        if first_index(rest, part) is Some {
            let i = first_index(rest, part)->0 as int;
            assert(rest.subrange(i, i + part.len()) =~= s.subrange(i + 1, i + 1 + part.len()));
        }
    } else {
        assert(!occurs_at(s, part, 0));
    }
}

/// A newline stands first behind characters that are none.
proof fn first_newline(before: Seq<char>, after: Seq<char>)
    requires
        forall|i: int| 0 <= i < before.len() ==> before[i] != '\n',
    ensures
        first_index(before + seq!['\n'] + after, seq!['\n']) == Some(before.len()),
    decreases before.len(),
{
    let s = before + seq!['\n'] + after;
    if before.len() == 0 {
        assert(s.take(1) =~= seq!['\n']);
    } else {
        assert(s.take(1)[0] == before[0]);
        assert(s.drop_first() =~= before.drop_first() + seq!['\n'] + after);
        first_newline(before.drop_first(), after);
    }
}

/// One more line behind ended ones is one more line.
pub proof fn one_more_line(ended: Seq<char>, line: Seq<char>)
    requires
        ended.len() == 0 || ended.last() == '\n',
        one_line(line),
    ensures
        lines((ended + line).push('\n')) == lines(ended).push(line),
    decreases ended.len(),
{
    let newline = seq!['\n'];
    let all = (ended + line).push('\n');
    if ended.len() == 0 {
        assert(all =~= line + newline + Seq::<char>::empty());
        first_newline(line, seq![]);
        assert(all.take(line.len() as int) =~= line);
        assert(all.skip((line.len() + 1) as int) =~= seq![]);
        if line.len() > 0 {
            assert(line[line.len() - 1] != '\r');
        }
        assert(without_return(line) == line);
        assert(lines(all) == seq![line] + lines(seq![]));
        assert(lines(all) =~= lines(ended).push(line));
    } else {
        first_index_is_an_occurrence(ended, newline);
        assert(ended.subrange(ended.len() - 1, ended.len() as int) =~= newline);
        assert(occurs_at(ended, newline, ended.len() - 1));
        let n = first_index(ended, newline)->0 as int;
        assert(occurs_at(ended, newline, n));
        let head = ended.take(n);
        let rest = ended.skip(n + 1);
        assert(ended.subrange(n, n + 1)[0] == '\n');
        assert forall|i: int| 0 <= i < head.len() implies head[i] != '\n' by {
            assert(!occurs_at(ended, newline, i));
            if ended[i] == '\n' {
                assert(ended.subrange(i, i + 1) =~= newline);
            }
        }
        assert(all =~= head + newline + (rest + line).push('\n'));
        first_newline(head, (rest + line).push('\n'));
        one_more_line(rest, line);
        assert(all.take(n) =~= head);
        assert(all.skip(n + 1) =~= (rest + line).push('\n'));
        assert(lines(all) =~= lines(ended).push(line));
    }
}

/// Whether `part` stands somewhere in `s`.
pub fn contains(s: &str, part: &str) -> (r: bool)
    ensures
        r == occurs(s@, part@),
{
    let chars = chars_of(s);
    let wanted = chars_of(part);
    proof {
        first_index_is_an_occurrence(s@, part@);
        assert(s@.skip(0) =~= s@);
    }
    match find_from(&chars, &wanted, 0) {
        Some(_) => true,
        None => false,
    }
}

/// The pieces of `s` between the occurrences of `sep`.
pub fn split_on(s: &str, sep: &str) -> (r: Vec<String>)
    requires
        sep@.len() > 0,
    ensures
        views(r@) == pieces(s@, sep@),
{
    let chars = chars_of(s);
    let wanted = chars_of(sep);
    let len: usize = chars.len();
    let mut out: Vec<String> = Vec::new();
    let mut from: usize = 0;
    proof {
        assert(s@.skip(0) =~= s@);
        assert(views(out@) + pieces(s@, sep@) =~= pieces(s@, sep@));
    }
    loop
        invariant
            from <= len == chars@.len(),
            chars@ == s@,
            wanted@ == sep@,
            sep@.len() > 0,
            pieces(s@, sep@) == views(out@) + pieces(s@.skip(from as int), sep@),
        decreases chars@.len() - from,
    {
        let ghost rest = s@.skip(from as int);
        let ghost before = out@;
        match find_from(&chars, &wanted, from) {
            Some(i) => {
                out.push(string_of(&chars, from, i));
                proof {
                    assert(out@.last()@ =~= rest.take(i - from));
                    assert(rest.skip(i - from + sep@.len()) =~= s@.skip(i + sep@.len()));
                    assert(views(out@) =~= views(before).push(rest.take(i - from)));
                    assert(views(before) + (seq![rest.take(i - from)] + pieces(
                        s@.skip(i + sep@.len()),
                        sep@,
                    )) =~= views(out@) + pieces(s@.skip(i + sep@.len()), sep@));
                }
                from = i + wanted.len();
            },
            None => {
                out.push(string_of(&chars, from, len));
                proof {
                    assert(out@.last()@ =~= rest);
                    assert(views(out@) =~= views(before) + seq![rest]);
                }
                return out;
            },
        }
    }
}

/// The lines of `s`.
pub fn lines_of(s: &str) -> (r: Vec<String>)
    ensures
        views(r@) == lines(s@),
{
    let chars = chars_of(s);
    let newline: Vec<char> = vec!['\n'];
    let len: usize = chars.len();
    let mut out: Vec<String> = Vec::new();
    let mut from: usize = 0;
    proof {
        assert(newline@ =~= seq!['\n']);
        assert(s@.skip(0) =~= s@);
        assert(views(out@) + lines(s@) =~= lines(s@));
    }
    while from < len
        invariant
            from <= len == chars@.len(),
            chars@ == s@,
            newline@ == seq!['\n'],
            lines(s@) == views(out@) + lines(s@.skip(from as int)),
        decreases len - from,
    {
        let ghost rest = s@.skip(from as int);
        let ghost before = out@;
        match find_from(&chars, &newline, from) {
            Some(i) => {
                let end: usize = if i > from && chars[i - 1] == '\r' {
                    i - 1
                } else {
                    i
                };
                out.push(string_of(&chars, from, end));
                proof {
                    assert(out@.last()@ =~= without_return(rest.take(i - from)));
                    assert(rest.skip(i - from + 1) =~= s@.skip(i + 1));
                    assert(views(out@) =~= views(before).push(
                        without_return(rest.take(i - from)),
                    ));
                    assert(views(before) + (seq![without_return(rest.take(i - from))] + lines(
                        s@.skip(i + 1),
                    )) =~= views(out@) + lines(s@.skip(i + 1)));
                }
                from = i + 1;
            },
            None => {
                out.push(string_of(&chars, from, len));
                proof {
                    assert(out@.last()@ =~= rest);
                    assert(views(out@) =~= views(before) + seq![rest]);
                }
                return out;
            },
        }
    }
    proof {
        assert(s@.skip(from as int).len() == 0);
        assert(views(out@) + Seq::<Seq<char>>::empty() =~= views(out@));
    }
    out
}

/// The word length is that of the longest stretch without white space.
proof fn word_len_bounds(s: Seq<char>)
    ensures
        word_len(s) <= s.len(),
        forall|i: int| 0 <= i < word_len(s) ==> !white_space(#[trigger] s[i]),
        word_len(s) < s.len() ==> white_space(s[word_len(s) as int]),
    decreases s.len(),
{
    if s.len() > 0 && !white_space(s[0]) {
        word_len_bounds(s.drop_first());
        assert forall|i: int| 0 <= i < word_len(s) implies !white_space(#[trigger] s[i]) by {
            if i > 0 {
                assert(s[i] == s.drop_first()[i - 1]);
            }
        }
    }
}

/// The word length follows from where white space stands.
proof fn word_len_is(s: Seq<char>, n: nat)
    requires
        n <= s.len(),
        forall|i: int| 0 <= i < n ==> !white_space(#[trigger] s[i]),
        n < s.len() ==> white_space(s[n as int]),
    ensures
        word_len(s) == n,
{
    word_len_bounds(s);
    if word_len(s) < n {
        assert(!white_space(s[word_len(s) as int]));
    } else if word_len(s) > n {
        assert(!white_space(s[n as int]));
    }
}

/// The longest stretches of `s` without white space.
pub fn words_of(s: &str) -> (r: Vec<String>)
    ensures
        views(r@) == words(s@),
{
    let chars = chars_of(s);
    let len: usize = chars.len();
    let mut out: Vec<String> = Vec::new();
    let mut from: usize = 0;
    proof {
        assert(s@.skip(0) =~= s@);
        assert(views(out@) + words(s@) =~= words(s@));
    }
    while from < len
        invariant
            from <= len == chars@.len(),
            chars@ == s@,
            words(s@) == views(out@) + words(s@.skip(from as int)),
        decreases len - from,
    {
        let ghost rest = s@.skip(from as int);
        let ghost before = out@;
        if is_white_space(chars[from]) {
            proof {
                assert(rest.drop_first() =~= s@.skip(from + 1));
            }
            from += 1;
        } else {
            let mut to: usize = from;
            while to < len && !is_white_space(chars[to])
                invariant
                    from <= to <= len == chars@.len(),
                    chars@ == s@,
                    forall|i: int| from <= i < to ==> !white_space(#[trigger] s@[i]),
                decreases len - to,
            {
                to += 1;
            }
            out.push(string_of(&chars, from, to));
            proof {
                word_len_is(rest, (to - from) as nat);
                assert(out@.last()@ =~= rest.take(to - from));
                assert(rest.skip(to - from) =~= s@.skip(to as int));
                assert(views(out@) =~= views(before).push(rest.take(to - from)));
                assert(views(before) + (seq![rest.take(to - from)] + words(s@.skip(to as int)))
                    =~= views(out@) + words(s@.skip(to as int)));
            }
            from = to;
        }
    }
    proof {
        assert(views(out@) + words(s@.skip(from as int)) =~= views(out@));
    }
    out
}

/// The parts in order, with `sep` between each two.
pub fn join(parts: &Vec<String>, sep: &str) -> (r: String)
    ensures
        r@ == joined(views(parts@), sep@),
{
    let mut out = String::new();
    let mut i: usize = 0;
    while i < parts.len()
        invariant
            i <= parts@.len(),
            out@ == joined(views(parts@).take(i as int), sep@),
        decreases parts@.len() - i,
    {
        proof {
            assert(views(parts@).take(i + 1).drop_last() =~= views(parts@).take(i as int));
            assert(views(parts@).take(i + 1).last() == parts@[i as int]@);
        }
        if i > 0 {
            out.append(sep);
        }
        out.append(parts[i].as_str());
        i += 1;
    }
    proof {
        assert(views(parts@).take(i as int) =~= views(parts@));
    }
    out
}

/// The parts that are not empty.
pub open spec fn non_empty_parts(parts: Seq<Seq<char>>) -> Seq<Seq<char>>
    decreases parts.len(),
{
    if parts.len() == 0 {
        seq![]
    } else if parts.last().len() == 0 {
        non_empty_parts(parts.drop_last())
    } else {
        non_empty_parts(parts.drop_last()).push(parts.last())
    }
}

/// The parts that are not empty.
pub fn without_empty(parts: Vec<String>) -> (r: Vec<String>)
    ensures
        views(r@) == non_empty_parts(views(parts@)),
{
    let mut out: Vec<String> = Vec::new();
    let mut i: usize = 0;
    while i < parts.len()
        invariant
            i <= parts@.len(),
            views(out@) == non_empty_parts(views(parts@).take(i as int)),
        decreases parts@.len() - i,
    {
        let ghost before = out@;
        proof {
            assert(views(parts@).take(i + 1).drop_last() =~= views(parts@).take(i as int));
            assert(views(parts@).take(i + 1).last() == parts@[i as int]@);
        }
        if parts[i].as_str().unicode_len() > 0 {
            out.push(parts[i].clone());
            proof {
                assert(views(out@) =~= views(before).push(parts@[i as int]@));
            }
        }
        i += 1;
    }
    proof {
        assert(views(parts@).take(i as int) =~= views(parts@));
    }
    out
}

/// Adds a text to a list of texts.
pub fn push_text(list: &mut Vec<String>, text: &str)
    ensures
        views(final(list)@) == views(old(list)@).push(text@),
{
    list.push(text.to_owned());
    proof {
        assert(views(list@) =~= views(old(list)@).push(text@));
    }
}

/// A copy of a list of texts.
pub fn clone_texts(list: &Vec<String>) -> (r: Vec<String>)
    ensures
        views(r@) == views(list@),
{
    let mut out: Vec<String> = Vec::new();
    let mut i: usize = 0;
    proof {
        assert(views(out@) =~= views(list@).take(0));
    }
    while i < list.len()
        invariant
            i <= list@.len(),
            views(out@) == views(list@).take(i as int),
        decreases list@.len() - i,
    {
        push_text(&mut out, list[i].as_str());
        proof {
            assert(views(out@) =~= views(list@).take(i + 1));
        }
        i += 1;
    }
    proof {
        assert(views(list@).take(i as int) =~= views(list@));
    }
    out
}

/// A copy of an optional text.
pub fn clone_optional(value: &Option<String>) -> (r: Option<String>)
    ensures
        opt_view(r) == opt_view(*value),
{
    match value {
        Some(value) => Some(value.clone()),
        None => None,
    }
}

/// The components of a path: what stands between slashes, but for empty ones and single dots.
pub open spec fn path_components(parts: Seq<Seq<char>>) -> Seq<Seq<char>>
    decreases parts.len(),
{
    if parts.len() == 0 {
        seq![]
    } else if parts.last().len() == 0 || parts.last() == "."@ {
        path_components(parts.drop_last())
    } else {
        path_components(parts.drop_last()).push(parts.last())
    }
}

/// The last component of a path, unless that leads upwards.
pub open spec fn path_file_name(path: Seq<char>) -> Option<Seq<char>> {
    let components = path_components(pieces(path, "/"@));
    if components.len() == 0 || components.last() == ".."@ {
        None
    } else {
        Some(components.last())
    }
}

/// The last component of a path, unless that leads upwards.
pub fn file_name(path: &str) -> (r: Option<String>)
    ensures
        opt_view(r) == path_file_name(path@),
{
    proof {
        reveal_strlit("/");
    }
    let parts = split_on(path, "/");
    let ghost all = views(parts@);
    let mut i: usize = parts.len();
    proof {
        assert(all.take(i as int) =~= all);
    }
    while i > 0
        invariant
            i <= parts@.len(),
            all == views(parts@),
            all == pieces(path@, "/"@),
            path_components(all) == path_components(all.take(i as int)),
        decreases i,
    {
        i -= 1;
        proof {
            assert(all.take(i + 1).drop_last() =~= all.take(i as int));
            assert(all.take(i + 1).last() == parts@[i as int]@);
        }
        let part = parts[i].as_str();
        if part.unicode_len() > 0 && !same_text(part, ".") {
            if same_text(part, "..") {
                return None;
            }
            return Some(part.to_owned());
        }
    }
    None
}

/// A path and a relative path below it.
pub open spec fn joined_path(base: Seq<char>, below: Seq<char>) -> Seq<char> {
    if base.len() == 0 || base.last() == '/' {
        base + below
    } else {
        base.push('/') + below
    }
}

/// A path and a relative path below it.
pub fn join_path(base: &str, below: &str) -> (r: String)
    ensures
        r@ == joined_path(base@, below@),
{
    let n = base.unicode_len();
    let mut out = base.to_owned();
    if n > 0 && base.get_char(n - 1) != '/' {
        out.push('/');
    }
    out.append(below);
    out
}

/// Whether a path starts at the root.
pub open spec fn absolute(path: Seq<char>) -> bool {
    path.len() > 0 && path[0] == '/'
}

/// Whether a path starts at the root.
pub fn is_absolute(path: &str) -> (r: bool)
    ensures
        r == absolute(path@),
{
    path.unicode_len() > 0 && path.get_char(0) == '/'
}

/// A text with each ASCII letter in lower case.
pub fn to_ascii_lowercase(s: &str) -> (r: String)
    ensures
        r@ == ascii_lower(s@),
{
    let chars = chars_of(s);
    let mut out = String::new();
    let mut i: usize = 0;
    while i < chars.len()
        invariant
            i <= chars@.len(),
            chars@ == s@,
            out@ == ascii_lower(s@).take(i as int),
        decreases chars@.len() - i,
    {
        let c = chars[i];
        let lower: char = if 'A' <= c && c <= 'Z' {
            (c as u8 + 32) as char
        } else {
            c
        };
        out.push(lower);
        proof {
            assert(out@ =~= ascii_lower(s@).take(i + 1));
        }
        i += 1;
    }
    out
}

/// What Unicode lower-casing makes of a text.
pub uninterp spec fn lowercase(s: Seq<char>) -> Seq<char>;

/// `str::to_lowercase`: the lower case of a text by the Unicode tables, a function of the
/// text alone.
#[verifier::external_body]
pub(crate) fn to_lowercase(s: &str) -> (r: String)
    ensures
        r@ == lowercase(s@),
{
    s.to_lowercase()
}

/// `String::from_utf8`: the text that some bytes encode, if they are valid UTF-8.
#[verifier::external_body]
pub(crate) fn text_from_utf8(bytes: Vec<u8>) -> (r: Option<String>)
    ensures
        match r {
            Some(s) => vstd::utf8::valid_utf8(bytes@) && s@ == vstd::utf8::decode_utf8(bytes@),
            None => !vstd::utf8::valid_utf8(bytes@),
        },
{
    String::from_utf8(bytes).ok()
}

/// The decimal notation of `n`.
pub fn decimal_text(n: u128) -> (r: String)
    ensures
        r@ == decimal(n as nat),
{
    let mut digits: Vec<char> = Vec::new();
    let mut rest: u128 = n;
    proof {
        assert(decimal(n as nat) + digits@.reverse() =~= decimal(n as nat));
    }
    while rest >= 10
        invariant
            decimal(n as nat) == decimal(rest as nat) + digits@.reverse(),
        decreases rest,
    {
        let d: u8 = 48 + (rest % 10) as u8;
        let ghost before = digits@;
        digits.push(d as char);
        proof {
            assert(decimal(rest as nat) == decimal((rest / 10) as nat).push(d as char));
            assert(decimal((rest / 10) as nat).push(d as char) + before.reverse() =~= decimal(
                (rest / 10) as nat,
            ) + digits@.reverse());
        }
        rest = rest / 10;
    }
    let d: u8 = 48 + rest as u8;
    let ghost before = digits@;
    digits.push(d as char);
    proof {
        assert(decimal(n as nat) =~= digits@.reverse());
    }
    let mut out = String::new();
    let mut i: usize = digits.len();
    while i > 0
        invariant
            i <= digits@.len(),
            out@ == digits@.reverse().take(digits@.len() - i),
        decreases i,
    {
        i -= 1;
        out.push(digits[i]);
        proof {
            assert(out@ =~= digits@.reverse().take(digits@.len() - i));
        }
    }
    proof {
        assert(out@ =~= digits@.reverse());
    }
    out
}

/// Leaving digits out at the end leaves a value that is not larger.
proof fn number_value_prefix(s: Seq<char>, n: int)
    requires
        0 <= n <= s.len(),
        forall|i: int| 0 <= i < s.len() ==> is_digit_char(#[trigger] s[i]),
    ensures
        number_value(s.take(n)) <= number_value(s),
    decreases s.len() - n,
{
    if n < s.len() {
        number_value_prefix(s, n + 1);
        assert(s.take(n + 1).drop_last() =~= s.take(n));
        assert(is_digit_char(s[n]));
    } else {
        assert(s.take(n) =~= s);
    }
}

/// The value of the decimal digits `chars[from..]`, if they are digits and it is at most `max`.
fn digits_value(chars: &[char], from: usize, max: u64) -> (r: Option<u64>)
    requires
        from <= chars@.len(),
        max <= 0xffff_ffff,
    ensures
        match r {
            Some(n) => is_number(chars@.skip(from as int)) && n == number_value(
                chars@.skip(from as int),
            ) && n <= max,
            None => !(is_number(chars@.skip(from as int)) && number_value(chars@.skip(from as int))
                <= max),
        },
{
    let ghost s = chars@.skip(from as int);
    let len: usize = chars.len();
    if from == len {
        return None;
    }
    let mut value: u64 = 0;
    let mut i: usize = from;
    while i < len
        invariant
            from <= i <= len == chars@.len(),
            s == chars@.skip(from as int),
            max <= 0xffff_ffff,
            value <= max,
            forall|j: int| 0 <= j < i - from ==> is_digit_char(#[trigger] s[j]),
            value == number_value(s.take(i - from)),
        decreases len - i,
    {
        let c = chars[i];
        if !('0' <= c && c <= '9') {
            proof {
                assert(!is_digit_char(s[i - from]));
            }
            return None;
        }
        proof {
            assert(s.take(i + 1 - from).drop_last() =~= s.take(i - from));
            assert(s.take(i + 1 - from).last() == c);
        }
        value = 10 * value + (c as u64 - 48);
        if value > max {
            proof {
                if is_number(s) {
                    number_value_prefix(s, i + 1 - from);
                }
            }
            return None;
        }
        i += 1;
    }
    proof {
        assert(s.take(i - from) =~= s);
    }
    Some(value)
}

/// The `u32` that a text denotes.
pub fn parse_u32(s: &str) -> (r: Option<u32>)
    ensures
        match r {
            Some(n) => parsed_unsigned(s@, u32::MAX as nat) == Some(n as nat),
            None => parsed_unsigned(s@, u32::MAX as nat) is None,
        },
{
    let chars = chars_of(s);
    let from: usize = if chars.len() > 0 && chars[0] == '+' {
        1
    } else {
        0
    };
    proof {
        assert(s@.skip(0) =~= s@);
        if s@.len() > 0 {
            assert(s@.skip(1) =~= s@.drop_first());
        }
    }
    match digits_value(&chars, from, 0xffff_ffff) {
        Some(n) => Some(n as u32),
        None => None,
    }
}

/// The `i32` that a text denotes.
pub fn parse_i32(s: &str) -> (r: Option<i32>)
    ensures
        match r {
            Some(n) => parsed_signed(s@, i32::MAX as nat) == Some(n as int),
            None => parsed_signed(s@, i32::MAX as nat) is None,
        },
{
    let chars = chars_of(s);
    proof {
        assert(s@.skip(0) =~= s@);
        if s@.len() > 0 {
            assert(s@.skip(1) =~= s@.drop_first());
        }
    }
    if chars.len() > 0 && chars[0] == '-' {
        match digits_value(&chars, 1, 0x8000_0000) {
            Some(n) => Some((0 - n as i64) as i32),
            None => None,
        }
    } else {
        let from: usize = if chars.len() > 0 && chars[0] == '+' {
            1
        } else {
            0
        };
        match digits_value(&chars, from, 0x7fff_ffff) {
            Some(n) => Some(n as i32),
            None => None,
        }
    }
}

/// Trimming removes nothing from a trimmed text.
pub proof fn trimming_twice_is_trimming_once(s: Seq<char>)
    ensures
        trimmed(trimmed(s)) == trimmed(s),
    decreases s.len(),
{
    if s.len() > 0 {
        if white_space(s[0]) {
            trimming_twice_is_trimming_once(s.drop_first());
        } else if white_space(s.last()) {
            trimming_twice_is_trimming_once(s.drop_last());
        }
    }
}

/// A trimmed text is the text from its first character that is no white space to its last; all before
/// and behind is white space. Nothing is left exactly if there is nothing else.
pub proof fn trimming_takes_white_space_from_the_ends(s: Seq<char>) -> (span: (int, int))
    ensures
        0 <= span.0 <= span.1 <= s.len(),
        trimmed(s) == s.subrange(span.0, span.1),
        forall|i: int| 0 <= i < span.0 ==> white_space(#[trigger] s[i]),
        forall|i: int| span.1 <= i < s.len() ==> white_space(#[trigger] s[i]),
        trimmed(s).len() > 0 ==> !white_space(trimmed(s)[0]) && !white_space(trimmed(s).last()),
        trimmed(s).len() == 0 <==> forall|i: int| 0 <= i < s.len() ==> white_space(#[trigger] s[i]),
    decreases s.len(),
{
    if s.len() == 0 {
        assert(s.subrange(0, 0) =~= s);
        (0, 0)
    } else if white_space(s[0]) {
        let rest = s.drop_first();
        let span = trimming_takes_white_space_from_the_ends(rest);
        let found = (span.0 + 1, span.1 + 1);
        assert(rest.subrange(span.0, span.1) =~= s.subrange(found.0, found.1));
        assert forall|i: int| 0 <= i < found.0 implies white_space(#[trigger] s[i]) by {
            if i > 0 {
                assert(s[i] == rest[i - 1]);
            }
        }
        assert forall|i: int| found.1 <= i < s.len() implies white_space(#[trigger] s[i]) by {
            assert(s[i] == rest[i - 1]);
        }
        if found.0 < found.1 {
            assert(!white_space(s[found.0]));
        }
        found
    } else if white_space(s.last()) {
        let rest = s.drop_last();
        let span = trimming_takes_white_space_from_the_ends(rest);
        assert(rest.subrange(span.0, span.1) =~= s.subrange(span.0, span.1));
        assert(!white_space(rest[0]));
        assert forall|i: int| span.1 <= i < s.len() implies white_space(#[trigger] s[i]) by {
            if i < rest.len() {
                assert(s[i] == rest[i]);
            }
        }
        assert forall|i: int| 0 <= i < span.0 implies white_space(#[trigger] s[i]) by {
            assert(s[i] == rest[i]);
        }
        span
    } else {
        assert(s.subrange(0, s.len() as int) =~= s);
        (0, s.len() as int)
    }
}

/// In ASCII, blanks, tabs, line ends and page ends are white space, and nothing else; beyond it the
/// spaces and separators of Unicode are.
pub proof fn white_space_is_what_unicode_says(c: char)
    ensures
        (c as u32) < 0x80 ==> (white_space(c) <==> c == ' ' || c == '\t' || c == '\n' || c == '\u{b}'
            || c == '\u{c}' || c == '\r'),
        (c as u32) >= 0x80 ==> (white_space(c) <==> c == '\u{85}' || c == '\u{a0}' || c
            == '\u{1680}' || ('\u{2000}' <= c && c <= '\u{200a}') || c == '\u{2028}' || c
            == '\u{2029}' || c == '\u{202f}' || c == '\u{205f}' || c == '\u{3000}'),
{
}

/// A text begins with the first of two that it is made of, ends with the second, and what stands in
/// its middle occurs in it.
pub proof fn parts_are_found(a: Seq<char>, b: Seq<char>, c: Seq<char>)
    ensures
        begins(a + b, a),
        ends(a + b, b),
        occurs(a + b + c, b),
{
    assert((a + b).take(a.len() as int) =~= a);
    assert((a + b).skip(a.len() as int) =~= b);
    assert((a + b + c).subrange(a.len() as int, (a.len() + b.len()) as int) =~= b);
    assert(occurs_at(a + b + c, b, a.len() as int));
}

/// A text that begins or ends with a part, or holds it, is made of the part and the rest.
pub proof fn found_parts_are_there(s: Seq<char>, part: Seq<char>)
    ensures
        begins(s, part) ==> s == part + s.skip(part.len() as int),
        ends(s, part) ==> s == s.take(s.len() - part.len()) + part,
        occurs(s, part) ==> exists|i: int|
            0 <= i && i + part.len() <= s.len() && s == s.take(i) + part + #[trigger] s.skip(
                i + part.len(),
            ),
{
    if begins(s, part) {
        assert(s =~= s.take(part.len() as int) + s.skip(part.len() as int));
    }
    if ends(s, part) {
        assert(s =~= s.take(s.len() - part.len()) + s.skip(s.len() - part.len()));
    }
    if occurs(s, part) {
        let i = choose|i: int| occurs_at(s, part, i);
        assert(s =~= s.take(i) + s.subrange(i, i + part.len()) + s.skip(i + part.len()));
    }
}

/// The pieces of a text, with the separator between them again, are the text, and none of them holds
/// the separator.
pub proof fn pieces_make_the_text(s: Seq<char>, sep: Seq<char>)
    requires
        sep.len() > 0,
    ensures
        pieces(s, sep).len() > 0,
        joined(pieces(s, sep), sep) == s,
        forall|k: int| 0 <= k < pieces(s, sep).len() ==> !occurs(#[trigger] pieces(s, sep)[k], sep),
    decreases s.len(),
{
    first_index_is_an_occurrence(s, sep);
    match first_index(s, sep) {
        None => {
            assert(pieces(s, sep) =~= seq![s]);
        },
        Some(i) => {
            let head = s.take(i as int);
            let rest = s.skip((i + sep.len()) as int);
            pieces_make_the_text(rest, sep);
            joining_in_front(head, pieces(rest, sep), sep);
            assert(s =~= head + sep + rest) by {
                assert(s.subrange(i as int, (i + sep.len()) as int) == sep);
                assert(s =~= head + s.subrange(i as int, (i + sep.len()) as int) + rest);
            }
            assert forall|k: int| 0 <= k < pieces(s, sep).len() implies !occurs(
                #[trigger] pieces(s, sep)[k],
                sep,
            ) by {
                if k == 0 {
                    if occurs(head, sep) {
                        let j = choose|j: int| occurs_at(head, sep, j);
                        assert(s.subrange(j, j + sep.len()) =~= head.subrange(j, j + sep.len()));
                        assert(occurs_at(s, sep, j));
                        assert(j < i);
                    }
                } else {
                    assert(pieces(s, sep)[k] == pieces(rest, sep)[k - 1]);
                }
            }
        },
    }
}

/// A part in front of others stands in front of them, with the separator between.
proof fn joining_in_front(head: Seq<char>, parts: Seq<Seq<char>>, sep: Seq<char>)
    requires
        parts.len() > 0,
    ensures
        joined(seq![head] + parts, sep) == head + sep + joined(parts, sep),
    decreases parts.len(),
{
    let all = seq![head] + parts;
    assert(all.last() == parts.last());
    if parts.len() == 1 {
        assert(all.drop_last() =~= seq![head]);
        assert(joined(seq![head], sep) == head);
        assert(parts =~= seq![parts[0]]);
    } else {
        assert(all.drop_last() =~= seq![head] + parts.drop_last());
        joining_in_front(head, parts.drop_last(), sep);
        assert(head + sep + joined(parts.drop_last(), sep) + sep + parts.last() =~= head + sep + (
        joined(parts.drop_last(), sep) + sep + parts.last()));
    }
}

/// One more part is put behind the others, with the separator between.
pub proof fn joining_keeps_the_order(parts: Seq<Seq<char>>, part: Seq<char>, sep: Seq<char>)
    ensures
        joined(Seq::<Seq<char>>::empty(), sep).len() == 0,
        joined(seq![part], sep) == part,
        parts.len() > 0 ==> joined(parts.push(part), sep) == joined(parts, sep) + sep + part,
{
    assert(parts.push(part).drop_last() =~= parts);
}

/// A line that ends with a newline comes first, without that and without a carriage return before it;
/// the lines behind it follow. A text without a newline is one line.
pub proof fn lines_end_with_newlines(line: Seq<char>, rest: Seq<char>)
    requires
        forall|i: int| 0 <= i < line.len() ==> line[i] != '\n',
    ensures
        lines(line + seq!['\n'] + rest) == seq![
            if line.len() > 0 && line.last() == '\r' {
                line.drop_last()
            } else {
                line
            },
        ] + lines(rest),
        line.len() > 0 ==> lines(line) == seq![line],
        lines(Seq::<char>::empty()).len() == 0,
{
    let newline = seq!['\n'];
    let all = line + newline + rest;
    first_newline(line, rest);
    assert(all.take(line.len() as int) =~= line);
    assert(all.skip((line.len() + 1) as int) =~= rest);
    if line.len() > 0 {
        first_index_is_an_occurrence(line, newline);
        if let Some(i) = first_index(line, newline) {
            assert(line.subrange(i as int, (i + 1) as int)[0] == line[i as int]);
        }
    }
}

/// A text without white space is one word; words on both sides of white space are words each by
/// itself, in their order; and white space alone has none.
pub proof fn white_space_parts_words(a: Seq<char>, c: char, b: Seq<char>)
    requires
        white_space(c),
    ensures
        words(a.push(c) + b) == words(a) + words(b),
        a.len() > 0 && (forall|i: int| 0 <= i < a.len() ==> !white_space(#[trigger] a[i])) ==> words(
            a,
        ) == seq![a],
        words(Seq::<char>::empty()).len() == 0,
    decreases a.len(),
{
    let all = a.push(c) + b;
    if a.len() == 0 {
        assert(all.drop_first() =~= b);
        assert(words(a) + words(b) =~= words(b));
    } else if white_space(a[0]) {
        assert(all.drop_first() =~= a.drop_first().push(c) + b);
        white_space_parts_words(a.drop_first(), c, b);
    } else {
        word_len_bounds(a);
        let n = word_len(a);
        assert(word_len(a) > 0);
        assert forall|i: int| 0 <= i < n implies !white_space(#[trigger] all[i]) by {
            assert(all[i] == a[i]);
        }
        if n < a.len() {
            assert(all[n as int] == a[n as int]);
        } else {
            assert(all[n as int] == c);
        }
        word_len_is(all, n);
        assert(all.take(n as int) =~= a.take(n as int));
        let rest = a.skip(n as int);
        assert(all.skip(n as int) =~= rest.push(c) + b);
        white_space_parts_words(rest, c, b);
        assert((seq![a.take(n as int)] + words(rest)) + words(b) =~= seq![a.take(n as int)] + (
        words(rest) + words(b)));
        if forall|i: int| 0 <= i < a.len() ==> !white_space(#[trigger] a[i]) {
            word_len_is(a, a.len());
            assert(a.take(a.len() as int) =~= a);
            assert(rest =~= Seq::<char>::empty());
            assert(seq![a] + Seq::<Seq<char>>::empty() =~= seq![a]);
        }
    }
}

/// Letters of ASCII become small, and all else stays, each in its place.
pub proof fn only_capital_letters_change(s: Seq<char>, k: int)
    requires
        0 <= k < s.len(),
    ensures
        ascii_lower(s).len() == s.len(),
        'A' <= s[k] && s[k] <= 'Z' ==> ascii_lower(s)[k] as u32 == s[k] as u32 + 32,
        !('A' <= s[k] && s[k] <= 'Z') ==> ascii_lower(s)[k] == s[k],
{
}

/// A number is written with digits, and read back as what it was.
pub proof fn written_numbers_are_read_back(n: nat)
    ensures
        is_number(decimal(n)),
        number_value(decimal(n)) == n,
        n > 0 ==> decimal(n)[0] != '0',
        decimal(n).len() == 1 <==> n < 10,
    decreases n,
{
    if n < 10 {
        assert(decimal(n).drop_last() =~= Seq::<char>::empty());
        assert((48 + n) as char as u32 == 48 + n);
        assert(number_value(decimal(n).drop_last()) == 0);
        assert(decimal(n).last() as int == 48 + n);
    } else {
        written_numbers_are_read_back(n / 10);
        assert(decimal(n).drop_last() =~= decimal(n / 10));
        assert((48 + n % 10) as char as u32 == 48 + n % 10);
        assert(decimal(n).last() as int == 48 + n % 10);
        assert(10 * (n / 10) + n % 10 == n);
        assert forall|i: int| 0 <= i < decimal(n).len() implies is_digit_char(
            #[trigger] decimal(n)[i],
        ) by {
            if i < decimal(n / 10).len() {
                assert(decimal(n)[i] == decimal(n / 10)[i]);
                assert(is_digit_char(decimal(n / 10)[i]));
            }
        }
    }
}

/// A number may have a sign in front: a plus, or a minus where it may be negative. One that is too
/// large is none, and neither is a text with anything but digits.
pub proof fn numbers_may_have_a_sign(n: nat, max: nat)
    ensures
        n <= max ==> parsed_unsigned(decimal(n), max) == Some(n) && parsed_signed(decimal(n), max)
            == Some(n as int),
        n <= max ==> parsed_unsigned(seq!['+'] + decimal(n), max) == Some(n),
        n > max ==> parsed_unsigned(decimal(n), max) is None,
        n <= max + 1 ==> parsed_signed(seq!['-'] + decimal(n), max) == Some(-(n as int)),
        n > max + 1 ==> parsed_signed(seq!['-'] + decimal(n), max) is None,
        parsed_unsigned(seq!['-'] + decimal(n), max) is None,
{
    written_numbers_are_read_back(n);
    let digits = decimal(n);
    assert(is_digit_char(digits[0]));
    assert((seq!['+'] + digits).drop_first() =~= digits);
    assert((seq!['-'] + digits).drop_first() =~= digits);
    assert(!is_digit_char((seq!['-'] + digits)[0]));
}

/// What is read as a number holds nothing but digits and maybe a sign.
pub proof fn other_texts_are_no_numbers(s: Seq<char>, max: nat, k: int)
    requires
        0 <= k < s.len(),
        !('0' <= s[k] && s[k] <= '9'),
        k > 0 || (s[k] != '+' && s[k] != '-'),
    ensures
        parsed_unsigned(s, max) is None,
        parsed_signed(s, max) is None,
        parsed_unsigned(Seq::<char>::empty(), max) is None,
{
    assert(!is_digit_char(s[k]));
    if k > 0 {
        assert(s.drop_first()[k - 1] == s[k]);
    }
}

/// A path below another is that one, a slash unless it ends with one, and what is below.
pub proof fn paths_are_joined_by_one_slash(base: Seq<char>, below: Seq<char>)
    ensures
        base.len() > 0 && base.last() != '/' ==> joined_path(base, below) == base + seq!['/'] + below,
        base.len() == 0 || base.last() == '/' ==> joined_path(base, below) == base + below,
{
    assert(base.push('/') + below =~= base + seq!['/'] + below);
}

/// Pieces before a separator of one character, and behind it, are pieces each by themselves.
pub proof fn a_separator_parts_the_pieces(a: Seq<char>, c: char, b: Seq<char>)
    ensures
        pieces(a + seq![c] + b, seq![c]) == pieces(a, seq![c]) + pieces(b, seq![c]),
    decreases a.len(),
{
    let sep = seq![c];
    let all = a + sep + b;
    first_index_is_an_occurrence(a, sep);
    first_index_is_an_occurrence(all, sep);
    let place = first_index(a, sep);
    let n: int = match place {
        Some(i) => i as int,
        None => a.len() as int,
    };
    assert(all.subrange(n, n + 1) =~= sep) by {
        if place is Some {
            assert(a.subrange(n, n + 1)[0] == a[n]);
        }
    }
    assert(occurs_at(all, sep, n));
    let i = match first_index(all, sep) {
        Some(i) => i as int,
        None => 0,
    };
    assert(i <= n);
    if i < n {
        assert(all.subrange(i, i + 1)[0] == a[i]);
        assert(a.subrange(i, i + 1) =~= sep);
        assert(occurs_at(a, sep, i));
    }
    if place is Some {
        let rest = a.skip(n + 1);
        assert(all.take(n) =~= a.take(n));
        assert(all.skip(n + 1) =~= rest + sep + b);
        a_separator_parts_the_pieces(rest, c, b);
        assert((seq![a.take(n)] + pieces(rest, sep)) + pieces(b, sep) =~= seq![a.take(n)] + (pieces(
            rest,
            sep,
        ) + pieces(b, sep)));
    } else {
        assert(all.take(n) =~= a);
        assert(all.skip(n + 1) =~= b);
    }
}

/// The name of a file is what stands behind the last slash of its path. A path that ends upwards, or
/// has no name, has none.
pub proof fn file_names_stand_behind_the_last_slash(dir: Seq<char>, name: Seq<char>)
    requires
        forall|i: int| 0 <= i < name.len() ==> name[i] != '/',
        name.len() > 0,
        name != "."@,
    ensures
        name != ".."@ ==> path_file_name(name) == Some(name) && path_file_name(
            dir + "/"@ + name,
        ) == Some(name) && path_file_name(dir + "/"@ + name + "/"@) == Some(name),
        name == ".."@ ==> path_file_name(dir + "/"@ + name) is None && path_file_name(name) is None,
        path_file_name(Seq::<char>::empty()) is None,
{
    reveal_strlit("/");
    let slash = seq!['/'];
    assert("/"@ =~= slash);
    let nothing = Seq::<char>::empty();
    first_index_is_an_occurrence(name, slash);
    if let Some(i) = first_index(name, slash) {
        assert(name.subrange(i as int, (i + 1) as int)[0] == name[i as int]);
    }
    assert(pieces(name, slash) == seq![name]);
    first_index_is_an_occurrence(nothing, slash);
    assert(pieces(nothing, slash) == seq![nothing]);
    a_separator_parts_the_pieces(dir, '/', name);
    a_separator_parts_the_pieces(dir + slash + name, '/', nothing);
    let parts = pieces(dir, slash) + seq![name];
    assert(parts.drop_last() =~= pieces(dir, slash));
    assert(seq![name].drop_last() =~= Seq::<Seq<char>>::empty());
    assert(seq![nothing].drop_last() =~= Seq::<Seq<char>>::empty());
    assert(dir + slash + name + slash + nothing =~= dir + slash + name + slash);
    assert((parts + seq![nothing]).drop_last() =~= parts);
    assert(seq![nothing].last().len() == 0);
    assert(path_components(seq![nothing].drop_last()).len() == 0);
    assert(path_components(seq![nothing]).len() == 0);
}

/// Parts that are empty are left out, and all others stay in their order.
pub proof fn only_empty_parts_are_left_out(parts: Seq<Seq<char>>, part: Seq<char>)
    ensures
        non_empty_parts(Seq::<Seq<char>>::empty()).len() == 0,
        part.len() == 0 ==> non_empty_parts(parts.push(part)) == non_empty_parts(parts),
        part.len() > 0 ==> non_empty_parts(parts.push(part)) == non_empty_parts(parts).push(part),
{
    assert(parts.push(part).drop_last() =~= parts);
}

/// Something is left of a text exactly if it holds a character that is no white space, and that is the
/// trimmed text.
pub proof fn blank_texts_leave_nothing(s: Seq<char>, k: int)
    ensures
        0 <= k < s.len() && !white_space(s[k]) ==> non_empty(s) == Some(trimmed(s)),
        (forall|i: int| 0 <= i < s.len() ==> white_space(#[trigger] s[i])) ==> non_empty(s) is None,
        non_empty(s) matches Some(left) ==> left == trimmed(s) && left.len() > 0,
{
    let span = trimming_takes_white_space_from_the_ends(s);
}

} // verus!
