//! `//` and `/* */` comments in JSON text.

use crate::text::{push_chars, to_chars};
use vstd::prelude::*;
use vstd::string::*;

verus! {

/// Where a reader of commented JSON stands before a character.
#[derive(Clone, Copy, PartialEq, Eq, Structural)]
pub enum Mode {
    /// Outside strings and comments.
    Code,
    /// Inside a string.
    Text,
    /// Inside a string, behind a backslash.
    Escape,
    /// Inside a `//` comment.
    Line,
    /// At the `*` that opens a block comment.
    Open,
    /// Inside a block comment.
    Block,
    /// Inside a block comment, behind a `*`.
    Star,
}

/// The mode behind `c`, read in `mode` with `next` following it.
pub open spec fn mode_after(mode: Mode, c: char, next: Option<char>) -> Mode {
    match mode {
        Mode::Code => {
            if c == '"' {
                Mode::Text
            } else if c == '/' && next == Some('/') {
                Mode::Line
            } else if c == '/' && next == Some('*') {
                Mode::Open
            } else {
                Mode::Code
            }
        },
        Mode::Text => {
            if c == '\\' {
                Mode::Escape
            } else if c == '"' {
                Mode::Code
            } else {
                Mode::Text
            }
        },
        Mode::Escape => Mode::Text,
        Mode::Line => if c == '\n' {
            Mode::Code
        } else {
            Mode::Line
        },
        Mode::Open => Mode::Block,
        Mode::Block => if c == '*' {
            Mode::Star
        } else {
            Mode::Block
        },
        Mode::Star => {
            if c == '/' {
                Mode::Code
            } else if c == '*' {
                Mode::Star
            } else {
                Mode::Block
            }
        },
    }
}

/// The character at `i`, if there is one.
pub open spec fn char_at(s: Seq<char>, i: int) -> Option<char> {
    if 0 <= i < s.len() {
        Some(s[i])
    } else {
        None
    }
}

/// The mode before the character at `i`.
pub open spec fn mode_at(s: Seq<char>, i: int) -> Mode
    decreases i,
{
    if i <= 0 {
        Mode::Code
    } else {
        mode_after(mode_at(s, i - 1), s[i - 1], char_at(s, i))
    }
}

/// Whether the character at `i` belongs to a comment.
pub open spec fn commented(s: Seq<char>, i: int) -> bool {
    match mode_at(s, i) {
        Mode::Code => s[i] == '/' && (char_at(s, i + 1) == Some('/') || char_at(s, i + 1) == Some(
            '*',
        )),
        Mode::Text => false,
        Mode::Escape => false,
        Mode::Line => s[i] != '\n',
        Mode::Open => true,
        Mode::Block => true,
        Mode::Star => true,
    }
}

/// `s` with each character of a comment turned into a space, line breaks
/// apart.
pub open spec fn uncommented(s: Seq<char>) -> Seq<char> {
    Seq::new(
        s.len(),
        |i: int|
            if commented(s, i) && s[i] != '\n' {
                ' '
            } else {
                s[i]
            },
    )
}

/// `mode_after`, for the reader itself.
fn next_mode(mode: Mode, c: char, next: Option<char>) -> (r: Mode)
    ensures
        r == mode_after(mode, c, next),
{
    match mode {
        Mode::Code => {
            if c == '"' {
                Mode::Text
            } else if c == '/' {
                match next {
                    Some('/') => Mode::Line,
                    Some('*') => Mode::Open,
                    _ => Mode::Code,
                }
            } else {
                Mode::Code
            }
        },
        Mode::Text => {
            if c == '\\' {
                Mode::Escape
            } else if c == '"' {
                Mode::Code
            } else {
                Mode::Text
            }
        },
        Mode::Escape => Mode::Text,
        Mode::Line => {
            if c == '\n' {
                Mode::Code
            } else {
                Mode::Line
            }
        },
        Mode::Open => Mode::Block,
        Mode::Block => {
            if c == '*' {
                Mode::Star
            } else {
                Mode::Block
            }
        },
        Mode::Star => {
            if c == '/' {
                Mode::Code
            } else if c == '*' {
                Mode::Star
            } else {
                Mode::Block
            }
        },
    }
}

/// `//` and `/* */` comments outside strings replaced by spaces, so a
/// parse error still points at the right place.
pub fn strip_json_comments(raw: &str) -> (r: String)
    ensures
        r@ == uncommented(raw@),
{
    let chars = to_chars(raw);
    let mut out: Vec<char> = Vec::new();
    let mut mode = Mode::Code;
    for i in 0..chars.len()
        invariant
            chars@ == raw@,
            mode == mode_at(raw@, i as int),
            out@ == uncommented(raw@).take(i as int),
    {
        let c = chars[i];
        let next: Option<char> = if i + 1 < chars.len() {
            Some(chars[i + 1])
        } else {
            None
        };
        let after = next_mode(mode, c, next);
        let comment = match mode {
            Mode::Code => match after {
                Mode::Line => true,
                Mode::Open => true,
                _ => false,
            },
            Mode::Text => false,
            Mode::Escape => false,
            Mode::Line => c != '\n',
            Mode::Open => true,
            Mode::Block => true,
            Mode::Star => true,
        };
        assert(comment == commented(raw@, i as int));
        if comment && c != '\n' {
            out.push(' ');
        } else {
            out.push(c);
        }
        assert(uncommented(raw@).take(i + 1) == uncommented(raw@).take(i as int).push(
            uncommented(raw@)[i as int],
        ));
        mode = after;
    }
    assert(uncommented(raw@).take(raw@.len() as int) == uncommented(raw@));
    let mut text = String::new();
    push_chars(&mut text, out.as_slice());
    text
}

// ---------------------------------------------------------------------------
// Laws
// ---------------------------------------------------------------------------

/// Nothing moves: the text keeps its length, every line break stays where
/// it is and no new one appears, and what changes changes to a space.
pub proof fn law_columns_stay(s: Seq<char>)
    ensures
        uncommented(s).len() == s.len(),
        forall|i: int|
            0 <= i < s.len() ==> (#[trigger] uncommented(s)[i] == '\n' <==> s[i] == '\n'),
        forall|i: int|
            0 <= i < s.len() ==> (#[trigger] uncommented(s)[i] == s[i] || uncommented(s)[i] == ' '),
{
}

/// Strings are left alone, whatever they hold.
pub proof fn law_strings_stay(s: Seq<char>, i: int)
    requires
        0 <= i < s.len(),
        mode_at(s, i) == Mode::Text || mode_at(s, i) == Mode::Escape,
    ensures
        uncommented(s)[i] == s[i],
{
}

/// Without a `/` outside its strings a text holds no comment and stays as
/// it is.
pub proof fn law_without_slashes_nothing_changes(s: Seq<char>)
    requires
        forall|i: int|
            0 <= i < s.len() && s[i] == '/' ==> (#[trigger] mode_at(s, i) == Mode::Text || mode_at(
                s,
                i,
            ) == Mode::Escape),
    ensures
        uncommented(s) == s,
{
    assert forall|i: int| 0 <= i < s.len() implies uncommented(s)[i] == s[i] by {
        lemma_never_in_a_comment(s, i);
    }
}

proof fn lemma_never_in_a_comment(s: Seq<char>, i: int)
    requires
        0 <= i <= s.len(),
        forall|k: int|
            0 <= k < s.len() && s[k] == '/' ==> (#[trigger] mode_at(s, k) == Mode::Text || mode_at(
                s,
                k,
            ) == Mode::Escape),
    ensures
        mode_at(s, i) == Mode::Code || mode_at(s, i) == Mode::Text || mode_at(s, i)
            == Mode::Escape,
    decreases i,
{
    if i > 0 {
        lemma_never_in_a_comment(s, i - 1);
    }
}

/// A text with its comments taken out has none left: taking them out a
/// second time changes nothing.
pub proof fn law_stripping_twice_is_stripping_once(s: Seq<char>)
    ensures
        uncommented(uncommented(s)) == uncommented(s),
{
    let t = uncommented(s);
    assert forall|i: int| 0 <= i < t.len() implies uncommented(t)[i] == t[i] by {
        lemma_modes_of_the_stripped_text(s, i);
    }
}

/// Before each character of the stripped text the reader is in a string
/// exactly where it was in the raw one, and in no comment.
proof fn lemma_modes_of_the_stripped_text(s: Seq<char>, i: int)
    requires
        0 <= i <= s.len(),
    ensures
        mode_at(uncommented(s), i) == (match mode_at(s, i) {
            Mode::Text => Mode::Text,
            Mode::Escape => Mode::Escape,
            _ => Mode::Code,
        }),
    decreases i,
{
    if i > 0 {
        lemma_modes_of_the_stripped_text(s, i - 1);
        let t = uncommented(s);
        assert(t[i - 1] == s[i - 1] || t[i - 1] == ' ');
        if i < s.len() {
            assert(t[i] == s[i] || t[i] == ' ');
        }
    }
}

/// Neither quotes nor slashes.
pub open spec fn is_plain(s: Seq<char>) -> bool {
    forall|i: int| 0 <= i < s.len() ==> s[i] != '"' && s[i] != '/'
}

/// Outside strings and comments a text without quotes and slashes leads
/// nowhere.
proof fn lemma_plain_stays_code(s: Seq<char>, i: int)
    requires
        0 <= i <= s.len(),
        forall|k: int| 0 <= k < i ==> s[k] != '"' && s[k] != '/',
    ensures
        mode_at(s, i) == Mode::Code,
    decreases i,
{
    if i > 0 {
        lemma_plain_stays_code(s, i - 1);
    }
}

/// Once it is outside strings and comments, a reader goes on as if the
/// text began there.
proof fn lemma_code_starts_afresh(s: Seq<char>, n: int, i: int)
    requires
        0 <= n <= i <= s.len(),
        mode_at(s, n) == Mode::Code,
    ensures
        mode_at(s, i) == mode_at(s.skip(n), i - n),
    decreases i,
{
    if i > n {
        lemma_code_starts_afresh(s, n, i - 1);
        assert(s.skip(n)[i - 1 - n] == s[i - 1]);
        if i < s.len() {
            assert(s.skip(n)[i - n] == s[i]);
        }
    }
}

/// What stands behind a place outside strings and comments is stripped as
/// if the text began there.
proof fn lemma_uncommented_parts(s: Seq<char>, n: int)
    requires
        0 <= n <= s.len(),
        mode_at(s, n) == Mode::Code,
    ensures
        uncommented(s) == uncommented(s).take(n) + uncommented(s.skip(n)),
{
    let rest = s.skip(n);
    assert forall|i: int| n <= i < s.len() implies uncommented(s)[i] == uncommented(rest)[i
        - n] by {
        lemma_code_starts_afresh(s, n, i);
        assert(rest[i - n] == s[i]);
        if i + 1 < s.len() {
            assert(rest[i + 1 - n] == s[i + 1]);
        }
    }
    assert(uncommented(s) =~= uncommented(s).take(n) + uncommented(rest));
}

/// Spaces.
pub open spec fn spaces(n: nat) -> Seq<char> {
    Seq::new(n, |i: int| ' ')
}

/// A `//` comment becomes spaces up to the end of its line. What stands
/// before it stays, and what follows is stripped in turn.
pub proof fn law_a_line_comment_goes(before: Seq<char>, words: Seq<char>, rest: Seq<char>)
    requires
        is_plain(before),
        !words.contains('\n'),
    ensures
        uncommented(before + seq!['/', '/'] + words + seq!['\n'] + rest) == before + spaces(
            2 + words.len(),
        ) + seq!['\n'] + uncommented(rest),
{
    let s = before + seq!['/', '/'] + words + seq!['\n'] + rest;
    let n = before.len() as int;
    let end = n + 2 + words.len();
    assert forall|k: int| 0 <= k < n implies s[k] != '"' && s[k] != '/' by {
        assert(before[k] == s[k]);
    }
    assert forall|i: int| 0 <= i <= n implies mode_at(s, i) == Mode::Code by {
        lemma_plain_stays_code(s, i);
    }
    assert(s[n] == '/' && s[n + 1] == '/');
    assert(mode_at(s, n) == Mode::Code);
    assert(mode_at(s, n + 1) == Mode::Line);
    assert forall|i: int| n < i < end implies s[i] != '\n' by {
        if i >= n + 2 {
            assert(s[i] == words[i - n - 2]);
            assert(words.contains(words[i - n - 2]));
        }
    }
    assert forall|i: int| n < i <= end implies mode_at(s, i) == Mode::Line by {
        lemma_in_a_line_comment(s, n + 1, i);
    }
    assert(s[end] == '\n');
    assert(mode_at(s, end) == Mode::Line);
    assert(mode_at(s, end + 1) == Mode::Code);
    lemma_uncommented_parts(s, end + 1);
    assert(s.skip(end + 1) =~= rest);
    assert(uncommented(s).take(end + 1) =~= before + spaces(2 + words.len()) + seq!['\n']) by {
        assert forall|i: int| 0 <= i < n implies uncommented(s)[i] == before[i] by {
            assert(s[i] == before[i]);
        }
    }
}

/// A `//` comment goes on to the end of its line.
proof fn lemma_in_a_line_comment(s: Seq<char>, n: int, i: int)
    requires
        0 < n <= i <= s.len(),
        mode_at(s, n) == Mode::Line,
        forall|k: int| n <= k < i ==> s[k] != '\n',
    ensures
        mode_at(s, i) == Mode::Line,
    decreases i,
{
    if i > n {
        lemma_in_a_line_comment(s, n, i - 1);
    }
}

/// A `/* */` comment becomes spaces, its line breaks apart. What stands
/// before it stays, and what follows is stripped in turn.
pub proof fn law_a_block_comment_goes(before: Seq<char>, words: Seq<char>, rest: Seq<char>)
    requires
        is_plain(before),
        forall|i: int| 0 <= i < words.len() ==> words[i] != '*',
    ensures
        uncommented(before + seq!['/', '*'] + words + seq!['*', '/'] + rest) == before + spaces(2)
            + words.map_values(
            |c: char|
                if c == '\n' {
                    c
                } else {
                    ' '
                },
        ) + spaces(2) + uncommented(rest),
{
    let s = before + seq!['/', '*'] + words + seq!['*', '/'] + rest;
    let n = before.len() as int;
    let end = n + 2 + words.len();
    assert forall|k: int| 0 <= k < n implies s[k] != '"' && s[k] != '/' by {
        assert(before[k] == s[k]);
    }
    assert forall|i: int| 0 <= i <= n implies mode_at(s, i) == Mode::Code by {
        lemma_plain_stays_code(s, i);
    }
    assert(s[n] == '/' && s[n + 1] == '*');
    assert(mode_at(s, n) == Mode::Code);
    assert(mode_at(s, n + 1) == Mode::Open);
    assert(mode_at(s, n + 2) == Mode::Block);
    assert forall|i: int| n + 2 <= i < end implies s[i] == words[i - n - 2] && s[i] != '*' by {
        assert(s[i] == words[i - n - 2]);
    }
    assert forall|i: int| n + 2 <= i <= end implies mode_at(s, i) == Mode::Block by {
        lemma_in_a_block_comment(s, n + 2, i);
    }
    assert(s[end] == '*' && s[end + 1] == '/');
    assert(mode_at(s, end) == Mode::Block);
    assert(mode_at(s, end + 1) == Mode::Star);
    assert(mode_at(s, end + 2) == Mode::Code);
    lemma_uncommented_parts(s, end + 2);
    assert(s.skip(end + 2) =~= rest);
    let blanked = words.map_values(
        |c: char|
            if c == '\n' {
                c
            } else {
                ' '
            },
    );
    assert(uncommented(s).take(end + 2) =~= before + spaces(2) + blanked + spaces(2)) by {
        assert forall|i: int| 0 <= i < n implies uncommented(s)[i] == before[i] by {
            assert(s[i] == before[i]);
        }
    }
    assert(uncommented(s) =~= before + spaces(2) + blanked + spaces(2) + uncommented(rest));
}

/// A block comment goes on to a `*`.
proof fn lemma_in_a_block_comment(s: Seq<char>, n: int, i: int)
    requires
        0 < n <= i <= s.len(),
        mode_at(s, n) == Mode::Block,
        forall|k: int| n <= k < i ==> s[k] != '*',
    ensures
        mode_at(s, i) == Mode::Block,
    decreases i,
{
    if i > n {
        lemma_in_a_block_comment(s, n, i - 1);
    }
}

/// A string stays as it is, with the slashes in it, and what follows is
/// stripped in turn.
pub proof fn law_a_string_is_no_comment(before: Seq<char>, words: Seq<char>, rest: Seq<char>)
    requires
        is_plain(before),
        !words.contains('"'),
        !words.contains('\\'),
    ensures
        uncommented(before + seq!['"'] + words + seq!['"'] + rest) == before + seq!['"'] + words
            + seq!['"'] + uncommented(rest),
{
    let s = before + seq!['"'] + words + seq!['"'] + rest;
    let n = before.len() as int;
    let end = n + 1 + words.len();
    assert forall|k: int| 0 <= k < n implies s[k] != '"' && s[k] != '/' by {
        assert(before[k] == s[k]);
    }
    assert forall|i: int| 0 <= i <= n implies mode_at(s, i) == Mode::Code by {
        lemma_plain_stays_code(s, i);
    }
    assert(s[n] == '"');
    assert(mode_at(s, n) == Mode::Code);
    assert(mode_at(s, n + 1) == Mode::Text);
    assert forall|i: int| n < i < end implies s[i] != '"' && s[i] != '\\' by {
        assert(s[i] == words[i - n - 1]);
        assert(words.contains(words[i - n - 1]));
    }
    assert forall|i: int| n < i <= end implies mode_at(s, i) == Mode::Text by {
        lemma_in_a_string(s, n + 1, i);
    }
    assert(s[end] == '"');
    assert(mode_at(s, end) == Mode::Text);
    assert(mode_at(s, end + 1) == Mode::Code);
    lemma_uncommented_parts(s, end + 1);
    assert(s.skip(end + 1) =~= rest);
    let kept = before + seq!['"'] + words + seq!['"'];
    assert forall|i: int| 0 <= i <= end implies uncommented(s)[i] == kept[i] by {
        assert(s[i] == kept[i]);
    }
    assert(uncommented(s).take(end + 1) =~= kept);
}

/// A string goes on to a quote or a backslash.
proof fn lemma_in_a_string(s: Seq<char>, n: int, i: int)
    requires
        0 < n <= i <= s.len(),
        mode_at(s, n) == Mode::Text,
        forall|k: int| n <= k < i ==> s[k] != '"' && s[k] != '\\',
    ensures
        mode_at(s, i) == Mode::Text,
    decreases i,
{
    if i > n {
        lemma_in_a_string(s, n, i - 1);
    }
}

/// A character behind a backslash is part of its string, a quote too.
pub proof fn law_an_escaped_quote_ends_no_string(s: Seq<char>, i: int)
    requires
        0 <= i,
        i + 1 < s.len(),
        mode_at(s, i) == Mode::Text,
        s[i] == '\\',
    ensures
        mode_at(s, i + 2) == Mode::Text,
        uncommented(s)[i] == s[i],
        uncommented(s)[i + 1] == s[i + 1],
{
    assert(mode_at(s, i + 1) == Mode::Escape);
}

} // verus!
