//! Characters, lines and words: the string handling the rest of the
//! library is written over. A string is modelled as the sequence of its
//! characters.

use vstd::prelude::*;
use vstd::slice::slice_subrange;
use vstd::string::*;
use vstd::utf8::is_ascii_chars;

verus! {

/// `String::push` appends one character.
pub assume_specification[ std::string::String::push ](s: &mut std::string::String, c: char)
    ensures
        final(s)@ == old(s)@.push(c),
;

/// Two `str`s are equal when they hold the same characters.
pub assume_specification[ <str as PartialEq>::eq ](a: &str, b: &str) -> (r: bool)
    ensures
        r == (a@ == b@),
;

/// What `str::to_lowercase` makes of a string.
pub uninterp spec fn lowercased(s: Seq<char>) -> Seq<char>;

/// The lowercase form of an ASCII character.
pub open spec fn ascii_lower(c: char) -> char {
    if 'A' <= c <= 'Z' {
        ((c as u32) + 32) as char
    } else {
        c
    }
}

/// `str::to_lowercase` depends on the string alone, and on ASCII text it
/// moves `A` to `Z` down and leaves every other character.
pub assume_specification[ str::to_lowercase ](s: &str) -> (r: std::string::String)
    ensures
        r@ == lowercased(s@),
        is_ascii_chars(s@) ==> r@ == s@.map_values(|c: char| ascii_lower(c)),
;

// ---------------------------------------------------------------------------
// Whole strings
// ---------------------------------------------------------------------------

/// Whether two strings hold the same characters.
pub fn same(a: &str, b: &str) -> (r: bool)
    ensures
        r == (a@ == b@),
{
    *a == *b
}

/// The characters of each string of a list.
pub open spec fn texts(list: Seq<String>) -> Seq<Seq<char>> {
    list.map_values(|s: String| s@)
}

/// The characters of an optional string.
pub open spec fn text_of(s: Option<&str>) -> Option<Seq<char>> {
    match s {
        Some(t) => Some(t@),
        None => None,
    }
}

/// The characters of an optional owned string.
pub open spec fn string_of(s: Option<String>) -> Option<Seq<char>> {
    match s {
        Some(t) => Some(t@),
        None => None,
    }
}

/// Whether a text is one of some.
pub open spec fn listed(list: Seq<Seq<char>>, wanted: Seq<char>) -> bool {
    exists|i: int| 0 <= i < list.len() && #[trigger] list[i] == wanted
}

/// Whether a string is one of a list's.
pub fn is_among(list: &Vec<String>, wanted: &str) -> (r: bool)
    ensures
        r == listed(texts(list@), wanted@),
{
    for i in 0..list.len()
        invariant
            forall|j: int| 0 <= j < i ==> #[trigger] texts(list@)[j] != wanted@,
    {
        assert(texts(list@)[i as int] == list@[i as int]@);
        if same(list[i].as_str(), wanted) {
            return true;
        }
    }
    false
}

/// A copy of a list of strings, put behind `out`.
pub fn extend_texts(out: &mut Vec<String>, list: &[String])
    ensures
        texts(final(out)@) == texts(old(out)@) + texts(list@),
{
    let ghost before = texts(out@);
    for i in 0..list.len()
        invariant
            texts(out@) == before + texts(list@.take(i as int)),
    {
        let ghost so_far = out@;
        out.push(list[i].clone());
        assert(texts(out@) == texts(so_far).push(list@[i as int]@));
        assert(list@.take(i + 1) == list@.take(i as int).push(list@[i as int]));
        assert(texts(list@.take(i + 1)) == texts(list@.take(i as int)).push(list@[i as int]@));
        assert(texts(out@) == before + texts(list@.take(i + 1)));
    }
    assert(list@.take(list@.len() as int) == list@);
}

/// `text` put behind `out` as a new string.
pub fn push_text(out: &mut Vec<String>, text: &str)
    ensures
        texts(final(out)@) == texts(old(out)@).push(text@),
{
    out.push(text.to_owned());
    assert(texts(out@) == texts(old(out)@).push(text@));
}

/// The characters of pairs of strings, such as names and values.
pub open spec fn str_pairs(list: Seq<(&str, &str)>) -> Seq<(Seq<char>, Seq<char>)> {
    list.map_values(|e: (&str, &str)| (e.0@, e.1@))
}

/// The characters of pairs of owned strings.
pub open spec fn string_pairs(list: Seq<(String, String)>) -> Seq<(Seq<char>, Seq<char>)> {
    list.map_values(|e: (String, String)| (e.0@, e.1@))
}

// ---------------------------------------------------------------------------
// Characters
// ---------------------------------------------------------------------------

/// The characters of `s`.
pub fn to_chars(s: &str) -> (r: Vec<char>)
    ensures
        r@ == s@,
{
    let mut out: Vec<char> = Vec::new();
    for c in it: s.chars()
        invariant
            it.seq() == s@,
            out@ == it.seq().take(it.index() as int),
    {
        out.push(c);
    }
    out
}

/// `chars` put behind `out`.
pub fn push_chars(out: &mut String, chars: &[char])
    ensures
        final(out)@ == old(out)@ + chars@,
{
    let ghost before = out@;
    for i in 0..chars.len()
        invariant
            out@ == before + chars@.take(i as int),
    {
        out.push(chars[i]);
        assert(chars@.take(i + 1) == chars@.take(i as int).push(chars@[i as int]));
    }
    assert(chars@.take(chars@.len() as int) == chars@);
}

/// The string of `chars`.
pub fn from_chars(chars: &[char]) -> (r: String)
    ensures
        r@ == chars@,
{
    let mut out = String::new();
    push_chars(&mut out, chars);
    out
}

/// Whether two runs of characters are the same.
pub fn same_chars(a: &[char], b: &[char]) -> (r: bool)
    ensures
        r == (a@ == b@),
{
    if a.len() != b.len() {
        return false;
    }
    for i in 0..a.len()
        invariant
            a@.len() == b@.len(),
            a@.take(i as int) == b@.take(i as int),
    {
        if a[i] != b[i] {
            assert(a@[i as int] != b@[i as int]);
            return false;
        }
        assert(a@.take(i + 1) == a@.take(i as int).push(a@[i as int]));
        assert(b@.take(i + 1) == b@.take(i as int).push(b@[i as int]));
    }
    assert(a@.take(a@.len() as int) == a@);
    assert(b@.take(b@.len() as int) == b@);
    true
}

/// Whether `chars` begins with `prefix`.
pub fn begins_with(chars: &[char], prefix: &[char]) -> (r: bool)
    ensures
        r == prefix@.is_prefix_of(chars@),
{
    if chars.len() < prefix.len() {
        return false;
    }
    same_chars(prefix, slice_subrange(chars, 0, prefix.len()))
}

/// Whether `s` begins with `prefix`.
pub fn starts_with(s: &str, prefix: &str) -> (r: bool)
    ensures
        r == prefix@.is_prefix_of(s@),
{
    begins_with(to_chars(s).as_slice(), to_chars(prefix).as_slice())
}

/// What is left of `s` behind `prefix`, when it begins with it.
pub open spec fn without_prefix(s: Seq<char>, prefix: Seq<char>) -> Option<Seq<char>> {
    if prefix.is_prefix_of(s) {
        Some(s.skip(prefix.len() as int))
    } else {
        None
    }
}

/// What is left of `s` behind `prefix`, when it begins with it.
pub fn strip_prefix<'a>(s: &'a str, prefix: &str) -> (r: Option<&'a str>)
    ensures
        text_of(r) == without_prefix(s@, prefix@),
{
    let chars = to_chars(s);
    let head = to_chars(prefix);
    if begins_with(chars.as_slice(), head.as_slice()) {
        let rest = s.substring_char(head.len(), chars.len());
        assert(rest@ == s@.skip(prefix@.len() as int));
        Some(rest)
    } else {
        None
    }
}

/// Whether `needle` stands somewhere in `s`.
pub open spec fn occurs(s: Seq<char>, needle: Seq<char>) -> bool {
    exists|i: int|
        0 <= i <= s.len() - needle.len() && #[trigger] s.subrange(i, i + needle.len()) == needle
}

/// Whether `needle` stands somewhere in `s`.
pub fn contains(s: &str, needle: &str) -> (r: bool)
    ensures
        r == occurs(s@, needle@),
{
    let chars = to_chars(s);
    let wanted = to_chars(needle);
    if chars.len() < wanted.len() {
        return false;
    }
    let last: usize = chars.len() - wanted.len();
    let mut i: usize = 0;
    while i <= last
        invariant
            chars@ == s@,
            wanted@ == needle@,
            last + wanted.len() == chars.len(),
            forall|j: int|
                0 <= j < i ==> #[trigger] s@.subrange(j, j + needle@.len()) != needle@,
        decreases last + 1 - i,
    {
        if same_chars(slice_subrange(chars.as_slice(), i, i + wanted.len()), wanted.as_slice()) {
            assert(s@.subrange(i as int, i + needle@.len()) == needle@);
            return true;
        }
        if i == last {
            return false;
        }
        i = i + 1;
    }
    false
}

// ---------------------------------------------------------------------------
// White space
// ---------------------------------------------------------------------------

/// The characters with Unicode's `White_Space` property.
pub open spec fn is_space(c: char) -> bool {
    ||| '\u{9}' <= c <= '\u{d}'
    ||| c == ' '
    ||| c == '\u{85}'
    ||| c == '\u{a0}'
    ||| c == '\u{1680}'
    ||| '\u{2000}' <= c <= '\u{200a}'
    ||| c == '\u{2028}'
    ||| c == '\u{2029}'
    ||| c == '\u{202f}'
    ||| c == '\u{205f}'
    ||| c == '\u{3000}'
}

/// Whether `c` has Unicode's `White_Space` property.
pub fn is_whitespace(c: char) -> (r: bool)
    ensures
        r == is_space(c),
{
    ('\u{9}' <= c && c <= '\u{d}') || c == ' ' || c == '\u{85}' || c == '\u{a0}' || c == '\u{1680}'
        || ('\u{2000}' <= c && c <= '\u{200a}') || c == '\u{2028}' || c == '\u{2029}'
        || c == '\u{202f}' || c == '\u{205f}' || c == '\u{3000}'
}

/// `s` from its first character that is not white space on.
pub open spec fn trimmed_start(s: Seq<char>) -> Seq<char>
    decreases s.len(),
{
    if s.len() > 0 && is_space(s[0]) {
        trimmed_start(s.drop_first())
    } else {
        s
    }
}

/// `s` up to its last character that is not white space.
pub open spec fn trimmed_end(s: Seq<char>) -> Seq<char>
    decreases s.len(),
{
    if s.len() > 0 && is_space(s.last()) {
        trimmed_end(s.drop_last())
    } else {
        s
    }
}

/// `s` without the white space at either end.
pub open spec fn trimmed(s: Seq<char>) -> Seq<char> {
    trimmed_end(trimmed_start(s))
}

/// `chars` without its leading white space.
pub fn trim_start(chars: &[char]) -> (r: &[char])
    ensures
        r@ == trimmed_start(chars@),
{
    let mut i: usize = 0;
    assert(chars@.skip(0) == chars@);
    while i < chars.len() && is_whitespace(chars[i])
        invariant
            i <= chars@.len(),
            trimmed_start(chars@) == trimmed_start(chars@.skip(i as int)),
        decreases chars@.len() - i,
    {
        assert(chars@.skip(i as int).drop_first() == chars@.skip(i + 1));
        i = i + 1;
    }
    let rest = slice_subrange(chars, i, chars.len());
    assert(rest@ == chars@.skip(i as int));
    rest
}

/// `chars` without its trailing white space.
pub fn trim_end(chars: &[char]) -> (r: &[char])
    ensures
        r@ == trimmed_end(chars@),
{
    let mut n: usize = chars.len();
    assert(chars@.take(n as int) == chars@);
    while n > 0 && is_whitespace(chars[n - 1])
        invariant
            n <= chars@.len(),
            trimmed_end(chars@) == trimmed_end(chars@.take(n as int)),
        decreases n,
    {
        assert(chars@.take(n as int).drop_last() == chars@.take(n - 1));
        n = n - 1;
    }
    let rest = slice_subrange(chars, 0, n);
    assert(rest@ == chars@.take(n as int));
    rest
}

/// `chars` without the white space at either end.
pub fn trim(chars: &[char]) -> (r: &[char])
    ensures
        r@ == trimmed(chars@),
{
    trim_end(trim_start(chars))
}

/// `s` without the white space at either end.
pub fn trim_text(s: &str) -> (r: String)
    ensures
        r@ == trimmed(s@),
{
    from_chars(trim(to_chars(s).as_slice()))
}

// ---------------------------------------------------------------------------
// Slashes
// ---------------------------------------------------------------------------

/// Where the first `/` of `s` stands, or the length of `s` without one.
pub open spec fn first_slash(s: Seq<char>) -> int
    decreases s.len(),
{
    if s.len() == 0 || s[0] == '/' {
        0
    } else {
        1 + first_slash(s.drop_first())
    }
}

/// The first `/` is where nothing before it is one.
pub proof fn lemma_first_slash(s: Seq<char>, n: int)
    requires
        0 <= n <= s.len(),
        forall|i: int| 0 <= i < n ==> s[i] != '/',
        n < s.len() ==> s[n] == '/',
    ensures
        first_slash(s) == n,
    decreases s.len(),
{
    if n > 0 {
        assert forall|i: int| 0 <= i < n - 1 implies s.drop_first()[i] != '/' by {
            assert(s[i + 1] != '/');
        }
        lemma_first_slash(s.drop_first(), n - 1);
    }
}

/// What stands before and behind the first `/`, none without one.
pub fn split_at_slash(s: &str) -> (r: Option<(&str, &str)>)
    ensures
        match r {
            Some(parts) => first_slash(s@) < s@.len() && parts.0@ == s@.take(first_slash(s@))
                && parts.1@ == s@.skip(first_slash(s@) + 1),
            None => first_slash(s@) >= s@.len(),
        },
{
    let chars = to_chars(s);
    for i in 0..chars.len()
        invariant
            chars@ == s@,
            forall|k: int| 0 <= k < i ==> chars@[k] != '/',
    {
        if chars[i] == '/' {
            proof {
                lemma_first_slash(s@, i as int);
            }
            let head = s.substring_char(0, i);
            let tail = s.substring_char(i + 1, chars.len());
            assert(head@ =~= s@.take(i as int));
            assert(tail@ =~= s@.skip(i + 1));
            return Some((head, tail));
        }
    }
    proof {
        lemma_first_slash(s@, s@.len() as int);
    }
    None
}

// ---------------------------------------------------------------------------
// Lines
// ---------------------------------------------------------------------------

/// Where the first `\n` of `s` stands, or the length of `s` without one.
pub open spec fn first_newline(s: Seq<char>) -> int
    decreases s.len(),
{
    if s.len() == 0 || s[0] == '\n' {
        0
    } else {
        1 + first_newline(s.drop_first())
    }
}

/// `s` without a `\r` at its end.
pub open spec fn without_cr(s: Seq<char>) -> Seq<char> {
    if s.len() > 0 && s.last() == '\r' {
        s.drop_last()
    } else {
        s
    }
}

/// The lines of `s`: what stands before each `\n` or `\r\n`, and what is
/// left behind the last one unless that is nothing.
pub open spec fn lines_of(s: Seq<char>) -> Seq<Seq<char>>
    decreases s.len(),
{
    let n = first_newline(s);
    if s.len() == 0 {
        Seq::empty()
    } else if n < 0 || n >= s.len() {
        seq![s]
    } else {
        seq![without_cr(s.take(n))] + lines_of(s.skip(n + 1))
    }
}

/// Each line with a `\n` behind it, one after the other.
pub open spec fn unlines(lines: Seq<Seq<char>>) -> Seq<char>
    decreases lines.len(),
{
    if lines.len() == 0 {
        Seq::empty()
    } else {
        unlines(lines.drop_last()) + lines.last().push('\n')
    }
}

/// `text` and then `more` put behind `out` as one new string.
pub fn push_both(out: &mut Vec<String>, text: &str, more: &str)
    ensures
        texts(final(out)@) == texts(old(out)@).push(text@ + more@),
{
    let mut both = text.to_owned();
    both.append(more);
    out.push(both);
    assert(texts(out@) == texts(old(out)@).push(text@ + more@));
}

/// Each string with a `\n` behind it, one after the other.
pub fn join_lines(list: &Vec<String>) -> (r: String)
    ensures
        r@ == unlines(texts(list@)),
{
    let mut out = String::new();
    let ghost all = texts(list@);
    assert(all.take(0) == Seq::<Seq<char>>::empty());
    for i in 0..list.len()
        invariant
            all == texts(list@),
            out@ == unlines(all.take(i as int)),
    {
        assert(all.take(i + 1).drop_last() == all.take(i as int));
        out.append(list[i].as_str());
        out.push('\n');
        assert(out@ =~= unlines(all.take(i + 1)));
    }
    assert(all.take(all.len() as int) == all);
    out
}

/// The first `\n` is where nothing before it is one.
pub proof fn lemma_first_newline(s: Seq<char>, n: int)
    requires
        0 <= n <= s.len(),
        forall|i: int| 0 <= i < n ==> s[i] != '\n',
        n < s.len() ==> s[n] == '\n',
    ensures
        first_newline(s) == n,
    decreases s.len(),
{
    if n > 0 {
        assert forall|i: int| 0 <= i < n - 1 implies s.drop_first()[i] != '\n' by {
            assert(s[i + 1] != '\n');
        }
        lemma_first_newline(s.drop_first(), n - 1);
    }
}

/// The lines of `chars`.
pub fn lines(chars: &[char]) -> (r: Vec<&[char]>)
    ensures
        r@.len() == lines_of(chars@).len(),
        forall|i: int| 0 <= i < r@.len() ==> (#[trigger] r@[i])@ == lines_of(chars@)[i],
{
    let mut out: Vec<&[char]> = Vec::new();
    let mut start: usize = 0;
    assert(chars@.skip(0) == chars@);
    while start < chars.len()
        invariant
            start <= chars@.len(),
            out@.len() + lines_of(chars@.skip(start as int)).len() == lines_of(chars@).len(),
            lines_of(chars@) == lines_of(chars@).take(out@.len() as int) + lines_of(
                chars@.skip(start as int),
            ),
            forall|i: int| 0 <= i < out@.len() ==> (#[trigger] out@[i])@ == lines_of(chars@)[i],
        decreases chars@.len() - start,
    {
        let ghost rest = chars@.skip(start as int);
        let mut end: usize = start;
        while end < chars.len() && chars[end] != '\n'
            invariant
                start <= end <= chars@.len(),
                rest == chars@.skip(start as int),
                forall|i: int| 0 <= i < end - start ==> rest[i] != '\n',
            decreases chars@.len() - end,
        {
            assert(rest[end - start] == chars@[end as int]);
            end = end + 1;
        }
        proof {
            if end < chars@.len() {
                assert(rest[end - start] == chars@[end as int]);
            }
            lemma_first_newline(rest, end - start);
        }
        let ghost before = out@.len() as int;
        if end == chars.len() {
            let line = slice_subrange(chars, start, end);
            assert(line@ == rest);
            out.push(line);
            start = end;
            assert(lines_of(rest) == seq![rest]);
            assert(lines_of(chars@.skip(start as int)) == Seq::<Seq<char>>::empty());
        } else {
            let stop: usize = if end > start && chars[end - 1] == '\r' {
                end - 1
            } else {
                end
            };
            let line = slice_subrange(chars, start, stop);
            proof {
                assert(rest.take(end - start) == chars@.subrange(start as int, end as int));
                assert(line@ == without_cr(rest.take(end - start)));
                assert(rest.skip(end - start + 1) == chars@.skip(end + 1));
                assert(lines_of(rest) == seq![line@] + lines_of(chars@.skip(end + 1)));
            }
            out.push(line);
            start = end + 1;
        }
        proof {
            let all = lines_of(chars@);
            assert(all[before] == out@[before]@) by {
                assert(all[before] == lines_of(rest)[0]);
            }
            assert(all == all.take(before + 1) + lines_of(chars@.skip(start as int)));
        }
    }
    assert(lines_of(chars@.skip(start as int)) == Seq::<Seq<char>>::empty());
    out
}

// ---------------------------------------------------------------------------
// Laws
// ---------------------------------------------------------------------------

/// Only white space.
pub open spec fn all_space(s: Seq<char>) -> bool {
    forall|i: int| 0 <= i < s.len() ==> is_space(#[trigger] s[i])
}

/// White space is what Unicode says it is, by its code points.
pub proof fn law_which_characters_are_white_space(c: char)
    ensures
        is_space(c) <==> {
            let n = c as u32;
            9 <= n <= 13 || n == 32 || n == 0x85 || n == 0xa0 || n == 0x1680 || 0x2000 <= n
                <= 0x200a || n == 0x2028 || n == 0x2029 || n == 0x202f || n == 0x205f || n
                == 0x3000
        },
{
}

/// Trimming a text takes the white space off both its ends, all of it, and
/// nothing else.
pub proof fn law_white_space_goes_at_the_ends(
    before: Seq<char>,
    text: Seq<char>,
    behind: Seq<char>,
)
    requires
        all_space(before),
        all_space(behind),
        text.len() > 0 ==> !is_space(text[0]) && !is_space(text.last()),
    ensures
        trimmed(before + text + behind) == text,
        text.len() > 0 ==> trimmed_start(before + text) == text,
        trimmed_end(text + behind) == text,
{
    lemma_trimmed_end(text, behind);
    if text.len() > 0 {
        lemma_trimmed_start(before, text);
        lemma_trimmed_start(before, text + behind);
        assert(before + text + behind =~= before + (text + behind));
    } else {
        let all = before + text + behind;
        assert forall|i: int| 0 <= i < all.len() implies is_space(#[trigger] all[i]) by {
            if i >= before.len() {
                assert(all[i] == behind[i - before.len()]);
            }
        }
        lemma_trimmed_start(all, Seq::empty());
        assert(all + Seq::<char>::empty() =~= all);
        assert(text =~= Seq::empty());
    }
}

/// White space in front of a text goes.
proof fn lemma_trimmed_start(before: Seq<char>, text: Seq<char>)
    requires
        all_space(before),
        text.len() > 0 ==> !is_space(text[0]),
    ensures
        trimmed_start(before + text) == text,
    decreases before.len(),
{
    let all = before + text;
    if before.len() == 0 {
        assert(all =~= text);
    } else {
        let rest = before.drop_first();
        assert(is_space(before[0]));
        assert(all[0] == before[0]);
        assert(all.drop_first() =~= rest + text);
        assert forall|i: int| 0 <= i < rest.len() implies is_space(#[trigger] rest[i]) by {
            assert(rest[i] == before[i + 1]);
        }
        lemma_trimmed_start(rest, text);
    }
}

/// White space behind a text goes.
proof fn lemma_trimmed_end(text: Seq<char>, behind: Seq<char>)
    requires
        all_space(behind),
        text.len() > 0 ==> !is_space(text.last()),
    ensures
        trimmed_end(text + behind) == text,
    decreases behind.len(),
{
    let all = text + behind;
    if behind.len() == 0 {
        assert(all =~= text);
    } else {
        let rest = behind.drop_last();
        assert(is_space(behind[behind.len() - 1]));
        assert(all.last() == behind.last());
        assert(all.drop_last() =~= text + rest);
        assert forall|i: int| 0 <= i < rest.len() implies is_space(#[trigger] rest[i]) by {
            assert(rest[i] == behind[i]);
        }
        lemma_trimmed_end(text, rest);
    }
}

/// On ASCII text a lowercase form is the letter 32 code points on, and
/// every other character its own.
pub proof fn law_ascii_letters_move_down(c: char)
    ensures
        65 <= c as u32 <= 90 ==> ascii_lower(c) as u32 == c as u32 + 32,
        !(65 <= c as u32 <= 90) ==> ascii_lower(c) == c,
{
}

/// A prefix is taken off where it stands in front, and only there.
pub proof fn law_a_prefix_is_taken_off(prefix: Seq<char>, rest: Seq<char>, other: Seq<char>)
    ensures
        without_prefix(prefix + rest, prefix) == Some(rest),
        without_prefix(other, prefix) is Some ==> other == prefix + without_prefix(
            other,
            prefix,
        )->0,
        other.len() < prefix.len() ==> without_prefix(other, prefix) is None,
        forall|i: int|
            0 <= i < prefix.len() && i < other.len() && #[trigger] other[i] != prefix[i]
                ==> without_prefix(other, prefix) is None,
{
    let all = prefix + rest;
    assert(all.subrange(0, prefix.len() as int) =~= prefix);
    assert(all.skip(prefix.len() as int) =~= rest);
    if without_prefix(other, prefix) is Some {
        assert(other.subrange(0, prefix.len() as int) == prefix);
        assert forall|i: int| 0 <= i < prefix.len() implies other[i] == prefix[i] by {
            assert(other.subrange(0, prefix.len() as int)[i] == other[i]);
        }
        assert(other =~= prefix + other.skip(prefix.len() as int));
    }
}

/// A text stands somewhere in another wherever that is, and not in one
/// that lacks its first character.
pub proof fn law_where_a_text_occurs(before: Seq<char>, needle: Seq<char>, behind: Seq<char>)
    ensures
        occurs(before + needle + behind, needle),
        needle.len() > 0 && !before.contains(needle[0]) ==> !occurs(before, needle),
{
    let all = before + needle + behind;
    let n = before.len() as int;
    assert(all.subrange(n, n + needle.len()) =~= needle);
    if needle.len() > 0 && occurs(before, needle) {
        let i = choose|i: int|
            0 <= i <= before.len() - needle.len() && #[trigger] before.subrange(
                i,
                i + needle.len(),
            ) == needle;
        assert(before.subrange(i, i + needle.len())[0] == before[i]);
        assert(before.contains(needle[0]));
    }
}

/// A text is split at its first `/`, whatever stands behind that.
pub proof fn law_the_first_slash_splits(head: Seq<char>, tail: Seq<char>)
    requires
        !head.contains('/'),
    ensures
        first_slash(head + seq!['/'] + tail) == head.len(),
        first_slash(head) == head.len(),
{
    let all = head + seq!['/'] + tail;
    assert forall|i: int| 0 <= i < head.len() implies all[i] != '/' by {
        assert(head.contains(head[i]));
    }
    lemma_first_slash(all, head.len() as int);
    assert forall|i: int| 0 <= i < head.len() implies head[i] != '/' by {
        assert(head.contains(head[i]));
    }
    lemma_first_slash(head, head.len() as int);
}

} // verus!
