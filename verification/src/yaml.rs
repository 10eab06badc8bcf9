//! The YAML llmman writes, and its own blocks in YAML it shares.

use crate::lines::{
    are_lines, is_line, lemma_lines_are_lines, lemma_lines_come_back, lemma_lines_of_unlines,
    lemma_trimmed_without_cr, without_crs,
};
use crate::text::{
    is_space, lines, lines_of, push_chars, same_chars, to_chars, trim_end, trim_start, trimmed_end,
    trimmed_start, unlines, without_cr,
};
use vstd::prelude::*;
use vstd::string::*;

verus! {

// ---------------------------------------------------------------------------
// Scalars
// ---------------------------------------------------------------------------

/// `s` with a backslash in front of each backslash and each double quote.
pub open spec fn escaped(s: Seq<char>) -> Seq<char>
    decreases s.len(),
{
    if s.len() == 0 {
        Seq::empty()
    } else {
        let c = s.last();
        if c == '\\' || c == '"' {
            escaped(s.drop_last()).push('\\').push(c)
        } else {
            escaped(s.drop_last()).push(c)
        }
    }
}

/// `s` as a double-quoted YAML scalar.
pub open spec fn quoted(s: Seq<char>) -> Seq<char> {
    (seq!['"'] + escaped(s)).push('"')
}

/// Renders `s` as a double-quoted YAML scalar, escaping backslashes and
/// double quotes: enough to keep any model name or URL a literal string
/// regardless of the YAML keywords or metacharacters it might contain.
pub fn yaml_quote(s: &str) -> (r: String)
    ensures
        r@ == quoted(s@),
{
    let chars = to_chars(s);
    let mut out = String::new();
    out.push('"');
    for i in 0..chars.len()
        invariant
            chars@ == s@,
            out@ == seq!['"'] + escaped(chars@.take(i as int)),
    {
        let c = chars[i];
        assert(chars@.take(i + 1).drop_last() == chars@.take(i as int));
        assert(chars@.take(i + 1).last() == c);
        if c == '\\' || c == '"' {
            out.push('\\');
        }
        out.push(c);
        assert(out@ =~= seq!['"'] + escaped(chars@.take(i + 1)));
    }
    assert(chars@.take(chars@.len() as int) == chars@);
    out.push('"');
    out
}

/// What a reader makes of the inside of a double-quoted scalar whose only
/// escapes are those of a backslash and of a double quote. None at a quote
/// that would end the scalar early, or at a backslash with nothing to
/// escape.
pub open spec fn unescaped(s: Seq<char>) -> Option<Seq<char>>
    decreases s.len(),
{
    if s.len() == 0 {
        Some(Seq::empty())
    } else if s[0] == '"' {
        None
    } else if s[0] == '\\' {
        if s.len() >= 2 && (s[1] == '\\' || s[1] == '"') {
            match unescaped(s.skip(2)) {
                Some(rest) => Some(seq![s[1]] + rest),
                None => None,
            }
        } else {
            None
        }
    } else {
        match unescaped(s.skip(1)) {
            Some(rest) => Some(seq![s[0]] + rest),
            None => None,
        }
    }
}

/// A quoted value is read back as the value: what is between the quotes
/// ends at the last one and stands for exactly the characters quoted.
pub proof fn law_a_quoted_value_is_read_back(s: Seq<char>)
    ensures
        quoted(s).len() >= 2,
        quoted(s)[0] == '"',
        quoted(s).last() == '"',
        unescaped(quoted(s).subrange(1, quoted(s).len() - 1)) == Some(s),
{
    assert(quoted(s).subrange(1, quoted(s).len() - 1) =~= escaped(s));
    lemma_unescaped(s);
}

/// The first character of a text, escaped, stands first.
proof fn lemma_escaped_first(s: Seq<char>)
    requires
        s.len() > 0,
    ensures
        escaped(s) == (if s[0] == '\\' || s[0] == '"' {
            seq!['\\', s[0]]
        } else {
            seq![s[0]]
        }) + escaped(s.drop_first()),
    decreases s.len(),
{
    let head = if s[0] == '\\' || s[0] == '"' {
        seq!['\\', s[0]]
    } else {
        seq![s[0]]
    };
    if s.len() == 1 {
        assert(s.drop_last() =~= Seq::<char>::empty());
        assert(s.drop_first() =~= Seq::<char>::empty());
        assert(escaped(s) =~= head + escaped(s.drop_first()));
    } else {
        lemma_escaped_first(s.drop_last());
        assert(s.drop_last().drop_first() == s.drop_first().drop_last());
        assert(s.drop_first().last() == s.last());
        assert(escaped(s) =~= head + escaped(s.drop_first()));
    }
}

proof fn lemma_unescaped(s: Seq<char>)
    ensures
        unescaped(escaped(s)) == Some(s),
    decreases s.len(),
{
    if s.len() > 0 {
        lemma_escaped_first(s);
        lemma_unescaped(s.drop_first());
        let rest = escaped(s.drop_first());
        let all = escaped(s);
        if s[0] == '\\' || s[0] == '"' {
            assert(all[0] == '\\' && all[1] == s[0]);
            assert(all.skip(2) =~= rest);
            assert(seq![all[1]] + s.drop_first() =~= s);
        } else {
            assert(all[0] == s[0]);
            assert(all.skip(1) =~= rest);
            assert(seq![all[0]] + s.drop_first() =~= s);
        }
    } else {
        assert(s =~= Seq::empty());
    }
}

/// A quoted value stays on its line, and its quote ends it.
pub proof fn lemma_quoted_is_a_line(s: Seq<char>)
    requires
        is_line(s),
    ensures
        is_line(quoted(s)),
        quoted(s).last() == '"',
{
    lemma_escaped_is_a_line(s);
}

proof fn lemma_escaped_is_a_line(s: Seq<char>)
    requires
        is_line(s),
    ensures
        is_line(escaped(s)),
    decreases s.len(),
{
    if s.len() > 0 {
        assert(is_line(s.drop_last()));
        lemma_escaped_is_a_line(s.drop_last());
        assert(s.last() != '\n');
    }
}

// ---------------------------------------------------------------------------
// Top-level blocks
// ---------------------------------------------------------------------------

/// A line that belongs to no block of its own: blank, or a comment.
pub open spec fn is_blank_or_comment(line: Seq<char>) -> bool {
    let t = trimmed_start(line);
    t.len() == 0 || t[0] == '#'
}

/// A line that is indented.
pub open spec fn is_indented(line: Seq<char>) -> bool {
    line.len() > 0 && (line[0] == ' ' || line[0] == '\t')
}

/// Whether the last of some lines lies in the block `header` opens: behind
/// it, with no other line at the margin in between. Blank lines and
/// comments lie where the line before them does.
pub open spec fn in_block(lines: Seq<Seq<char>>, header: Seq<char>) -> bool
    decreases lines.len(),
{
    if lines.len() == 0 {
        false
    } else {
        let line = lines.last();
        if is_blank_or_comment(line) || is_indented(line) {
            in_block(lines.drop_last(), header)
        } else {
            trimmed_end(line) == header
        }
    }
}

/// The lines that do not lie in the block `header` opens.
pub open spec fn outside_block(lines: Seq<Seq<char>>, header: Seq<char>) -> Seq<Seq<char>>
    decreases lines.len(),
{
    if lines.len() == 0 {
        Seq::empty()
    } else {
        let before = outside_block(lines.drop_last(), header);
        if in_block(lines, header) {
            before
        } else {
            before.push(lines.last())
        }
    }
}

/// A YAML text without the block of a top-level key, one `\n` behind each
/// line that is left.
pub open spec fn without_key(text: Seq<char>, key: Seq<char>) -> Seq<char> {
    unlines(outside_block(lines_of(text), key.push(':')))
}

/// Removes a top-level YAML key (`<key>:` at column 0) and every line
/// indented under it, up to the next column-0 line or the end. Only ever
/// needs to undo llmman's own writes, not handle arbitrary YAML.
pub fn strip_yaml_top_level_key(existing: &str, key: &str) -> (r: String)
    ensures
        r@ == without_key(existing@, key@),
{
    let chars = to_chars(existing);
    let mut header = to_chars(key);
    header.push(':');
    let all = lines(chars.as_slice());
    let ghost model = lines_of(existing@);
    let ghost opener = key@.push(':');
    let mut out = String::new();
    let mut skipping = false;
    assert(model.take(0) == Seq::<Seq<char>>::empty());
    for i in 0..all.len()
        invariant
            header@ == opener,
            opener == key@.push(':'),
            all@.len() == model.len(),
            forall|k: int| 0 <= k < all@.len() ==> (#[trigger] all@[k])@ == model[k],
            skipping == in_block(model.take(i as int), opener),
            out@ == unlines(outside_block(model.take(i as int), opener)),
    {
        let line = all[i];
        proof {
            let so_far = model.take(i + 1);
            assert(so_far.drop_last() == model.take(i as int));
            assert(so_far.last() == line@);
        }
        let body = trim_start(line);
        let blank_or_comment = body.len() == 0 || body[0] == '#';
        let indented = line.len() > 0 && (line[0] == ' ' || line[0] == '\t');
        if !(blank_or_comment || indented) {
            skipping = same_chars(trim_end(line), header.as_slice());
        }
        if !skipping {
            let ghost before = outside_block(model.take(i as int), opener);
            push_chars(&mut out, line);
            out.push('\n');
            assert(before.push(line@).drop_last() == before);
            assert(out@ =~= unlines(before.push(line@)));
        }
    }
    assert(model.take(model.len() as int) == model);
    out
}

// ---------------------------------------------------------------------------
// Laws
// ---------------------------------------------------------------------------

/// Some lines hold no line that opens the block.
pub open spec fn no_opener(lines: Seq<Seq<char>>, header: Seq<char>) -> bool {
    forall|i: int| 0 <= i < lines.len() ==> !opens_block(#[trigger] lines[i], header)
}

/// A line that opens the block: the header, at the margin.
pub open spec fn opens_block(line: Seq<char>, header: Seq<char>) -> bool {
    !is_blank_or_comment(line) && !is_indented(line) && trimmed_end(line) == header
}

/// Without a line that opens it there is no block to lie in.
pub proof fn lemma_no_opener_no_block(lines: Seq<Seq<char>>, header: Seq<char>)
    requires
        no_opener(lines, header),
    ensures
        !in_block(lines, header),
        outside_block(lines, header) == lines,
    decreases lines.len(),
{
    if lines.len() > 0 {
        let front = lines.drop_last();
        assert forall|i: int| 0 <= i < front.len() implies !opens_block(
            #[trigger] front[i],
            header,
        ) by {
            assert(!opens_block(lines[i], header));
        }
        lemma_no_opener_no_block(front, header);
        assert(!opens_block(lines.last(), header));
        assert(front.push(lines.last()) =~= lines);
    } else {
        assert(outside_block(lines, header) =~= lines);
    }
}

/// What is outside the block has no line that opens it, and is made of the
/// lines there were.
pub proof fn lemma_outside_block(lines: Seq<Seq<char>>, header: Seq<char>)
    ensures
        no_opener(outside_block(lines, header), header),
        are_lines(lines) ==> are_lines(outside_block(lines, header)),
        without_crs(lines) ==> without_crs(outside_block(lines, header)),
        forall|other: Seq<char>|
            no_opener(lines, other) ==> #[trigger] no_opener(outside_block(lines, header), other),
    decreases lines.len(),
{
    if lines.len() > 0 {
        let front = lines.drop_last();
        lemma_outside_block(front, header);
        let kept = outside_block(lines, header);
        let before = outside_block(front, header);
        assert(forall|i: int| 0 <= i < front.len() ==> #[trigger] front[i] == lines[i]);
        if are_lines(lines) {
            assert(are_lines(front));
            assert(is_line(lines.last()));
        }
        if without_crs(lines) {
            assert(without_crs(front));
            assert(without_cr(lines.last()) == lines.last());
        }
        assert forall|other: Seq<char>| no_opener(lines, other) implies #[trigger] no_opener(
            kept,
            other,
        ) by {
            assert(no_opener(front, other));
            assert(no_opener(before, other));
            assert(!opens_block(lines.last(), other));
        }
    }
}

/// No line that opens the key is left.
pub proof fn law_the_key_is_gone(text: Seq<char>, key: Seq<char>)
    ensures
        no_opener(lines_of(without_key(text, key)), key.push(':')),
{
    let header = key.push(':');
    let kept = outside_block(lines_of(text), header);
    lemma_lines_without_key(text, key);
    lemma_outside_block(lines_of(text), header);
    let cut = cut_lines(kept);
    assert forall|i: int| 0 <= i < cut.len() implies !opens_block(#[trigger] cut[i], header) by {
        assert(!opens_block(kept[i], header));
        lemma_trimmed_without_cr(kept[i]);
        lemma_kind_without_cr(kept[i]);
    }
}

/// Taking a `\r` off its end does not change the kind of a line.
pub proof fn lemma_kind_without_cr(line: Seq<char>)
    ensures
        is_blank_or_comment(without_cr(line)) == is_blank_or_comment(line),
        is_blank_or_comment(line) || is_indented(without_cr(line)) == is_indented(line),
{
    let cut = without_cr(line);
    if line.len() > 0 && line.last() == '\r' {
        lemma_trimmed_start_without_cr(line);
        if cut.len() > 0 {
            assert(cut[0] == line[0]);
        }
    }
}

proof fn lemma_trimmed_start_without_cr(line: Seq<char>)
    requires
        line.len() > 0,
        line.last() == '\r',
    ensures
        is_blank_or_comment(line) == is_blank_or_comment(line.drop_last()),
    decreases line.len(),
{
    let cut = line.drop_last();
    assert(is_space('\r'));
    if cut.len() > 0 {
        assert(cut[0] == line[0]);
        if is_space(line[0]) {
            assert(line.drop_first().last() == '\r');
            lemma_trimmed_start_without_cr(line.drop_first());
            assert(line.drop_first().drop_last() == cut.drop_first());
        }
    } else {
        assert(line.drop_first() =~= Seq::<char>::empty());
        assert(trimmed_start(line) == trimmed_start(line.drop_first()));
    }
}

/// Lines without the `\r` at their ends.
pub open spec fn cut_lines(lines: Seq<Seq<char>>) -> Seq<Seq<char>> {
    lines.map_values(|l: Seq<char>| without_cr(l))
}

/// Blocks are the same with a `\r` at the end of lines as without.
pub proof fn lemma_blocks_without_crs(lines: Seq<Seq<char>>, header: Seq<char>)
    ensures
        in_block(cut_lines(lines), header) == in_block(lines, header),
        outside_block(cut_lines(lines), header) == cut_lines(outside_block(lines, header)),
    decreases lines.len(),
{
    let cut = cut_lines(lines);
    if lines.len() > 0 {
        let front = lines.drop_last();
        lemma_blocks_without_crs(front, header);
        assert(cut.drop_last() =~= cut_lines(front));
        assert(cut.last() == without_cr(lines.last()));
        lemma_kind_without_cr(lines.last());
        lemma_trimmed_without_cr(lines.last());
        assert(outside_block(cut, header) =~= cut_lines(outside_block(lines, header)));
    } else {
        assert(outside_block(cut, header) =~= cut_lines(outside_block(lines, header)));
    }
}

/// What is left of a text once a key has been removed from it, as lines.
pub proof fn lemma_lines_without_key(text: Seq<char>, key: Seq<char>)
    ensures
        lines_of(without_key(text, key)) == cut_lines(outside_block(lines_of(text), key.push(':'))),
        are_lines(outside_block(lines_of(text), key.push(':'))),
{
    let kept = outside_block(lines_of(text), key.push(':'));
    lemma_lines_are_lines(text);
    lemma_outside_block(lines_of(text), key.push(':'));
    lemma_lines_of_unlines(kept, Seq::empty());
    assert(unlines(kept) + Seq::<char>::empty() == unlines(kept));
    assert(lines_of(without_key(text, key)) =~= cut_lines(kept));
}

/// A line that stays when one block goes lies in another block as before.
proof fn lemma_other_block(lines: Seq<Seq<char>>, a: Seq<char>, b: Seq<char>)
    ensures
        !in_block(lines, a) ==> in_block(outside_block(lines, a), b) == in_block(lines, b),
    decreases lines.len(),
{
    if lines.len() > 0 && !in_block(lines, a) {
        let front = lines.drop_last();
        let kept = outside_block(front, a).push(lines.last());
        assert(kept.drop_last() =~= outside_block(front, a));
        lemma_other_block(front, a, b);
    }
}

/// One more line stays beside two blocks if it lies in neither.
proof fn lemma_two_blocks_last(lines: Seq<Seq<char>>, a: Seq<char>, b: Seq<char>)
    requires
        lines.len() > 0,
    ensures
        outside_block(outside_block(lines, a), b) == {
            let before = outside_block(outside_block(lines.drop_last(), a), b);
            if in_block(lines, a) || in_block(lines, b) {
                before
            } else {
                before.push(lines.last())
            }
        },
{
    lemma_other_block(lines, a, b);
    if !in_block(lines, a) {
        let kept = outside_block(lines, a);
        assert(kept.drop_last() =~= outside_block(lines.drop_last(), a));
    }
}

/// Two blocks may go in either order.
proof fn lemma_blocks_commute(lines: Seq<Seq<char>>, a: Seq<char>, b: Seq<char>)
    ensures
        outside_block(outside_block(lines, a), b) == outside_block(outside_block(lines, b), a),
    decreases lines.len(),
{
    if lines.len() > 0 {
        lemma_blocks_commute(lines.drop_last(), a, b);
        lemma_two_blocks_last(lines, a, b);
        lemma_two_blocks_last(lines, b, a);
    }
}

/// Two keys may be removed in either order.
pub proof fn law_keys_are_removed_in_either_order(text: Seq<char>, a: Seq<char>, b: Seq<char>)
    ensures
        without_key(without_key(text, a), b) == without_key(without_key(text, b), a),
{
    let all = lines_of(text);
    lemma_lines_without_key(text, a);
    lemma_lines_without_key(text, b);
    lemma_blocks_without_crs(outside_block(all, a.push(':')), b.push(':'));
    lemma_blocks_without_crs(outside_block(all, b.push(':')), a.push(':'));
    lemma_blocks_commute(all, a.push(':'), b.push(':'));
}

/// A text without the key stays as it is, once each of its lines ends with
/// one `\n`.
pub proof fn law_without_the_key_nothing_changes(text: Seq<char>, key: Seq<char>)
    requires
        no_opener(lines_of(text), key.push(':')),
        text == unlines(lines_of(text)),
    ensures
        without_key(text, key) == text,
{
    lemma_no_opener_no_block(lines_of(text), key.push(':'));
}

/// Removing a key twice is removing it once, where no line ends with a `\r`
/// of its own.
pub proof fn law_removing_twice_is_removing_once(text: Seq<char>, key: Seq<char>)
    requires
        without_crs(lines_of(text)),
    ensures
        without_key(without_key(text, key), key) == without_key(text, key),
{
    let header = key.push(':');
    let kept = outside_block(lines_of(text), header);
    lemma_lines_are_lines(text);
    lemma_outside_block(lines_of(text), header);
    lemma_lines_come_back(kept, Seq::empty());
    lemma_no_opener_no_block(kept, header);
}

/// Only the block of the key goes, and all of it: the key's line, and what
/// is indented, blank or a comment under it. What stands before it and from
/// the next line at the margin on is treated as it would be without it.
pub proof fn law_only_the_block_goes(
    before: Seq<Seq<char>>,
    opener: Seq<char>,
    body: Seq<Seq<char>>,
    after: Seq<Seq<char>>,
    key: Seq<char>,
)
    requires
        opens_block(opener, key + seq![':']),
        forall|i: int|
            0 <= i < body.len() ==> is_blank_or_comment(#[trigger] body[i]) || is_indented(body[i]),
        after.len() > 0 ==> !is_blank_or_comment(after[0]) && !is_indented(after[0]),
    ensures
        outside_block(before + seq![opener] + body + after, key + seq![':']) == outside_block(
            before,
            key + seq![':'],
        ) + outside_block(after, key + seq![':']),
{
    let header = key + seq![':'];
    lemma_body_goes(before, opener, body, header);
    lemma_margin_apart(before + seq![opener] + body, after, header);
}

/// Lines under the key lie in its block.
proof fn lemma_body_goes(
    before: Seq<Seq<char>>,
    opener: Seq<char>,
    body: Seq<Seq<char>>,
    header: Seq<char>,
)
    requires
        opens_block(opener, header),
        forall|i: int|
            0 <= i < body.len() ==> is_blank_or_comment(#[trigger] body[i]) || is_indented(body[i]),
    ensures
        in_block(before + seq![opener] + body, header),
        outside_block(before + seq![opener] + body, header) == outside_block(before, header),
    decreases body.len(),
{
    let all = before + seq![opener] + body;
    if body.len() == 0 {
        assert(all =~= before.push(opener));
        assert(all.drop_last() =~= before);
    } else {
        let front = body.drop_last();
        assert forall|i: int| 0 <= i < front.len() implies is_blank_or_comment(
            #[trigger] front[i],
        ) || is_indented(front[i]) by {
            assert(front[i] == body[i]);
        }
        lemma_body_goes(before, opener, front, header);
        assert(all.drop_last() =~= before + seq![opener] + front);
        assert(all.last() == body[body.len() - 1]);
    }
}

/// Lines that begin at the margin lie where they would on their own.
proof fn lemma_margin_apart(a: Seq<Seq<char>>, b: Seq<Seq<char>>, header: Seq<char>)
    requires
        b.len() > 0 ==> !is_blank_or_comment(b[0]) && !is_indented(b[0]),
    ensures
        outside_block(a + b, header) == outside_block(a, header) + outside_block(b, header),
        b.len() > 0 ==> in_block(a + b, header) == in_block(b, header),
    decreases b.len(),
{
    if b.len() == 0 {
        assert(a + b =~= a);
        assert(outside_block(a, header) + outside_block(b, header) =~= outside_block(a, header));
    } else {
        let front = b.drop_last();
        assert((a + b).drop_last() =~= a + front);
        assert((a + b).last() == b.last());
        if front.len() > 0 {
            assert(front[0] == b[0]);
        }
        lemma_margin_apart(a, front, header);
        assert(outside_block(a + b, header) =~= outside_block(a, header) + outside_block(
            b,
            header,
        ));
    }
}

/// A key is removed line by line, and what is left of a text is its other
/// lines, each with one `\n` behind it.
pub proof fn law_a_key_is_removed_by_lines(text: Seq<char>, key: Seq<char>)
    ensures
        without_key(text, key) == unlines(outside_block(lines_of(text), key + seq![':'])),
{
    assert(key.push(':') =~= key + seq![':']);
}

/// What the kinds of lines are: blank ones and comments by their first
/// character that is not white space, indented ones by a space or a tab in
/// front, and the line of a key by nothing else standing on it.
pub proof fn law_what_kind_a_line_is(line: Seq<char>, key: Seq<char>)
    ensures
        is_indented(line) <==> line.len() > 0 && (line[0] == ' ' || line[0] == '\t'),
        is_blank_or_comment(line) <==> trimmed_start(line).len() == 0 || trimmed_start(line)[0]
            == '#',
        opens_block(line, key.push(':')) <==> !is_blank_or_comment(line) && !is_indented(line)
            && trimmed_end(line) == key + seq![':'],
{
    assert(key.push(':') =~= key + seq![':']);
}

/// How a value is quoted: in double quotes, a backslash in front of each
/// backslash and each double quote, and everything else as it is.
pub proof fn law_how_a_value_is_quoted(s: Seq<char>, c: char)
    ensures
        quoted(Seq::empty()) == seq!['"', '"'],
        quoted(s).len() >= 2,
        quoted(s + seq![c]) == quoted(s).drop_last() + (if c == '\\' || c == '"' {
            seq!['\\', c]
        } else {
            seq![c]
        }) + seq!['"'],
{
    let more = s + seq![c];
    assert(more.drop_last() =~= s);
    assert(quoted(s).drop_last() =~= seq!['"'] + escaped(s));
    assert(quoted(Seq::empty()) =~= seq!['"', '"']);
    assert(quoted(more) =~= quoted(s).drop_last() + (if c == '\\' || c == '"' {
        seq!['\\', c]
    } else {
        seq![c]
    }) + seq!['"']);
}

} // verus!
