//! What the lines of a text are made of: facts the removal of blocks from
//! configuration files rests on.

use crate::text::{
    first_newline, is_space, lemma_first_newline, lines_of, trimmed, trimmed_end, trimmed_start,
    unlines, without_cr,
};
use vstd::prelude::*;

verus! {

/// A line: no `\n` in it.
pub open spec fn is_line(line: Seq<char>) -> bool {
    forall|i: int| 0 <= i < line.len() ==> line[i] != '\n'
}

/// Lines without a `\n` in any of them.
pub open spec fn are_lines(lines: Seq<Seq<char>>) -> bool {
    forall|i: int| 0 <= i < lines.len() ==> is_line(#[trigger] lines[i])
}

/// Lines none of which ends with a `\r`.
pub open spec fn without_crs(lines: Seq<Seq<char>>) -> bool {
    forall|i: int| 0 <= i < lines.len() ==> without_cr(#[trigger] lines[i]) == lines[i]
}

/// The first `\n` has none before it.
proof fn lemma_before_first_newline(s: Seq<char>)
    ensures
        0 <= first_newline(s) <= s.len(),
        forall|i: int| 0 <= i < first_newline(s) ==> s[i] != '\n',
        first_newline(s) < s.len() ==> s[first_newline(s)] == '\n',
    decreases s.len(),
{
    if s.len() > 0 && s[0] != '\n' {
        let rest = s.drop_first();
        lemma_before_first_newline(rest);
        assert forall|i: int| 0 <= i < first_newline(s) implies s[i] != '\n' by {
            if i > 0 {
                assert(rest[i - 1] != '\n');
            }
        }
    }
}

/// The lines of a text hold no `\n`.
pub proof fn lemma_lines_are_lines(s: Seq<char>)
    ensures
        are_lines(lines_of(s)),
    decreases s.len(),
{
    lemma_before_first_newline(s);
    let n = first_newline(s);
    if s.len() > 0 && n < s.len() {
        lemma_lines_are_lines(s.skip(n + 1));
        let head = without_cr(s.take(n));
        assert(is_line(head));
        let rest = lines_of(s.skip(n + 1));
        assert forall|i: int| 0 <= i < lines_of(s).len() implies is_line(
            #[trigger] lines_of(s)[i],
        ) by {
            if i > 0 {
                assert(lines_of(s)[i] == rest[i - 1]);
            }
        }
    }
}

/// A line with its `\n` in front of a text is the first of its lines.
proof fn lemma_one_line_first(line: Seq<char>, rest: Seq<char>)
    requires
        is_line(line),
    ensures
        lines_of(line.push('\n') + rest) == seq![without_cr(line)] + lines_of(rest),
{
    let s = line.push('\n') + rest;
    lemma_first_newline(s, line.len() as int);
    assert(s.take(line.len() as int) == line);
    assert(s.skip(line.len() as int + 1) == rest);
}

/// The first of some lines stands first in their text.
pub proof fn lemma_unlines_first(lines: Seq<Seq<char>>)
    requires
        lines.len() > 0,
    ensures
        unlines(lines) == lines[0].push('\n') + unlines(lines.drop_first()),
    decreases lines.len(),
{
    let front = lines.drop_last();
    if lines.len() == 1 {
        assert(front == Seq::<Seq<char>>::empty());
        assert(unlines(front) =~= Seq::<char>::empty());
        assert(lines.drop_first() == Seq::<Seq<char>>::empty());
        assert(unlines(lines) =~= lines[0].push('\n'));
    } else {
        lemma_unlines_first(front);
        assert(lines.drop_first().drop_last() == front.drop_first());
        assert(lines.drop_first().last() == lines.last());
        assert(unlines(lines) =~= lines[0].push('\n') + unlines(lines.drop_first()));
    }
}

/// The lines of a text that begins with the text of some lines.
pub proof fn lemma_lines_of_unlines(lines: Seq<Seq<char>>, rest: Seq<char>)
    requires
        are_lines(lines),
    ensures
        lines_of(unlines(lines) + rest) == lines.map_values(|l: Seq<char>| without_cr(l))
            + lines_of(rest),
    decreases lines.len(),
{
    let cut = |l: Seq<char>| without_cr(l);
    if lines.len() == 0 {
        assert(unlines(lines) + rest == rest);
        assert(lines.map_values(cut) + lines_of(rest) =~= lines_of(rest));
    } else {
        let tail = lines.drop_first();
        lemma_unlines_first(lines);
        assert forall|i: int| 0 <= i < tail.len() implies is_line(#[trigger] tail[i]) by {
            assert(is_line(lines[i + 1]));
        }
        lemma_lines_of_unlines(tail, rest);
        assert(unlines(lines) + rest == lines[0].push('\n') + (unlines(tail) + rest));
        assert(is_line(lines[0]));
        lemma_one_line_first(lines[0], unlines(tail) + rest);
        assert(lines.map_values(cut) =~= seq![without_cr(lines[0])] + tail.map_values(cut));
        assert(lines_of(unlines(lines) + rest) =~= lines.map_values(cut) + lines_of(rest));
    }
}

/// The lines of the text of some lines are those lines again, where none of
/// them ends with a `\r`.
pub proof fn lemma_lines_come_back(lines: Seq<Seq<char>>, rest: Seq<char>)
    requires
        are_lines(lines),
        without_crs(lines),
    ensures
        lines_of(unlines(lines) + rest) == lines + lines_of(rest),
        lines_of(unlines(lines)) == lines,
{
    let cut = |l: Seq<char>| without_cr(l);
    assert(lines.map_values(cut) =~= lines);
    lemma_lines_of_unlines(lines, rest);
    lemma_lines_of_unlines(lines, Seq::empty());
    assert(unlines(lines) + Seq::<char>::empty() == unlines(lines));
    assert(lines + lines_of(Seq::empty()) =~= lines);
}

/// The lines of a text and of what stands behind it, where the text is empty
/// or ends with a `\n`.
pub proof fn lemma_lines_add(text: Seq<char>, rest: Seq<char>)
    requires
        text.len() == 0 || text.last() == '\n',
    ensures
        lines_of(text + rest) == lines_of(text) + lines_of(rest),
    decreases text.len(),
{
    let all = text + rest;
    if text.len() == 0 {
        assert(all =~= rest);
        assert(lines_of(text) + lines_of(rest) =~= lines_of(rest));
    } else {
        let n = first_newline(text);
        lemma_before_first_newline(text);
        if n == text.len() {
            assert(text[text.len() - 1] != '\n');
        }
        assert forall|i: int| 0 <= i < n implies all[i] != '\n' by {
            assert(text[i] != '\n');
        }
        lemma_first_newline(all, n);
        assert(all.take(n) =~= text.take(n));
        let tail = text.skip(n + 1);
        assert(all.skip(n + 1) =~= tail + rest);
        if tail.len() > 0 {
            assert(tail.last() == text.last());
        }
        lemma_lines_add(tail, rest);
        assert(lines_of(all) =~= lines_of(text) + lines_of(rest));
    }
}

/// A `\r` at its end is white space a trimmed line does not have.
pub proof fn lemma_trimmed_without_cr(line: Seq<char>)
    ensures
        trimmed_end(without_cr(line)) == trimmed_end(line),
        trimmed(without_cr(line)) == trimmed(line),
{
    if line.len() > 0 && line.last() == '\r' {
        assert(is_space('\r'));
        lemma_trimmed_ignores_last_space(line);
    }
}

/// White space at the end of a line is not there once it is trimmed.
proof fn lemma_trimmed_ignores_last_space(line: Seq<char>)
    requires
        line.len() > 0,
        is_space(line.last()),
    ensures
        trimmed(line.drop_last()) == trimmed(line),
    decreases line.len(),
{
    let front = line.drop_last();
    if is_space(line[0]) {
        if line.len() == 1 {
            assert(line.drop_first() =~= front);
        } else {
            let rest = line.drop_first();
            assert(rest.last() == line.last());
            lemma_trimmed_ignores_last_space(rest);
            assert(front.drop_first() == rest.drop_last());
            assert(front[0] == line[0]);
        }
    } else {
        assert(trimmed_start(line) == line);
        assert(front.len() > 0 ==> front[0] == line[0]);
        assert(trimmed_start(front) == front);
    }
}

// ---------------------------------------------------------------------------
// Laws
// ---------------------------------------------------------------------------

/// A line ends at its `\n`, and a `\r` before that is not part of it.
pub proof fn law_where_a_line_ends(line: Seq<char>, rest: Seq<char>)
    requires
        is_line(line),
        line.len() > 0 ==> line.last() != '\r',
    ensures
        lines_of(line + seq!['\n'] + rest) == seq![line] + lines_of(rest),
        lines_of(line + seq!['\r', '\n'] + rest) == seq![line] + lines_of(rest),
        line.len() > 0 ==> lines_of(line) == seq![line],
        lines_of(Seq::empty()) == Seq::<Seq<char>>::empty(),
{
    lemma_one_line_first(line, rest);
    assert(line.push('\n') + rest =~= line + seq!['\n'] + rest);
    let ended = line.push('\r');
    assert(is_line(ended));
    lemma_one_line_first(ended, rest);
    assert(ended.drop_last() =~= line);
    assert(ended.push('\n') + rest =~= line + seq!['\r', '\n'] + rest);
    lemma_first_newline(line, line.len() as int);
}

/// Lines are written one after the other, each with one `\n` behind it.
pub proof fn law_how_lines_are_written(lines: Seq<Seq<char>>, line: Seq<char>)
    ensures
        unlines(Seq::empty()) == Seq::<char>::empty(),
        unlines(seq![line] + lines) == line + seq!['\n'] + unlines(lines),
        unlines(lines + seq![line]) == unlines(lines) + line + seq!['\n'],
{
    let first = seq![line] + lines;
    lemma_unlines_first(first);
    assert(first.drop_first() =~= lines);
    assert(line.push('\n') + unlines(lines) =~= line + seq!['\n'] + unlines(lines));
    let last = lines + seq![line];
    assert(last.drop_last() =~= lines);
    assert(unlines(lines) + line.push('\n') =~= unlines(lines) + line + seq!['\n']);
}

} // verus!
