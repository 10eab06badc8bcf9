//! A settings file the user shares with llmman: how it is read, and when
//! and how it is rewritten.

use crate::comments::{
    law_without_slashes_nothing_changes, strip_json_comments, uncommented,
};
use crate::json::{alike, fields, Doc, Json};
use crate::text::{
    from_chars, is_space, same, text_of, to_chars, trim, trimmed, trimmed_end, trimmed_start,
};
use crate::value::{
    bare_json, fits, max_depth, parse_json, parsed_json, pretty_json, pretty_text, reread,
};
use vstd::prelude::*;
use vstd::slice::slice_subrange;
use vstd::string::*;

verus! {

/// What becomes of a settings file.
#[derive(Debug)]
pub enum FileUpdate {
    /// It says what it should already.
    Keep,
    /// It holds something other than a JSON object and is left alone.
    NotAnObject,
    /// It is rewritten, kept as `.bak` first if `backup`.
    Write { backup: bool, contents: String },
}

/// What is to become of a file.
pub enum Change {
    /// It stays.
    Keep,
    /// It is left alone, as something that is no JSON object.
    NotAnObject,
    /// It is rewritten, kept as `.bak` first if `backup`.
    Write { backup: bool, contents: Seq<char> },
}

impl View for FileUpdate {
    type V = Change;

    open spec fn view(&self) -> Change {
        match self {
            FileUpdate::Keep => Change::Keep,
            FileUpdate::NotAnObject => Change::NotAnObject,
            FileUpdate::Write { backup, contents } => Change::Write {
                backup: *backup,
                contents: contents@,
            },
        }
    }
}

/// What is to become of a file, if that is known.
pub open spec fn change_in(update: Option<FileUpdate>) -> Option<Change> {
    match update {
        Some(update) => Some(update@),
        None => None,
    }
}

// ---------------------------------------------------------------------------
// Reading
// ---------------------------------------------------------------------------

/// `s` without the byte order marks in front of it.
pub open spec fn without_bom(s: Seq<char>) -> Seq<char>
    decreases s.len(),
{
    if s.len() > 0 && s[0] == '\u{feff}' {
        without_bom(s.drop_first())
    } else {
        s
    }
}

/// `chars` without the byte order marks in front of it.
fn skip_bom(chars: &[char]) -> (r: &[char])
    ensures
        r@ == without_bom(chars@),
{
    let mut i: usize = 0;
    assert(chars@.skip(0) == chars@);
    while i < chars.len() && chars[i] == '\u{feff}'
        invariant
            i <= chars@.len(),
            without_bom(chars@) == without_bom(chars@.skip(i as int)),
        decreases chars@.len() - i,
    {
        assert(chars@.skip(i as int).drop_first() == chars@.skip(i + 1));
        i = i + 1;
    }
    let rest = slice_subrange(chars, i, chars.len());
    assert(rest@ == chars@.skip(i as int));
    rest
}

/// The part of a file that is parsed.
pub open spec fn parsed_part(raw: Seq<char>, skips_bom: bool) -> Seq<char> {
    trimmed(
        if skips_bom {
            without_bom(raw)
        } else {
            raw
        },
    )
}

/// The object a settings file holds, comments apart: an empty one for a
/// file that is missing or blank, none for a file that holds anything else.
pub open spec fn object_in(raw: Option<Seq<char>>, skips_bom: bool) -> Option<Doc> {
    match raw {
        None => Some(Doc::Object(Map::empty())),
        Some(raw) => {
            let text = parsed_part(raw, skips_bom);
            if text.len() == 0 {
                Some(Doc::Object(Map::empty()))
            } else {
                match parsed_json(uncommented(text)) {
                    Some(Doc::Object(m)) => Some(Doc::Object(m)),
                    _ => None,
                }
            }
        },
    }
}

/// What was read of a settings file, none if that is no object.
pub fn object_read(read: Option<Json>) -> (r: Option<Json>)
    ensures
        r == match read {
            Some(doc) => if doc@ is Object {
                Some(doc)
            } else {
                None
            },
            None => None,
        },
{
    match read {
        Some(doc) => if doc.is_object() {
            Some(doc)
        } else {
            None
        },
        None => None,
    }
}

/// The object a settings file holds, comments apart. A file that starts
/// with a byte order mark is read past it if `skips_bom`.
pub fn read_object(raw: Option<&str>, skips_bom: bool) -> (r: Option<Json>)
    ensures
        match r {
            Some(doc) => object_in(text_of(raw), skips_bom) == Some(doc@),
            None => object_in(text_of(raw), skips_bom) is None,
        },
{
    match raw {
        None => {
            assert(fields(Seq::<(String, Json)>::empty()) == Map::<Seq<char>, Doc>::empty());
            Some(Json::Object(Vec::new()))
        },
        Some(raw) => {
            let chars = to_chars(raw);
            let text = if skips_bom {
                from_chars(trim(skip_bom(chars.as_slice())))
            } else {
                from_chars(trim(chars.as_slice()))
            };
            if text.as_str().is_empty() {
                assert(fields(Seq::<(String, Json)>::empty()) == Map::<Seq<char>, Doc>::empty());
                return Some(Json::Object(Vec::new()));
            }
            object_read(parse_json(strip_json_comments(text.as_str()).as_str()))
        },
    }
}

// ---------------------------------------------------------------------------
// Writing
// ---------------------------------------------------------------------------

/// Whether a file is kept as `.bak` before it is rewritten: the user's own
/// file, which is the one without a backup yet, and any later one that
/// carries comments.
pub open spec fn is_backed_up(raw: Option<Seq<char>>, backup_exists: bool) -> bool {
    raw matches Some(text) && (!backup_exists || uncommented(text) != text)
}

/// What becomes of a file that holds `existing` and should hold `merged`.
pub open spec fn update_of(
    raw: Option<Seq<char>>,
    backup_exists: bool,
    existing: Doc,
    merged: Doc,
) -> Change {
    if alike(merged, existing) {
        Change::Keep
    } else {
        Change::Write {
            backup: is_backed_up(raw, backup_exists),
            contents: pretty_text(merged).push('\n'),
        }
    }
}

/// A text is read back as the document it was made of, but for numbers that
/// are not whole, unless that nests too deeply.
pub open spec fn object_comes_back(text: Seq<char>, doc: Doc, skips_bom: bool) -> bool {
    &&& object_in(Some(text), skips_bom) is Some <==> fits(doc, max_depth())
    &&& object_in(Some(text), skips_bom) matches Some(read) ==> reread(doc, read)
}

/// The text that is written is read back as the document it was made of.
pub open spec fn reads_back(update: FileUpdate, merged: Doc, skips_bom: bool) -> bool {
    update matches FileUpdate::Write { contents, .. } ==> object_comes_back(
        contents@,
        merged,
        skips_bom,
    )
}

/// Rewrites a file that holds `existing` where it should hold `merged`.
pub fn update_file(
    raw: Option<&str>,
    backup_exists: bool,
    existing: &Json,
    merged: &Json,
) -> (r: FileUpdate)
    requires
        merged@ is Object,
    ensures
        r@ == update_of(text_of(raw), backup_exists, existing@, merged@),
        merged@ == existing@ ==> r is Keep,
        reads_back(r, merged@, false),
        reads_back(r, merged@, true),
{
    if merged.equals(existing) {
        return FileUpdate::Keep;
    }
    let backup = match raw {
        Some(raw) => !backup_exists || !same(strip_json_comments(raw).as_str(), raw),
        None => false,
    };
    let mut contents = pretty_json(merged);
    let ghost text = contents@;
    contents.push('\n');
    proof {
        lemma_written_text(text);
    }
    FileUpdate::Write { backup, contents }
}

/// What is said of a file of an agent's that is left alone.
pub open spec fn left_text(agent: Seq<char>, path: Seq<char>) -> Seq<char> {
    "[llmman] "@ + agent + ": "@ + path + " is not a JSON object; leaving it alone"@
}

/// What is said of a file of an agent's that is left alone.
pub fn left_alone(agent: &str, path: &str) -> (r: String)
    ensures
        r@ == left_text(agent@, path@),
{
    let mut out = "[llmman] ".to_owned();
    out.append(agent);
    out.append(": ");
    out.append(path);
    out.append(" is not a JSON object; leaving it alone");
    out
}

/// Bare JSON with a line break behind it is parsed as the bare JSON.
pub proof fn lemma_written_text(text: Seq<char>)
    requires
        bare_json(text),
    ensures
        parsed_part(text.push('\n'), false) == text,
        parsed_part(text.push('\n'), true) == text,
        uncommented(text) == text,
{
    lemma_trimmed_ends(text);
    let line = text.push('\n');
    assert(line[0] == text[0]);
    assert(trimmed_start(line) == line);
    assert(line.drop_last() == text);
    assert(without_bom(line) == line);
    law_without_slashes_nothing_changes(text);
}

/// A text that trimming leaves alone begins and ends with something else
/// than white space.
proof fn lemma_trimmed_ends(text: Seq<char>)
    requires
        text.len() > 0,
        trimmed(text) == text,
    ensures
        !is_space(text[0]),
        trimmed_end(text) == text,
{
    lemma_trimming_shortens(text);
    if is_space(text[0]) {
        lemma_trimming_shortens(text.drop_first());
        lemma_trimming_shortens(trimmed_start(text));
    }
}

proof fn lemma_trimming_shortens(s: Seq<char>)
    ensures
        trimmed_start(s).len() <= s.len(),
        trimmed_end(s).len() <= s.len(),
    decreases s.len(),
{
    if s.len() > 0 {
        lemma_trimming_shortens(s.drop_first());
        lemma_trimming_shortens(s.drop_last());
    }
}

// ---------------------------------------------------------------------------
// Laws
// ---------------------------------------------------------------------------

/// A file the user wrote is never lost: before it is rewritten it is kept,
/// unless a backup of it is there already and it carries no comments that
/// would be lost with it. A file that is not there is not kept.
pub proof fn law_what_the_user_wrote_is_kept(
    raw: Option<Seq<char>>,
    backup_exists: bool,
    existing: Doc,
    merged: Doc,
)
    ensures
        update_of(raw, backup_exists, existing, merged) matches Change::Write { backup, .. } ==> {
            &&& raw is None ==> !backup
            &&& raw is Some && !backup_exists ==> backup
            &&& raw is Some && backup_exists ==> (backup <==> uncommented(raw->0) != raw->0)
        },
{
}

/// A file is rewritten exactly where it does not say what it should, and
/// then holds that, with a line break behind it.
pub proof fn law_a_file_is_rewritten_where_it_differs(
    raw: Option<Seq<char>>,
    backup_exists: bool,
    existing: Doc,
    merged: Doc,
)
    ensures
        update_of(raw, backup_exists, existing, merged) is Keep <==> alike(merged, existing),
        !alike(merged, existing) ==> (update_of(
            raw,
            backup_exists,
            existing,
            merged,
        ) matches Change::Write { contents, .. } && contents == pretty_text(merged) + seq!['\n']),
{
    assert(pretty_text(merged).push('\n') =~= pretty_text(merged) + seq!['\n']);
}

/// What a settings file holds: nothing where it is missing or blank, the
/// object it is parsed as, comments apart, and no settings where it is
/// anything else. A byte order mark is passed over only where it is said
/// to be.
pub proof fn law_what_a_settings_file_holds(text: Seq<char>, skips_bom: bool)
    ensures
        object_in(None, skips_bom) == Some(Doc::Object(Map::empty())),
        trimmed(text).len() == 0 ==> object_in(Some(text), false) == Some(
            Doc::Object(Map::empty()),
        ),
        trimmed(text).len() > 0 ==> match parsed_json(uncommented(trimmed(text))) {
            Some(doc) => object_in(Some(text), false) == if doc is Object {
                Some(doc)
            } else {
                None
            },
            None => object_in(Some(text), false) is None,
        },
        text.len() == 0 || text[0] != '\u{feff}' ==> object_in(Some(text), true) == object_in(
            Some(text),
            false,
        ),
        object_in(Some(seq!['\u{feff}'] + text), true) == object_in(Some(text), true),
{
    let marked = seq!['\u{feff}'] + text;
    assert(marked.drop_first() =~= text);
}

/// What is said of a file that is left alone names the agent, then the
/// file.
pub proof fn law_a_file_left_alone_is_named(agent: Seq<char>, path: Seq<char>)
    ensures
        left_text(agent, path) == "[llmman] "@ + agent + ": "@ + path
            + " is not a JSON object; leaving it alone"@,
{
}

} // verus!
