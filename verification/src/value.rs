//! JSON text: what `serde_json` reads from it and writes of it.

use crate::comments::{mode_at, Mode};
use crate::json::{docs, fields, lemma_array_view, lemma_field_has_a_place, number_of, position, Doc, Json};
use crate::text::trimmed;
use vstd::prelude::*;

verus! {

// ---------------------------------------------------------------------------
// serde_json's own tree
// ---------------------------------------------------------------------------

/// A JSON value, as `serde_json` holds it.
#[verifier::external_type_specification]
#[verifier::external_body]
pub struct ExValue(serde_json::Value);

/// What a `serde_json::Value` says.
pub uninterp spec fn value_doc(value: serde_json::Value) -> Doc;

/// One level of a `serde_json::Value`: the variant, with the values inside
/// it still closed.
pub enum Shape {
    Null,
    Bool(bool),
    Number(serde_json::Number),
    Text(String),
    Array(Vec<serde_json::Value>),
    Object(Vec<(String, serde_json::Value)>),
}

/// What the values of an array say.
pub open spec fn value_docs(items: Seq<serde_json::Value>) -> Seq<Doc> {
    items.map_values(|v: serde_json::Value| value_doc(v))
}

/// The fields of an object, by key.
pub open spec fn value_fields(entries: Seq<(String, serde_json::Value)>) -> Map<Seq<char>, Doc>
    decreases entries.len(),
{
    if entries.len() == 0 {
        Map::empty()
    } else {
        value_fields(entries.drop_first()).insert(entries[0].0@, value_doc(entries[0].1))
    }
}

/// No two fields have the same key.
pub open spec fn distinct_keys(entries: Seq<(String, serde_json::Value)>) -> bool {
    forall|i: int, j: int|
        0 <= i < j < entries.len() ==> (#[trigger] entries[i]).0@ != (#[trigger] entries[j]).0@
}

/// What a value of that shape says.
pub open spec fn shape_doc(shape: Shape) -> Doc {
    match shape {
        Shape::Null => Doc::Null,
        Shape::Bool(b) => Doc::Bool(b),
        Shape::Number(n) => Doc::Number(n),
        Shape::Text(s) => Doc::Text(s@),
        Shape::Array(items) => Doc::Array(value_docs(items@)),
        Shape::Object(entries) => Doc::Object(value_fields(entries@)),
    }
}

/// Tells the variants of a `serde_json::Value` apart. Its object is a map,
/// so no key comes out twice.
#[verifier::external_body]
fn open_value(value: serde_json::Value) -> (r: Shape)
    ensures
        shape_doc(r) == value_doc(value),
        r matches Shape::Object(entries) ==> distinct_keys(entries@),
{
    match value {
        serde_json::Value::Null => Shape::Null,
        serde_json::Value::Bool(b) => Shape::Bool(b),
        serde_json::Value::Number(n) => Shape::Number(n),
        serde_json::Value::String(s) => Shape::Text(s),
        serde_json::Value::Array(items) => Shape::Array(items),
        serde_json::Value::Object(map) => Shape::Object(map.into_iter().collect()),
    }
}

/// Makes a `serde_json::Value` of one of its variants.
#[verifier::external_body]
fn close_value(shape: Shape) -> (r: serde_json::Value)
    requires
        shape matches Shape::Object(entries) ==> distinct_keys(entries@),
    ensures
        value_doc(r) == shape_doc(shape),
{
    match shape {
        Shape::Null => serde_json::Value::Null,
        Shape::Bool(b) => serde_json::Value::Bool(b),
        Shape::Number(n) => serde_json::Value::Number(n),
        Shape::Text(s) => serde_json::Value::String(s),
        Shape::Array(items) => serde_json::Value::Array(items),
        Shape::Object(entries) => serde_json::Value::Object(entries.into_iter().collect()),
    }
}

/// The document a `serde_json::Value` holds.
pub fn from_value(value: serde_json::Value) -> (r: Json)
    ensures
        r@ == value_doc(value),
    decreases value_doc(value),
{
    let ghost doc = value_doc(value);
    match open_value(value) {
        Shape::Null => Json::Null,
        Shape::Bool(b) => Json::Bool(b),
        Shape::Number(n) => Json::Number(n),
        Shape::Text(s) => Json::Text(s),
        Shape::Array(items) => {
            let mut out: Vec<Json> = Vec::new();
            for item in it: items
                invariant
                    it.seq() == items@,
                    doc == Doc::Array(value_docs(items@)),
                    doc == value_doc(value),
                    docs(out@) == value_docs(items@).take(it.index() as int),
            {
                let ghost so_far = out@;
                let ghost i = it.index() as int;
                proof {
                    assert(value_docs(items@)[i] == value_doc(item));
                    assert(decreases_to!(doc => doc->Array_0));
                }
                let json = from_value(item);
                out.push(json);
                assert(docs(out@) == docs(so_far).push(value_docs(items@)[i]));
                assert(value_docs(items@).take(i + 1) == value_docs(items@).take(i).push(
                    value_docs(items@)[i],
                ));
            }
            proof {
                lemma_array_view(out);
                assert(value_docs(items@).take(items@.len() as int) == value_docs(items@));
            }
            Json::Array(out)
        },
        Shape::Object(entries) => {
            let mut out: Vec<(String, Json)> = Vec::new();
            for entry in it: entries
                invariant
                    it.seq() == entries@,
                    doc == Doc::Object(value_fields(entries@)),
                    doc == value_doc(value),
                    distinct_keys(entries@),
                    out@.len() == it.index(),
                    forall|k: int|
                        0 <= k < out@.len() ==> (#[trigger] out@[k]).0@ == entries@[k].0@
                            && out@[k].1@ == value_doc(entries@[k].1),
            {
                let ghost i = it.index() as int;
                proof {
                    lemma_value_field(entries@, i);
                    assert(decreases_to!(doc => doc->Object_0));
                    assert(decreases_to!(doc->Object_0 => doc->Object_0[entries@[i].0@]));
                }
                let (key, inner) = entry;
                let json = from_value(inner);
                out.push((key, json));
            }
            proof {
                lemma_fields_agree(out@, entries@);
            }
            Json::Object(out)
        },
    }
}

proof fn lemma_value_fields_finite(entries: Seq<(String, serde_json::Value)>)
    ensures
        value_fields(entries).dom().finite(),
    decreases entries.len(),
{
    if entries.len() > 0 {
        lemma_value_fields_finite(entries.drop_first());
    }
}

proof fn lemma_value_field(entries: Seq<(String, serde_json::Value)>, i: int)
    requires
        0 <= i < entries.len(),
        distinct_keys(entries),
    ensures
        value_fields(entries).contains_key(entries[i].0@),
        value_fields(entries)[entries[i].0@] == value_doc(entries[i].1),
        value_fields(entries).dom().finite(),
    decreases entries.len(),
{
    lemma_value_fields_finite(entries);
    let rest = entries.drop_first();
    assert(value_fields(entries) == value_fields(rest).insert(
        entries[0].0@,
        value_doc(entries[0].1),
    ));
    if i > 0 {
        assert(entries[0].0@ != entries[i].0@);
        assert forall|a: int, b: int| 0 <= a < b < rest.len() implies (#[trigger] rest[a]).0@ != (
        #[trigger] rest[b]).0@ by {
            assert(entries[a + 1].0@ != entries[b + 1].0@);
        }
        lemma_value_field(rest, i - 1);
    }
}

proof fn lemma_fields_agree(a: Seq<(String, Json)>, b: Seq<(String, serde_json::Value)>)
    requires
        a.len() == b.len(),
        forall|k: int|
            0 <= k < a.len() ==> (#[trigger] a[k]).0@ == b[k].0@ && a[k].1@ == value_doc(b[k].1),
    ensures
        fields(a) == value_fields(b),
    decreases a.len(),
{
    if a.len() > 0 {
        let x = a.drop_first();
        let y = b.drop_first();
        assert forall|k: int| 0 <= k < x.len() implies (#[trigger] x[k]).0@ == y[k].0@ && x[k].1@
            == value_doc(y[k].1) by {
            assert(a[k + 1].0@ == b[k + 1].0@);
        }
        lemma_fields_agree(x, y);
        assert(a[0].0@ == b[0].0@);
    }
}

/// Whether a key stands among the first `n` fields.
spec fn listed(entries: Seq<(String, Json)>, key: Seq<char>, n: int) -> bool {
    exists|k: int| 0 <= k < n && (#[trigger] entries[k]).0@ == key
}

/// Whether a key stands among the fields.
spec fn has_key(entries: Seq<(String, serde_json::Value)>, key: Seq<char>) -> bool {
    exists|j: int| 0 <= j < entries.len() && (#[trigger] entries[j]).0@ == key
}

proof fn lemma_value_field_has_a_place(
    entries: Seq<(String, serde_json::Value)>,
    key: Seq<char>,
) -> (i: int)
    requires
        value_fields(entries).contains_key(key),
    ensures
        0 <= i < entries.len(),
        entries[i].0@ == key,
    decreases entries.len(),
{
    if entries.len() == 0 {
        assert(false);
    }
    let rest = entries.drop_first();
    assert(value_fields(entries) == value_fields(rest).insert(
        entries[0].0@,
        value_doc(entries[0].1),
    ));
    if entries[0].0@ == key {
        0
    } else {
        let i = lemma_value_field_has_a_place(rest, key);
        i + 1
    }
}

/// The `serde_json::Value` of a document.
pub fn to_value(doc: &Json) -> (r: serde_json::Value)
    ensures
        value_doc(r) == doc@,
    decreases doc,
{
    match doc {
        Json::Null => close_value(Shape::Null),
        Json::Bool(b) => close_value(Shape::Bool(*b)),
        Json::Number(n) => close_value(Shape::Number(n.clone())),
        Json::Text(s) => close_value(Shape::Text(s.clone())),
        Json::Array(items) => {
            let mut out: Vec<serde_json::Value> = Vec::new();
            for i in 0..items.len()
                invariant
                    doc matches Json::Array(all) && all == *items,
                    value_docs(out@) == docs(items@).take(i as int),
            {
                let ghost so_far = out@;
                let value = to_value(&items[i]);
                out.push(value);
                assert(value_docs(out@) == value_docs(so_far).push(docs(items@)[i as int]));
                assert(docs(items@).take(i + 1) == docs(items@).take(i as int).push(
                    docs(items@)[i as int],
                ));
            }
            proof {
                lemma_array_view(*items);
                assert(docs(items@).take(items@.len() as int) == docs(items@));
            }
            close_value(Shape::Array(out))
        },
        Json::Object(entries) => {
            let mut out: Vec<(String, serde_json::Value)> = Vec::new();
            for i in 0..entries.len()
                invariant
                    doc matches Json::Object(all) && all == *entries,
                    distinct_keys(out@),
                    forall|j: int|
                        0 <= j < out@.len() ==> {
                            &&& fields(entries@).contains_key((#[trigger] out@[j]).0@)
                            &&& value_doc(out@[j].1) == fields(entries@)[out@[j].0@]
                            &&& listed(entries@, out@[j].0@, i as int)
                        },
                    forall|n: int| 0 <= n < i ==> has_key(out@, (#[trigger] entries@[n]).0@),
            {
                let key = entries[i].0.as_str();
                let ghost so_far = out@;
                if position(entries, key) == Some(i) {
                    let value = to_value(&entries[i].1);
                    out.push((entries[i].0.clone(), value));
                    assert(!listed(entries@, key@, i as int));
                }
                proof {
                    assert forall|j: int| 0 <= j < out@.len() implies listed(
                        entries@,
                        (#[trigger] out@[j]).0@,
                        i + 1,
                    ) by {
                        if j < so_far.len() {
                            assert(out@[j] == so_far[j]);
                            let k = choose|k: int|
                                0 <= k < i && (#[trigger] entries@[k]).0@ == so_far[j].0@;
                            assert(entries@[k].0@ == out@[j].0@);
                        } else {
                            assert(entries@[i as int].0@ == out@[j].0@);
                        }
                    }
                    assert forall|n: int| 0 <= n < i + 1 implies has_key(
                        out@,
                        (#[trigger] entries@[n]).0@,
                    ) by {
                        let k = entries@[n].0@;
                        if so_far.len() < out@.len() && n == i {
                            assert(out@[so_far.len() as int].0@ == k);
                        } else {
                            if n == i {
                                assert(exists|p: int| 0 <= p < i && (#[trigger] entries@[p]).0@ == k);
                            }
                            assert(has_key(so_far, k));
                            let j = choose|j: int|
                                0 <= j < so_far.len() && (#[trigger] so_far[j]).0@ == k;
                            assert(out@[j] == so_far[j]);
                        }
                    }
                }
            }
            proof {
                assert forall|k: Seq<char>|
                    #![trigger value_fields(out@).dom().contains(k)]
                    #![trigger fields(entries@).dom().contains(k)]
                    value_fields(out@).dom().contains(k) <==> fields(entries@).dom().contains(
                        k,
                    ) by {
                    if fields(entries@).contains_key(k) {
                        let i = lemma_field_has_a_place(entries@, k);
                        assert(entries@[i].0@ == k);
                        assert(has_key(out@, k));
                        let j = choose|j: int| 0 <= j < out@.len() && (#[trigger] out@[j]).0@ == k;
                        lemma_value_field(out@, j);
                    }
                    if value_fields(out@).contains_key(k) {
                        let j = lemma_value_field_has_a_place(out@, k);
                        assert(out@[j].0@ == k);
                    }
                }
                assert forall|k: Seq<char>| #[trigger]
                    fields(entries@).dom().contains(k) implies value_fields(out@)[k] == fields(
                    entries@,
                )[k] by {
                    let j = lemma_value_field_has_a_place(out@, k);
                    lemma_value_field(out@, j);
                }
                assert(value_fields(out@) =~= fields(entries@));
            }
            close_value(Shape::Object(out))
        },
    }
}

// ---------------------------------------------------------------------------
// JSON text
// ---------------------------------------------------------------------------

/// What `serde_json` reads from a text: a document, or nothing if the text
/// is not JSON.
pub uninterp spec fn parsed_json(text: Seq<char>) -> Option<Doc>;

/// The indented text `serde_json` writes for a document.
pub uninterp spec fn pretty_text(doc: Doc) -> Seq<char>;

/// The text without white space `serde_json` writes for a document.
pub uninterp spec fn compact_text(doc: Doc) -> Seq<char>;

/// How many arrays and objects may stand inside each other in a text
/// `serde_json` reads.
pub open spec fn max_depth() -> nat {
    127
}

/// A number that is a count.
pub open spec fn is_count(n: serde_json::Number) -> bool {
    exists|count: u64| n == #[trigger] number_of(count)
}

/// A whole number: a count, or one that is written in digits alone, behind
/// a sign if it has one.
pub open spec fn is_whole(n: serde_json::Number) -> bool {
    let text = compact_text(Doc::Number(n));
    is_count(n) || forall|i: int|
        0 <= i < text.len() ==> (#[trigger] text[i] == '-' || '0' <= text[i] <= '9')
}

/// A document in which at most `depth` arrays and objects stand inside each
/// other.
pub open spec fn fits(doc: Doc, depth: nat) -> bool
    decreases depth,
{
    match doc {
        Doc::Null => true,
        Doc::Bool(_) => true,
        Doc::Text(_) => true,
        Doc::Number(_) => true,
        Doc::Array(items) => depth > 0 && forall|i: int|
            0 <= i < items.len() ==> fits(#[trigger] items[i], (depth - 1) as nat),
        Doc::Object(m) => depth > 0 && m.dom().finite() && forall|k: Seq<char>| #[trigger]
            m.contains_key(k) ==> fits(m[k], (depth - 1) as nat),
    }
}

/// A document that comes back from its own text as it is: it fits, and its
/// numbers are whole.
pub open spec fn readable(doc: Doc, depth: nat) -> bool
    decreases depth,
{
    match doc {
        Doc::Null => true,
        Doc::Bool(_) => true,
        Doc::Text(_) => true,
        Doc::Number(n) => is_whole(n),
        Doc::Array(items) => depth > 0 && forall|i: int|
            0 <= i < items.len() ==> readable(#[trigger] items[i], (depth - 1) as nat),
        Doc::Object(m) => depth > 0 && m.dom().finite() && forall|k: Seq<char>| #[trigger]
            m.contains_key(k) ==> readable(m[k], (depth - 1) as nat),
    }
}

/// What comes back as it is fits.
pub proof fn lemma_readable_fits(doc: Doc, depth: nat)
    requires
        readable(doc, depth),
    ensures
        fits(doc, depth),
    decreases depth,
{
    match doc {
        Doc::Array(items) => {
            assert forall|i: int| 0 <= i < items.len() implies fits(
                #[trigger] items[i],
                (depth - 1) as nat,
            ) by {
                lemma_readable_fits(items[i], (depth - 1) as nat);
            }
        },
        Doc::Object(m) => {
            assert forall|k: Seq<char>| #[trigger] m.contains_key(k) implies fits(
                m[k],
                (depth - 1) as nat,
            ) by {
                lemma_readable_fits(m[k], (depth - 1) as nat);
            }
        },
        _ => {},
    }
}

/// Whether a number is read back as another from the text `serde_json`
/// writes for it. A whole number is read back as itself.
pub open spec fn number_reread(n: serde_json::Number, other: serde_json::Number) -> bool {
    &&& parsed_json(compact_text(Doc::Number(n))) == Some(Doc::Number(other))
    &&& is_whole(n) ==> n == other
}

/// Whether a document is read back as another: the same, but for numbers,
/// each of which is what is read back of it.
pub open spec fn reread(doc: Doc, other: Doc) -> bool
    decreases doc,
{
    match (doc, other) {
        (Doc::Null, Doc::Null) => true,
        (Doc::Bool(x), Doc::Bool(y)) => x == y,
        (Doc::Number(x), Doc::Number(y)) => number_reread(x, y),
        (Doc::Text(x), Doc::Text(y)) => x == y,
        (Doc::Array(x), Doc::Array(y)) => {
            &&& x.len() == y.len()
            &&& forall|i: int| 0 <= i < x.len() ==> reread(#[trigger] x[i], y[i])
        },
        (Doc::Object(x), Doc::Object(y)) => {
            &&& x.dom() == y.dom()
            &&& forall|k: Seq<char>| #[trigger] x.contains_key(k) ==> reread(x[k], y[k])
        },
        _ => false,
    }
}

/// A document all of whose numbers are whole is read back as itself.
pub proof fn lemma_reread_exact(doc: Doc, other: Doc, depth: nat)
    requires
        reread(doc, other),
        readable(doc, depth),
    ensures
        doc == other,
    decreases depth,
{
    match (doc, other) {
        (Doc::Array(x), Doc::Array(y)) => {
            assert forall|i: int| 0 <= i < x.len() implies x[i] == y[i] by {
                lemma_reread_exact(x[i], y[i], (depth - 1) as nat);
            }
            assert(x =~= y);
        },
        (Doc::Object(x), Doc::Object(y)) => {
            assert forall|k: Seq<char>| #[trigger] x.contains_key(k) implies x[k] == y[k] by {
                lemma_reread_exact(x[k], y[k], (depth - 1) as nat);
            }
            assert(x =~= y);
        },
        _ => {},
    }
}

/// A document is read back as one document only.
pub proof fn lemma_reread_unique(doc: Doc, a: Doc, b: Doc)
    requires
        reread(doc, a),
        reread(doc, b),
    ensures
        a == b,
    decreases doc,
{
    match (doc, a, b) {
        (Doc::Array(x), Doc::Array(y), Doc::Array(z)) => {
            assert forall|i: int| 0 <= i < x.len() implies y[i] == z[i] by {
                assert(reread(x[i], y[i]) && reread(x[i], z[i]));
                lemma_reread_unique(x[i], y[i], z[i]);
            }
            assert(y =~= z);
        },
        (Doc::Object(x), Doc::Object(y), Doc::Object(z)) => {
            assert forall|k: Seq<char>| #[trigger] x.contains_key(k) implies y[k] == z[k] by {
                assert(reread(x[k], y[k]) && reread(x[k], z[k]));
                lemma_reread_unique(x[k], y[k], z[k]);
            }
            assert(y =~= z);
        },
        _ => {},
    }
}

/// A field is read back where there was one, and a string as itself.
pub proof fn lemma_reread_field(doc: Doc, other: Doc, key: Seq<char>)
    requires
        reread(doc, other),
    ensures
        match (doc.get(key), other.get(key)) {
            (Some(a), Some(b)) => reread(a, b) && (a is Text || b is Text ==> a == b),
            (None, None) => true,
            _ => false,
        },
{
    if let Doc::Object(x) = doc {
        let y = other->Object_0;
        assert(x.contains_key(key) == y.dom().contains(key));
        if x.contains_key(key) {
            assert(reread(x[key], y[key]));
        }
    }
}

/// A text without white space or a byte order mark at its ends, in which a
/// `/` stands in strings only.
pub open spec fn bare_json(text: Seq<char>) -> bool {
    &&& text.len() > 0
    &&& text[0] != '\u{feff}'
    &&& trimmed(text) == text
    &&& forall|i: int|
        0 <= i < text.len() && text[i] == '/' ==> (#[trigger] mode_at(text, i) == Mode::Text
            || mode_at(text, i) == Mode::Escape)
}

// ---------------------------------------------------------------------------
// Layout
// ---------------------------------------------------------------------------

/// A digit of a hexadecimal number.
pub open spec fn hex_digit(n: int) -> char {
    if n < 10 {
        ('0' as int + n) as char
    } else {
        ('a' as int + n - 10) as char
    }
}

/// A character in a JSON string: quotes, backslashes and control characters
/// are escaped, the latter by a letter where they have one.
pub open spec fn escape(c: char) -> Seq<char> {
    if c == '"' || c == '\\' {
        seq!['\\', c]
    } else if c == '\u{8}' {
        seq!['\\', 'b']
    } else if c == '\t' {
        seq!['\\', 't']
    } else if c == '\n' {
        seq!['\\', 'n']
    } else if c == '\u{c}' {
        seq!['\\', 'f']
    } else if c == '\r' {
        seq!['\\', 'r']
    } else if 31 >= c as int {
        seq!['\\', 'u', '0', '0', hex_digit(c as int / 16), hex_digit(c as int % 16)]
    } else {
        seq![c]
    }
}

/// Characters in a JSON string.
pub open spec fn escapes(s: Seq<char>) -> Seq<char>
    decreases s.len(),
{
    if s.len() == 0 {
        Seq::empty()
    } else {
        escapes(s.drop_last()) + escape(s.last())
    }
}

/// A string as JSON.
pub open spec fn json_string(s: Seq<char>) -> Seq<char> {
    (seq!['"'] + escapes(s)).push('"')
}

/// A field of an object as text: its key as a JSON string, and its value.
pub open spec fn member_text(member: (Seq<char>, Seq<char>)) -> Seq<char> {
    json_string(member.0).push(':') + member.1
}

/// Fields of an object as text, with a comma between any two.
pub open spec fn members_text(members: Seq<(Seq<char>, Seq<char>)>) -> Seq<char>
    decreases members.len(),
{
    if members.len() == 0 {
        Seq::empty()
    } else if members.len() == 1 {
        member_text(members[0])
    } else {
        members_text(members.drop_last()).push(',') + member_text(members.last())
    }
}

/// An object as text, its fields in the order given. The values are texts
/// already.
pub open spec fn object_text(members: Seq<(Seq<char>, Seq<char>)>) -> Seq<char> {
    (seq!['{'] + members_text(members)).push('}')
}

/// A document as text without white space. Numbers, and objects of more
/// fields than one, are as `serde_json` writes them.
pub open spec fn written(doc: Doc) -> Seq<char>
    decreases doc,
{
    match doc {
        Doc::Null => "null"@,
        Doc::Bool(true) => "true"@,
        Doc::Bool(false) => "false"@,
        Doc::Number(_) => compact_text(doc),
        Doc::Text(s) => json_string(s),
        Doc::Array(items) => (seq!['['] + written_items(items)).push(']'),
        Doc::Object(m) => if m.dom() == Set::<Seq<char>>::empty() {
            object_text(Seq::empty())
        } else {
            let key = m.dom().choose();
            if m.contains_key(key) && m.dom() == Set::<Seq<char>>::empty().insert(key) {
                object_text(seq![(key, written(m[key]))])
            } else {
                compact_text(doc)
            }
        },
    }
}

/// Items of an array as text, with a comma between any two.
pub open spec fn written_items(items: Seq<Doc>) -> Seq<char>
    decreases items,
{
    if items.len() == 0 {
        Seq::empty()
    } else if items.len() == 1 {
        written(items[0])
    } else {
        written_items(items.drop_last()).push(',') + written(items[items.len() - 1])
    }
}

/// A document written field by field: a part `serde_json` writes, or an
/// object whose fields have an order.
pub enum Tree {
    Leaf(Doc),
    Node(Seq<(Seq<char>, Tree)>),
}

/// The text of a document written field by field.
pub open spec fn tree_text(tree: Tree) -> Seq<char>
    decreases tree,
{
    match tree {
        Tree::Leaf(doc) => written(doc),
        Tree::Node(members) => object_text(tree_texts(members)),
    }
}

/// The texts of fields.
pub open spec fn tree_texts(members: Seq<(Seq<char>, Tree)>) -> Seq<(Seq<char>, Seq<char>)>
    decreases members,
{
    if members.len() == 0 {
        Seq::empty()
    } else {
        let last = members[members.len() - 1];
        tree_texts(members.drop_last()).push((last.0, tree_text(last.1)))
    }
}

/// What a document written field by field says.
pub open spec fn tree_doc(tree: Tree) -> Doc
    decreases tree,
{
    match tree {
        Tree::Leaf(doc) => doc,
        Tree::Node(members) => Doc::Object(tree_fields(members)),
    }
}

/// What fields say, the last of a key counting.
pub open spec fn tree_fields(members: Seq<(Seq<char>, Tree)>) -> Map<Seq<char>, Doc>
    decreases members,
{
    if members.len() == 0 {
        Map::empty()
    } else {
        let last = members[members.len() - 1];
        tree_fields(members.drop_last()).insert(last.0, tree_doc(last.1))
    }
}

/// A tree in which at most `depth` arrays and objects stand inside each
/// other.
pub open spec fn tree_fits(tree: Tree, depth: nat) -> bool
    decreases depth,
{
    match tree {
        Tree::Leaf(doc) => fits(doc, depth),
        Tree::Node(members) => depth > 0 && forall|i: int|
            0 <= i < members.len() ==> tree_fits((#[trigger] members[i]).1, (depth - 1) as nat),
    }
}

/// What is read from the text of a document written field by field: what is
/// read back of that document, or nothing where it does not fit.
pub open spec fn reads_trees(text: Seq<char>, read: Option<Doc>) -> bool {
    forall|tree: Tree|
        text == #[trigger] tree_text(tree) ==> {
            &&& read is Some <==> tree_fits(tree, max_depth())
            &&& read matches Some(doc) ==> reread(tree_doc(tree), doc)
        }
}

/// One more field is written behind the others, and set last.
pub proof fn lemma_tree_field(members: Seq<(Seq<char>, Tree)>, key: Seq<char>, tree: Tree)
    ensures
        tree_texts(members.push((key, tree))) == tree_texts(members).push((key, tree_text(tree))),
        tree_fields(members.push((key, tree))) == tree_fields(members).insert(key, tree_doc(tree)),
{
    assert(members.push((key, tree)).drop_last() =~= members);
}

// ---------------------------------------------------------------------------
// Reading and writing
// ---------------------------------------------------------------------------

/// What an optional `serde_json::Value` says.
pub open spec fn value_of(value: Option<serde_json::Value>) -> Option<Doc> {
    match value {
        Some(value) => Some(value_doc(value)),
        None => None,
    }
}

/// What an optional document says.
pub open spec fn doc_of(doc: Option<Json>) -> Option<Doc> {
    match doc {
        Some(doc) => Some(doc@),
        None => None,
    }
}

/// Whether a text is read back as a document is: nothing where the document
/// does not fit.
pub open spec fn comes_back(text: Seq<char>, doc: Doc) -> bool {
    &&& parsed_json(text) is Some <==> fits(doc, max_depth())
    &&& parsed_json(text) matches Some(read) ==> reread(doc, read)
}

/// `serde_json::from_str` into a `serde_json::Value` depends on the text
/// alone. An object is read of the fields in it, each as it would be on its
/// own, and the last of a key counts: so a text that is an object of texts
/// `serde_json` writes is read as the object of what is read of them. One
/// that nests too deeply is refused, and nothing else is: the largest float
/// is read as a finite one. An integer is read as itself, and a float may
/// come back changed in its last bit, the same wherever it stands.
#[verifier::external_body]
fn parse_value(text: &str) -> (r: Option<serde_json::Value>)
    ensures
        value_of(r) == parsed_json(text@),
        reads_trees(text@, value_of(r)),
{
    serde_json::from_str(text).ok()
}

/// `serde_json::to_string_pretty` on a `serde_json::Value` depends on what
/// the value says alone, and does not fail. What it writes is bare JSON,
/// and is read back unless it nests too deeply: the same, but for floats,
/// which may come back changed in their last bit. How the text is laid out
/// is left unsaid.
#[verifier::external_body]
fn pretty_value(value: &serde_json::Value) -> (r: String)
    ensures
        r@ == pretty_text(value_doc(*value)),
        bare_json(r@),
        comes_back(r@, value_doc(*value)),
{
    serde_json::to_string_pretty(value).expect("a JSON value serializes")
}

/// `serde_json::Value`'s own text depends on what the value says alone, and
/// is read back as the indented text is. It is laid out without white
/// space. How a number is written, and in which order the fields of an
/// object are, is left unsaid.
#[verifier::external_body]
fn compact_value(value: &serde_json::Value) -> (r: String)
    ensures
        r@ == compact_text(value_doc(*value)),
        r@ == written(value_doc(*value)),
        comes_back(r@, value_doc(*value)),
{
    value.to_string()
}

/// The document of a JSON text, none if it is not JSON.
pub fn parse_json(text: &str) -> (r: Option<Json>)
    ensures
        doc_of(r) == parsed_json(text@),
        reads_trees(text@, doc_of(r)),
{
    match parse_value(text) {
        Some(value) => Some(from_value(value)),
        None => None,
    }
}

/// A document as indented text.
pub fn pretty_json(doc: &Json) -> (r: String)
    ensures
        r@ == pretty_text(doc@),
        bare_json(r@),
        comes_back(r@, doc@),
{
    pretty_value(&to_value(doc))
}

/// A document as text without white space.
pub fn compact_json(doc: &Json) -> (r: String)
    ensures
        r@ == written(doc@),
        comes_back(r@, doc@),
{
    compact_value(&to_value(doc))
}

} // verus!
