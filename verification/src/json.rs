//! JSON documents: the tree the settings files are merged in, what it
//! means, and how it comes from and goes to text through `serde_json`.

use crate::text::same;
use vstd::prelude::*;
use vstd::string::*;

verus! {

// ---------------------------------------------------------------------------
// Documents
// ---------------------------------------------------------------------------

/// A JSON document. An object is a list of fields in which the first one
/// with a key counts. Numbers are carried as `serde_json` holds them.
#[derive(Debug)]
pub enum Json {
    Null,
    Bool(bool),
    Number(serde_json::Number),
    Text(String),
    Array(Vec<Json>),
    Object(Vec<(String, Json)>),
}

/// What a JSON document says, field order and repetition apart.
pub enum Doc {
    Null,
    Bool(bool),
    Number(serde_json::Number),
    Text(Seq<char>),
    Array(Seq<Doc>),
    Object(Map<Seq<char>, Doc>),
}

impl View for Json {
    type V = Doc;

    open spec fn view(&self) -> Doc
        decreases self,
    {
        match self {
            Json::Null => Doc::Null,
            Json::Bool(b) => Doc::Bool(*b),
            Json::Number(n) => Doc::Number(*n),
            Json::Text(s) => Doc::Text(s@),
            Json::Array(items) => Doc::Array(
                Seq::new(
                    items@.len(),
                    |i: int|
                        if 0 <= i < items@.len() {
                            items@[i].view()
                        } else {
                            Doc::Null
                        },
                ),
            ),
            Json::Object(entries) => Doc::Object(fields(entries@)),
        }
    }
}

/// The fields of an object, by key.
pub open spec fn fields(entries: Seq<(String, Json)>) -> Map<Seq<char>, Doc>
    decreases entries,
{
    if entries.len() == 0 {
        Map::empty()
    } else {
        fields(entries.drop_first()).insert(entries[0].0@, entries[0].1.view())
    }
}

/// What the items of an array say.
pub open spec fn docs(items: Seq<Json>) -> Seq<Doc> {
    items.map_values(|j: Json| j@)
}

pub proof fn lemma_array_view(items: Vec<Json>)
    ensures
        Json::Array(items)@ == Doc::Array(docs(items@)),
{
    assert(Json::Array(items)@->Array_0 =~= docs(items@));
}

impl Doc {
    /// The field of that name, if this is an object that has it.
    pub open spec fn get(self, key: Seq<char>) -> Option<Doc> {
        match self {
            Doc::Object(m) => if m.contains_key(key) {
                Some(m[key])
            } else {
                None
            },
            _ => None,
        }
    }

    /// The fields of this document, none if it is not an object.
    pub open spec fn members(self) -> Map<Seq<char>, Doc> {
        match self {
            Doc::Object(m) => m,
            _ => Map::empty(),
        }
    }
}

/// The fields under a field: none if it is absent or not an object.
pub open spec fn members_under(m: Map<Seq<char>, Doc>, key: Seq<char>) -> Map<Seq<char>, Doc> {
    if m.contains_key(key) {
        m[key].members()
    } else {
        Map::empty()
    }
}

impl Clone for Json {
    fn clone(&self) -> (r: Json)
        ensures
            r@ == self@,
        decreases self,
    {
        match self {
            Json::Null => Json::Null,
            Json::Bool(b) => Json::Bool(*b),
            Json::Number(n) => Json::Number(n.clone()),
            Json::Text(s) => Json::Text(s.clone()),
            Json::Array(items) => {
                let mut out: Vec<Json> = Vec::new();
                for i in 0..items.len()
                    invariant
                        self matches Json::Array(all) && all == *items,
                        docs(out@) == docs(items@.take(i as int)),
                {
                    let ghost so_far = out@;
                    let item = items[i].clone();
                    out.push(item);
                    assert(docs(out@) == docs(so_far).push(items@[i as int]@));
                    assert(docs(items@.take(i + 1)) == docs(items@.take(i as int)).push(
                        items@[i as int]@,
                    ));
                }
                proof {
                    assert(items@.take(items@.len() as int) == items@);
                    lemma_array_view(out);
                    lemma_array_view(*items);
                }
                Json::Array(out)
            },
            Json::Object(entries) => {
                let mut out: Vec<(String, Json)> = Vec::new();
                for i in 0..entries.len()
                    invariant
                        self matches Json::Object(all) && all == *entries,
                        out@.len() == i,
                        forall|k: int|
                            0 <= k < i ==> (#[trigger] out@[k]).0@ == entries@[k].0@ && out@[k].1@
                                == entries@[k].1@,
                {
                    let value = entries[i].1.clone();
                    out.push((entries[i].0.clone(), value));
                }
                proof {
                    lemma_same_fields(out@, entries@);
                }
                Json::Object(out)
            },
        }
    }
}

/// The first field of a list, put over what the others say.
proof fn lemma_fields_step(entries: Seq<(String, Json)>)
    requires
        entries.len() > 0,
    ensures
        fields(entries) == fields(entries.drop_first()).insert(entries[0].0@, entries[0].1@),
{
}

proof fn lemma_same_fields(a: Seq<(String, Json)>, b: Seq<(String, Json)>)
    requires
        a.len() == b.len(),
        forall|k: int| 0 <= k < a.len() ==> (#[trigger] a[k]).0@ == b[k].0@ && a[k].1@ == b[k].1@,
    ensures
        fields(a) == fields(b),
    decreases a.len(),
{
    if a.len() > 0 {
        assert forall|k: int| 0 <= k < a.drop_first().len() implies (
        #[trigger] a.drop_first()[k]).0@ == b.drop_first()[k].0@ && a.drop_first()[k].1@
            == b.drop_first()[k].1@ by {
            assert(a[k + 1].0@ == b[k + 1].0@);
        }
        lemma_same_fields(a.drop_first(), b.drop_first());
    }
}

// ---------------------------------------------------------------------------
// Reading a document
// ---------------------------------------------------------------------------

/// Where the first field with a key stands.
pub(crate) fn position(entries: &Vec<(String, Json)>, key: &str) -> (r: Option<usize>)
    ensures
        match r {
            Some(i) => {
                &&& i < entries@.len()
                &&& entries@[i as int].0@ == key@
                &&& forall|k: int| 0 <= k < i ==> (#[trigger] entries@[k]).0@ != key@
                &&& fields(entries@).contains_key(key@)
                &&& fields(entries@)[key@] == entries@[i as int].1@
            },
            None => {
                &&& forall|k: int|
                    0 <= k < entries@.len() ==> (#[trigger] entries@[k]).0@ != key@
                &&& !fields(entries@).contains_key(key@)
            },
        },
{
    for i in 0..entries.len()
        invariant
            forall|k: int| 0 <= k < i ==> (#[trigger] entries@[k]).0@ != key@,
    {
        if same(entries[i].0.as_str(), key) {
            proof {
                lemma_first_field(entries@, key@, i as int);
            }
            return Some(i);
        }
    }
    proof {
        lemma_no_field(entries@, key@);
    }
    None
}

proof fn lemma_first_field(entries: Seq<(String, Json)>, key: Seq<char>, i: int)
    requires
        0 <= i < entries.len(),
        entries[i].0@ == key,
        forall|k: int| 0 <= k < i ==> (#[trigger] entries[k]).0@ != key,
    ensures
        fields(entries).contains_key(key),
        fields(entries)[key] == entries[i].1@,
    decreases i,
{
    lemma_fields_step(entries);
    if i > 0 {
        let rest = entries.drop_first();
        assert forall|k: int| 0 <= k < i - 1 implies (#[trigger] rest[k]).0@ != key by {
            assert(entries[k + 1].0@ != key);
        }
        lemma_first_field(rest, key, i - 1);
        assert(entries[0].0@ != key);
    }
}

proof fn lemma_no_field(entries: Seq<(String, Json)>, key: Seq<char>)
    requires
        forall|k: int| 0 <= k < entries.len() ==> (#[trigger] entries[k]).0@ != key,
    ensures
        !fields(entries).contains_key(key),
    decreases entries.len(),
{
    if entries.len() > 0 {
        lemma_fields_step(entries);
        let rest = entries.drop_first();
        assert forall|k: int| 0 <= k < rest.len() implies (#[trigger] rest[k]).0@ != key by {
            assert(entries[k + 1].0@ != key);
        }
        lemma_no_field(rest, key);
        assert(entries[0].0@ != key);
    }
}

/// Every field's key stands somewhere in the list.
pub proof fn lemma_field_has_a_place(entries: Seq<(String, Json)>, key: Seq<char>) -> (i: int)
    requires
        fields(entries).contains_key(key),
    ensures
        0 <= i < entries.len(),
        entries[i].0@ == key,
    decreases entries.len(),
{
    if entries.len() == 0 {
        assert(false);
    }
    lemma_fields_step(entries);
    if entries[0].0@ == key {
        0
    } else {
        let i = lemma_field_has_a_place(entries.drop_first(), key);
        i + 1
    }
}

/// The field of that name in a list of fields.
pub fn field<'a>(entries: &'a Vec<(String, Json)>, key: &str) -> (r: Option<&'a Json>)
    ensures
        match r {
            Some(j) => fields(entries@).contains_key(key@) && fields(entries@)[key@] == j@,
            None => !fields(entries@).contains_key(key@),
        },
{
    match position(entries, key) {
        Some(i) => Some(&entries[i].1),
        None => None,
    }
}

impl Json {
    /// The field of that name, if this is an object that has it.
    pub fn get(&self, key: &str) -> (r: Option<&Json>)
        ensures
            match r {
                Some(j) => self@.get(key@) == Some(j@),
                None => self@.get(key@) is None,
            },
    {
        match self {
            Json::Object(entries) => field(entries, key),
            _ => None,
        }
    }

    /// The items, if this is an array.
    pub fn as_array(&self) -> (r: Option<&Vec<Json>>)
        ensures
            match r {
                Some(items) => self@ == Doc::Array(docs(items@)),
                None => !(self@ is Array),
            },
    {
        match self {
            Json::Array(items) => {
                proof {
                    lemma_array_view(*items);
                }
                Some(items)
            },
            _ => None,
        }
    }

    /// The string, if this is one.
    pub fn as_str(&self) -> (r: Option<&str>)
        ensures
            match r {
                Some(s) => self@ == Doc::Text(s@),
                None => !(self@ is Text),
            },
    {
        match self {
            Json::Text(s) => Some(s.as_str()),
            _ => None,
        }
    }

    /// Whether this is an object.
    pub fn is_object(&self) -> (r: bool)
        ensures
            r == (self@ is Object),
    {
        match self {
            Json::Object(_) => true,
            _ => false,
        }
    }
}

// ---------------------------------------------------------------------------
// Making a document
// ---------------------------------------------------------------------------

/// A string value.
pub fn text_value(s: &str) -> (r: Json)
    ensures
        r@ == Doc::Text(s@),
{
    Json::Text(s.to_owned())
}

/// A list of string values.
pub open spec fn text_list(list: Seq<&'static str>) -> Doc {
    Doc::Array(list.map_values(|s: &'static str| Doc::Text(s@)))
}

/// An array of strings.
pub fn text_array(list: &[&'static str]) -> (r: Json)
    ensures
        r@ == text_list(list@),
{
    let mut out: Vec<Json> = Vec::new();
    for i in 0..list.len()
        invariant
            out@.len() == i,
            forall|k: int| 0 <= k < i ==> (#[trigger] out@[k])@ == Doc::Text(list@[k]@),
    {
        out.push(text_value(list[i]));
    }
    proof {
        lemma_array_view(out);
        assert(docs(out@) =~= list@.map_values(|s: &'static str| Doc::Text(s@)));
    }
    Json::Array(out)
}

/// What `serde_json::Number::from` makes of a count.
pub uninterp spec fn number_of(n: u64) -> serde_json::Number;

/// A number, as `serde_json` holds it.
#[verifier::external_type_specification]
#[verifier::external_body]
pub struct ExNumber(serde_json::Number);

/// Cloning a `serde_json::Number` copies it: it is an integer or a float,
/// kept in place.
pub assume_specification[ <serde_json::Number as Clone>::clone ](
    n: &serde_json::Number,
) -> (r: serde_json::Number)
    ensures
        r == *n,
;

/// `serde_json::Number::from` on a count depends on the count alone.
#[verifier::external_body]
fn number_from(n: u64) -> (r: serde_json::Number)
    ensures
        r == number_of(n),
{
    serde_json::Number::from(n)
}

/// A number value.
pub fn count_value(n: u64) -> (r: Json)
    ensures
        r@ == Doc::Number(number_of(n)),
{
    Json::Number(number_from(n))
}

/// Sets a field, in its place if the key is there and last if it is not.
pub fn put(entries: &mut Vec<(String, Json)>, key: &str, value: Json)
    ensures
        fields(final(entries)@) == fields(old(entries)@).insert(key@, value@),
{
    let ghost before = entries@;
    match position(entries, key) {
        Some(i) => {
            let entry: (String, Json) = (key.to_owned(), value);
            entries.set(i, entry);
            proof {
                assert(entries@ == before.update(i as int, entry));
                lemma_field_replaced(before, i as int, entry);
            }
        },
        None => {
            let entry: (String, Json) = (key.to_owned(), value);
            entries.push(entry);
            proof {
                lemma_field_added(before, entry);
            }
        },
    }
}

proof fn lemma_field_replaced(entries: Seq<(String, Json)>, i: int, entry: (String, Json))
    requires
        0 <= i < entries.len(),
        entries[i].0@ == entry.0@,
        forall|k: int| 0 <= k < i ==> (#[trigger] entries[k]).0@ != entry.0@,
    ensures
        fields(entries.update(i, entry)) == fields(entries).insert(entry.0@, entry.1@),
    decreases i,
{
    let after = entries.update(i, entry);
    lemma_fields_step(entries);
    lemma_fields_step(after);
    if i == 0 {
        assert(after.drop_first() == entries.drop_first());
        assert(fields(after) =~= fields(entries).insert(entry.0@, entry.1@));
    } else {
        let rest = entries.drop_first();
        assert forall|k: int| 0 <= k < i - 1 implies (#[trigger] rest[k]).0@ != entry.0@ by {
            assert(entries[k + 1].0@ != entry.0@);
        }
        lemma_field_replaced(rest, i - 1, entry);
        assert(after.drop_first() == rest.update(i - 1, entry));
        assert(entries[0].0@ != entry.0@);
        assert(fields(after) =~= fields(entries).insert(entry.0@, entry.1@));
    }
}

proof fn lemma_field_added(entries: Seq<(String, Json)>, entry: (String, Json))
    requires
        forall|k: int| 0 <= k < entries.len() ==> (#[trigger] entries[k]).0@ != entry.0@,
    ensures
        fields(entries.push(entry)) == fields(entries).insert(entry.0@, entry.1@),
    decreases entries.len(),
{
    let after = entries.push(entry);
    lemma_fields_step(after);
    if entries.len() == 0 {
        assert(after.drop_first() == entries);
    } else {
        lemma_fields_step(entries);
        let rest = entries.drop_first();
        assert forall|k: int| 0 <= k < rest.len() implies (#[trigger] rest[k]).0@ != entry.0@ by {
            assert(entries[k + 1].0@ != entry.0@);
        }
        lemma_field_added(rest, entry);
        assert(after.drop_first() == rest.push(entry));
        assert(entries[0].0@ != entry.0@);
        assert(fields(after) =~= fields(entries).insert(entry.0@, entry.1@));
    }
}

/// A copy of the fields of a document, none if it is not an object.
pub fn members(doc: &Json) -> (r: Vec<(String, Json)>)
    ensures
        fields(r@) == doc@.members(),
{
    let copy = doc.clone();
    match copy {
        Json::Object(entries) => entries,
        _ => Vec::new(),
    }
}

/// The fields of the object at `key`, none if it is absent or not an
/// object.
pub fn object_under(parent: &Vec<(String, Json)>, key: &str) -> (r: Vec<(String, Json)>)
    ensures
        fields(r@) == members_under(fields(parent@), key@),
{
    match field(parent, key) {
        Some(value) => members(value),
        None => Vec::new(),
    }
}

// ---------------------------------------------------------------------------
// Comparing documents
// ---------------------------------------------------------------------------

/// What `==` says of two `serde_json::Number`s.
pub uninterp spec fn numbers_equal(a: serde_json::Number, b: serde_json::Number) -> bool;

/// `==` on `serde_json::Number`s depends on the two alone and holds of a
/// number and itself: a float among them is always finite. That the two
/// zeros of a float are equal too is left unsaid.
#[verifier::external_body]
fn number_eq(a: &serde_json::Number, b: &serde_json::Number) -> (r: bool)
    ensures
        r == numbers_equal(*a, *b),
        *a == *b ==> r,
{
    a == b
}

/// Whether two documents say the same, numbers compared as `serde_json`
/// compares them.
pub open spec fn alike(a: Doc, b: Doc) -> bool
    decreases a,
{
    match (a, b) {
        (Doc::Null, Doc::Null) => true,
        (Doc::Bool(x), Doc::Bool(y)) => x == y,
        (Doc::Number(x), Doc::Number(y)) => numbers_equal(x, y),
        (Doc::Text(x), Doc::Text(y)) => x == y,
        (Doc::Array(x), Doc::Array(y)) => {
            &&& x.len() == y.len()
            &&& forall|i: int| 0 <= i < x.len() ==> alike(#[trigger] x[i], y[i])
        },
        (Doc::Object(x), Doc::Object(y)) => {
            &&& x.dom() == y.dom()
            &&& forall|k: Seq<char>| #[trigger] x.contains_key(k) ==> alike(x[k], y[k])
        },
        _ => false,
    }
}

impl Json {
    /// Whether two documents say the same.
    pub fn equals(&self, other: &Json) -> (r: bool)
        ensures
            r == alike(self@, other@),
            self@ == other@ ==> r,
        decreases self,
    {
        match (self, other) {
            (Json::Null, Json::Null) => true,
            (Json::Bool(x), Json::Bool(y)) => *x == *y,
            (Json::Number(x), Json::Number(y)) => number_eq(x, y),
            (Json::Text(x), Json::Text(y)) => same(x.as_str(), y.as_str()),
            (Json::Array(x), Json::Array(y)) => {
                proof {
                    lemma_array_view(*x);
                    lemma_array_view(*y);
                }
                if x.len() != y.len() {
                    assert(docs(x@).len() != docs(y@).len());
                    return false;
                }
                for i in 0..x.len()
                    invariant
                        self matches Json::Array(items) && items == *x,
                        self@ == Doc::Array(docs(x@)),
                        other@ == Doc::Array(docs(y@)),
                        x@.len() == y@.len(),
                        forall|k: int|
                            0 <= k < i ==> alike(#[trigger] docs(x@)[k], docs(y@)[k]),
                {
                    if !x[i].equals(&y[i]) {
                        assert(!alike(docs(x@)[i as int], docs(y@)[i as int]));
                        return false;
                    }
                }
                true
            },
            (Json::Object(x), Json::Object(y)) => {
                for i in 0..x.len()
                    invariant
                        self matches Json::Object(entries) && entries == *x,
                        self@ == Doc::Object(fields(x@)),
                        other@ == Doc::Object(fields(y@)),
                        forall|k: int|
                            0 <= k < i ==> {
                                &&& fields(x@).contains_key((#[trigger] x@[k]).0@)
                                &&& fields(y@).contains_key(x@[k].0@)
                                &&& alike(fields(x@)[x@[k].0@], fields(y@)[x@[k].0@])
                            },
                {
                    let key = x[i].0.as_str();
                    let first = position(x, key);
                    if first == Some(i) {
                        match position(y, key) {
                            Some(j) => {
                                if !x[i].1.equals(&y[j].1) {
                                    assert(!alike(fields(x@)[key@], fields(y@)[key@]));
                                    return false;
                                }
                            },
                            None => {
                                assert(fields(x@).dom().contains(key@));
                                assert(!fields(y@).dom().contains(key@));
                                return false;
                            },
                        }
                    }
                }
                for j in 0..y.len()
                    invariant
                        self@ == Doc::Object(fields(x@)),
                        other@ == Doc::Object(fields(y@)),
                        forall|k: int|
                            0 <= k < j ==> fields(x@).contains_key((#[trigger] y@[k]).0@),
                {
                    let key = y[j].0.as_str();
                    if position(x, key).is_none() {
                        proof {
                            lemma_listed_is_a_field(y@, j as int);
                        }
                        assert(fields(y@).dom().contains(key@));
                        assert(!fields(x@).dom().contains(key@));
                        return false;
                    }
                }
                proof {
                    assert forall|k: Seq<char>| #[trigger]
                        fields(x@).contains_key(k) implies fields(y@).contains_key(k) && alike(
                        fields(x@)[k],
                        fields(y@)[k],
                    ) by {
                        let i = lemma_field_has_a_place(x@, k);
                        assert(x@[i].0@ == k);
                    }
                    assert forall|k: Seq<char>| #[trigger]
                        fields(y@).contains_key(k) implies fields(x@).contains_key(k) by {
                        let i = lemma_field_has_a_place(y@, k);
                        assert(y@[i].0@ == k);
                    }
                    assert(fields(x@).dom() =~= fields(y@).dom());
                }
                true
            },
            _ => false,
        }
    }
}

/// What is listed is a field.
proof fn lemma_listed_is_a_field(entries: Seq<(String, Json)>, i: int)
    requires
        0 <= i < entries.len(),
    ensures
        fields(entries).contains_key(entries[i].0@),
    decreases i,
{
    lemma_fields_step(entries);
    if i > 0 {
        lemma_listed_is_a_field(entries.drop_first(), i - 1);
    }
}

// ---------------------------------------------------------------------------
// Laws
// ---------------------------------------------------------------------------

/// Documents of different kinds never say the same, and texts and flags do
/// only where they are the same.
pub proof fn law_documents_of_two_kinds_differ(a: Doc, b: Doc)
    requires
        alike(a, b),
    ensures
        a is Null <==> b is Null,
        a is Bool <==> b is Bool,
        a is Number <==> b is Number,
        a is Text <==> b is Text,
        a is Array <==> b is Array,
        a is Object <==> b is Object,
        a is Text || a is Bool ==> a == b,
{
}

/// Two objects say the same only where they have the same fields and each
/// says the same in both, and two lists only where they are as long and
/// each item says the same in both.
pub proof fn law_what_is_alike_is_alike_throughout(a: Doc, b: Doc, key: Seq<char>, i: int)
    requires
        alike(a, b),
    ensures
        a.get(key) is Some <==> b.get(key) is Some,
        a.get(key) is Some ==> alike(a.get(key)->0, b.get(key)->0),
        a is Array ==> a->Array_0.len() == b->Array_0.len(),
        a is Array && 0 <= i < a->Array_0.len() ==> alike(a->Array_0[i], b->Array_0[i]),
{
    if let Doc::Object(x) = a {
        assert(x.contains_key(key) <==> x.dom().contains(key));
    }
}

/// A field is found in an object by its name, and nowhere else.
pub proof fn law_what_a_field_holds(m: Map<Seq<char>, Doc>, key: Seq<char>, value: Doc, other: Doc)
    ensures
        Doc::Object(m.insert(key, value)).get(key) == Some(value),
        !m.contains_key(key) ==> Doc::Object(m).get(key) is None,
        other !is Object ==> other.get(key) is None,
        members_under(m.insert(key, Doc::Object(m)), key) == m,
        other !is Object ==> members_under(m.insert(key, other), key) == Map::<
            Seq<char>,
            Doc,
        >::empty(),
{
}

} // verus!
