//! JSON as it comes from outside and goes there.

use vstd::prelude::*;

use crate::lists::selects_last;
use crate::ids::{id_text, id_to_text};
use crate::principal::Id;
use crate::text::{opt_text, texts};

verus! {

/// `serde_json::Value`, any JSON value.
#[verifier::external_type_specification]
#[verifier::external_body]
pub struct ExValue(serde_json::Value);

/// `serde_json::Map`, the members of a JSON object.
#[verifier::external_type_specification]
#[verifier::external_body]
#[verifier::reject_recursive_types(K)]
#[verifier::reject_recursive_types(V)]
pub struct ExMap<K, V>(serde_json::Map<K, V>);

/// What a JSON value is. Numbers that are no integers are not told apart.
pub enum Json {
    Null,
    Flag(bool),
    Number(int),
    Fraction,
    Text(Seq<char>),
    List(Seq<Json>),
    Object(Map<Seq<char>, Json>),
}

/// What a JSON value holds.
pub uninterp spec fn json_in(v: serde_json::Value) -> Json;

/// The member of that name, where the value is an object and has one.
pub open spec fn member_at(j: Json, name: Seq<char>) -> Option<Json> {
    match j {
        Json::Object(m) => if m.dom().contains(name) {
            Some(m[name])
        } else {
            None
        },
        _ => None,
    }
}

/// The text of a string.
pub open spec fn as_string(j: Json) -> Option<Seq<char>> {
    match j {
        Json::Text(s) => Some(s),
        _ => None,
    }
}

/// The text of the string member of that name.
pub open spec fn text_at(j: Json, name: Seq<char>) -> Option<Seq<char>> {
    match member_at(j, name) {
        Some(m) => as_string(m),
        None => None,
    }
}

/// The items of an array: the text of those that are strings, nothing for the others.
pub open spec fn items_at(j: Json) -> Option<Seq<Option<Seq<char>>>> {
    match j {
        Json::List(l) => Some(l.map_values(|i: Json| as_string(i))),
        _ => None,
    }
}

/// The items of the array member of that name.
pub open spec fn list_at(j: Json, name: Seq<char>) -> Option<Seq<Option<Seq<char>>>> {
    match member_at(j, name) {
        Some(m) => items_at(m),
        None => None,
    }
}

/// The text of the string that three names lead to.
pub open spec fn text_under(j: Json, a: Seq<char>, b: Seq<char>, c: Seq<char>) -> Option<Seq<char>> {
    match member_at(j, a) {
        Some(x) => match member_at(x, b) {
            Some(y) => text_at(y, c),
            None => None,
        },
        None => None,
    }
}

/// A list of optional texts, as contracts see it.
pub open spec fn opt_texts(l: Seq<Option<String>>) -> Seq<Option<Seq<char>>> {
    l.map_values(|o: Option<String>| opt_text(o))
}

/// A member of an object, as far as text is made of it: a null, a string, or
/// anything else in its compact JSON form.
#[verifier::ext_equal]
pub enum Member {
    Null,
    Text(Seq<char>),
    Other(Seq<char>),
}

/// The executable counterpart of [`Member`].
pub enum Supplied {
    Null,
    Text(String),
    Other(String),
}

impl View for Supplied {
    type V = Member;

    open spec fn view(&self) -> Member {
        match self {
            Supplied::Null => Member::Null,
            Supplied::Text(s) => Member::Text(s@),
            Supplied::Other(s) => Member::Other(s@),
        }
    }
}

/// What a JSON object holds, by name, as far as text is made of it.
pub uninterp spec fn members(m: serde_json::Map<String, serde_json::Value>) -> Map<
    Seq<char>,
    Member,
>;

/// `serde_json::Map::get`: the member of that name, if the object has one. A
/// string comes back as its text, and any value that is neither a string nor
/// null as what its `Display` writes.
#[verifier::external_body]
pub(crate) fn member(
    m: &serde_json::Map<String, serde_json::Value>,
    name: &str,
) -> (r: Option<Supplied>)
    ensures
        match r {
            Some(v) => members(*m).dom().contains(name@) && v@ == members(*m)[name@],
            None => !members(*m).dom().contains(name@),
        },
{
    match m.get(name) {
        None => None,
        Some(serde_json::Value::Null) => Some(Supplied::Null),
        Some(serde_json::Value::String(s)) => Some(Supplied::Text(s.clone())),
        Some(v) => Some(Supplied::Other(v.to_string())),
    }
}

/// `Value::get` and `Value::as_str`: the text of the string member of that name.
#[verifier::external_body]
pub(crate) fn read_text(v: &serde_json::Value, name: &str) -> (r: Option<String>)
    ensures
        opt_text(r) == text_at(json_in(*v), name@),
{
    v.get(name).and_then(|x| x.as_str()).map(|x| x.to_string())
}

/// `Value::get` and `Value::as_array`: the items of the array member of that
/// name, each by `Value::as_str`.
#[verifier::external_body]
pub(crate) fn read_list(v: &serde_json::Value, name: &str) -> (r: Option<Vec<Option<String>>>)
    ensures
        match r {
            Some(l) => list_at(json_in(*v), name@) == Some(opt_texts(l@)),
            None => list_at(json_in(*v), name@) is None,
        },
{
    let items = v.get(name).and_then(|x| x.as_array())?;
    Some(items.iter().map(|x| x.as_str().map(|t| t.to_string())).collect())
}

/// `Value::as_array`: the items of an array, each by `Value::as_str`.
#[verifier::external_body]
pub(crate) fn read_items(v: &serde_json::Value) -> (r: Option<Vec<Option<String>>>)
    ensures
        match r {
            Some(l) => items_at(json_in(*v)) == Some(opt_texts(l@)),
            None => items_at(json_in(*v)) is None,
        },
{
    let items = v.as_array()?;
    Some(items.iter().map(|x| x.as_str().map(|t| t.to_string())).collect())
}

/// `Value::get`, three times, and `Value::as_str`: the text of the string that the
/// three names lead to.
#[verifier::external_body]
pub(crate) fn read_text_under(v: &serde_json::Value, a: &str, b: &str, c: &str) -> (r: Option<
    String,
>)
    ensures
        opt_text(r) == text_under(json_in(*v), a@, b@, c@),
{
    v.get(a).and_then(|x| x.get(b)).and_then(|x| x.get(c)).and_then(|x| x.as_str()).map(
        |x| x.to_string(),
    )
}

/// The strings among the items of an array, in their order.
pub open spec fn strings_among(items: Seq<Option<Seq<char>>>) -> Seq<Seq<char>>
    decreases items.len(),
{
    if items.len() == 0 {
        Seq::empty()
    } else {
        let before = strings_among(items.drop_last());
        match items.last() {
            Some(s) => before.push(s),
            None => before,
        }
    }
}

/// Keeps the strings among the items of an array.
pub fn keep_strings(items: Vec<Option<String>>) -> (r: Vec<String>)
    ensures
        texts(r@) == strings_among(opt_texts(items@)),
{
    let ghost seen = opt_texts(items@);
    let mut out: Vec<String> = Vec::new();
    let mut i: usize = 0;
    assert(seen.take(0) == Seq::<Option<Seq<char>>>::empty());
    while i < items.len()
        invariant
            i <= items@.len(),
            seen == opt_texts(items@),
            texts(out@) == strings_among(seen.take(i as int)),
        decreases items@.len() - i,
    {
        assert(seen.take(i as int + 1).drop_last() == seen.take(i as int));
        match &items[i] {
            Some(s) => {
                let ghost had = out@;
                out.push(s.clone());
                assert(texts(out@) == texts(had).push(s@));
            },
            None => {},
        }
        i = i + 1;
    }
    assert(seen.take(items@.len() as int) == seen);
    out
}

/// The items of an array are all strings.
pub open spec fn only_strings(items: Seq<Option<Seq<char>>>) -> bool {
    forall|i: int| 0 <= i < items.len() ==> #[trigger] items[i] is Some
}

/// The array that holds these texts.
pub open spec fn text_list(s: Seq<Seq<char>>) -> Json {
    Json::List(s.map_values(|t: Seq<char>| Json::Text(t)))
}

/// `serde_json::from_value` into a list of strings: the texts of an array whose items are
/// all strings, and nothing for any other value.
#[verifier::external_body]
pub(crate) fn read_strings(v: &serde_json::Value) -> (r: Option<Vec<String>>)
    ensures
        match r {
            Some(l) => json_in(*v) == text_list(texts(l@)),
            None => !(items_at(json_in(*v)) matches Some(items) && only_strings(items)),
        },
{
    serde_json::from_value(v.clone()).ok()
}

/// The value of a JSON document, where it is one.
pub uninterp spec fn parsed(bytes: Seq<u8>) -> Option<Json>;

/// `serde_json::from_slice`: the value of a JSON document, or nothing of bytes that
/// are none.
#[verifier::external_body]
pub(crate) fn parse_document(bytes: &[u8]) -> (r: Option<serde_json::Value>)
    ensures
        match r {
            Some(v) => parsed(bytes@) == Some(json_in(v)),
            None => parsed(bytes@) is None,
        },
{
    serde_json::from_slice(bytes).ok()
}

/// A member of this name makes `serde_json` read an object as something else: as a number of
/// any length, or as a document within the document.
pub open spec fn is_reserved(name: Seq<char>) -> bool {
    name == "$serde_json::private::Number"@ || name == "$serde_json::private::RawValue"@
}

/// Arrays and objects in a value lie within each other at most so deep, no number in it has a
/// fraction, and no object in it has a member of a reserved name.
pub open spec fn is_plain(j: Json, depth: nat) -> bool
    decreases depth,
{
    match j {
        Json::Fraction => false,
        Json::List(l) => depth > 0 && forall|i: int|
            0 <= i < l.len() ==> is_plain(#[trigger] l[i], (depth - 1) as nat),
        Json::Object(m) => depth > 0 && forall|name: Seq<char>|
            m.dom().contains(name) ==> !is_reserved(name) && is_plain(
                #[trigger] m[name],
                (depth - 1) as nat,
            ),
        _ => true,
    }
}

/// The JSON document of a value, indented.
pub uninterp spec fn pretty_json(v: serde_json::Value) -> Seq<u8>;

/// `serde_json::to_vec_pretty`: the JSON document of a value, indented. A `Value` can always be
/// written. Read again, the document is the value that was written, where that is not so deep
/// that the reader gives up, which it does at a depth of 128, and where no object in it has a
/// member of a reserved name, for which the reader reads something else. Nothing is said of a
/// value with a fraction in it: reading one may round it beyond the largest number.
#[verifier::external_body]
pub(crate) fn write_document(v: &serde_json::Value) -> (r: Option<Vec<u8>>)
    ensures
        match r {
            Some(bytes) => bytes@ == pretty_json(*v) && (is_plain(json_in(*v), 100)
                ==> parsed(bytes@) == Some(json_in(*v))),
            None => false,
        },
{
    serde_json::to_vec_pretty(v).ok()
}

/// `serde_json::Value::String`: a string.
#[verifier::external_body]
pub(crate) fn text_value(s: &str) -> (r: serde_json::Value)
    ensures
        json_in(r) == Json::Text(s@),
{
    serde_json::Value::String(s.to_string())
}

/// `serde_json::Value::from` of an integer.
#[verifier::external_body]
pub(crate) fn number_value(n: i64) -> (r: serde_json::Value)
    ensures
        json_in(r) == Json::Number(n as int),
{
    serde_json::Value::from(n)
}

/// `serde_json::Value::from` of a count.
#[verifier::external_body]
pub(crate) fn count_value(n: usize) -> (r: serde_json::Value)
    ensures
        json_in(r) == Json::Number(n as int),
{
    serde_json::Value::from(n)
}

/// `serde_json::Value::from` of a size.
#[verifier::external_body]
pub(crate) fn size_value(n: u64) -> (r: serde_json::Value)
    ensures
        json_in(r) == Json::Number(n as int),
{
    serde_json::Value::from(n)
}

/// `serde_json::Value::Bool`: true or false.
#[verifier::external_body]
pub(crate) fn flag_value(b: bool) -> (r: serde_json::Value)
    ensures
        json_in(r) == Json::Flag(b),
{
    serde_json::Value::Bool(b)
}

/// `serde_json::Value::Null`: nothing.
#[verifier::external_body]
pub(crate) fn null_value() -> (r: serde_json::Value)
    ensures
        json_in(r) == Json::Null,
{
    serde_json::Value::Null
}

/// What values hold, in their order.
pub open spec fn jsons(v: Seq<serde_json::Value>) -> Seq<Json> {
    v.map_values(|x: serde_json::Value| json_in(x))
}

/// `serde_json::Value::Array`: the array of these values.
#[verifier::external_body]
pub(crate) fn array_value(v: Vec<serde_json::Value>) -> (r: serde_json::Value)
    ensures
        json_in(r) == Json::List(jsons(v@)),
{
    serde_json::Value::Array(v)
}

/// `serde_json::Value::Object` of no members.
#[verifier::external_body]
pub(crate) fn empty_object() -> (r: serde_json::Value)
    ensures
        json_in(r) == Json::Object(Map::empty()),
{
    serde_json::Value::Object(serde_json::Map::new())
}

/// The array of these strings.
pub(crate) fn strings_value(v: &Vec<String>) -> (r: serde_json::Value)
    ensures
        json_in(r) == text_list(texts(v@)),
{
    let mut items: Vec<serde_json::Value> = Vec::new();
    let mut i: usize = 0;
    while i < v.len()
        invariant
            i <= v@.len(),
            items@.len() == i,
            forall|k: int| 0 <= k < i ==> json_in(#[trigger] items@[k]) == Json::Text(v@[k]@),
        decreases v@.len() - i,
    {
        items.push(text_value(v[i].as_str()));
        i = i + 1;
    }
    assert(jsons(items@) =~= texts(v@).map_values(|t: Seq<char>| Json::Text(t)));
    array_value(items)
}

/// `Index` by a name, to write to: the object with the member of that name, new or in place
/// of the one it had.
#[verifier::external_body]
pub(crate) fn put(v: &mut serde_json::Value, name: &str, member: serde_json::Value)
    requires
        json_in(*old(v)) is Object,
    ensures
        json_in(*final(v)) == Json::Object(
            json_in(*old(v))->Object_0.insert(name@, json_in(member)),
        ),
{
    v[name] = member;
}

/// `Value::clone`: a value that says the same.
#[verifier::external_body]
pub(crate) fn copy_value(v: &serde_json::Value) -> (r: serde_json::Value)
    ensures
        json_in(r) == json_in(*v),
{
    v.clone()
}

/// What an optional value says.
pub open spec fn opt_json(o: Option<serde_json::Value>) -> Option<Json> {
    match o {
        Some(v) => Some(json_in(v)),
        None => None,
    }
}

pub(crate) fn copy_opt_value(o: &Option<serde_json::Value>) -> (r: Option<serde_json::Value>)
    ensures
        opt_json(r) == opt_json(*o),
{
    match o {
        Some(v) => Some(copy_value(v)),
        None => None,
    }
}

/// A text that may be missing, as JSON.
pub open spec fn text_or_null(o: Option<Seq<char>>) -> Json {
    match o {
        Some(s) => Json::Text(s),
        None => Json::Null,
    }
}

/// An identifier that may be missing, as JSON.
pub open spec fn id_or_null(o: Option<Id>) -> Json {
    match o {
        Some(id) => Json::Text(id_text(id)),
        None => Json::Null,
    }
}

pub(crate) fn text_or_null_value(o: &Option<String>) -> (r: serde_json::Value)
    ensures
        json_in(r) == text_or_null(opt_text(*o)),
{
    match o {
        Some(s) => text_value(s.as_str()),
        None => null_value(),
    }
}

pub(crate) fn id_value(id: Id) -> (r: serde_json::Value)
    ensures
        json_in(r) == Json::Text(id_text(id)),
{
    let s = id_to_text(id);
    text_value(s.as_str())
}

pub(crate) fn id_or_null_value(o: Option<Id>) -> (r: serde_json::Value)
    ensures
        json_in(r) == id_or_null(o),
{
    match o {
        Some(id) => id_value(id),
        None => null_value(),
    }
}

/// Every string among the items of an array is kept, in their order.
pub proof fn strings_are_kept(s: Seq<Option<Seq<char>>>)
    ensures
        strings_among(s)
            == s.filter(|x: Option<Seq<char>>| x is Some).map_values(|x: Option<Seq<char>>| x->0),
    decreases s.len(),
{
    let p = |x: Option<Seq<char>>| x is Some;
    selects_last(s, p);
    if s.len() > 0 {
        strings_are_kept(s.drop_last());
    }
    assert(strings_among(s) =~= s.filter(p).map_values(|x: Option<Seq<char>>| x->0));
}

/// What is found in a document: under a name what stands there, as text where it is text, and the
/// texts of a list in their order.
pub proof fn what_is_found_in_documents(
    m: Map<Seq<char>, Json>,
    name: Seq<char>,
    l: Seq<Json>,
    j: Json,
)
    ensures
        member_at(Json::Object(m), name) == (if m.contains_key(name) {
            Some(m[name])
        } else {
            None
        }),
        !(j is Object) ==> member_at(j, name) is None,
        as_string(j) matches Some(s) ==> j == Json::Text(s),
        as_string(j) is None <==> !(j is Text),
        text_at(Json::Object(m), name) matches Some(s) ==> m.contains_key(name) && m[name]
            == Json::Text(s),
        m.contains_key(name) && m[name] is Text ==> text_at(Json::Object(m), name) is Some,
        items_at(j) is Some <==> j is List,
        items_at(Json::List(l)) matches Some(v) && v.len() == l.len() && forall|i: int|
            0 <= i < l.len() ==> #[trigger] v[i] == as_string(l[i]),
        list_at(Json::Object(m), name) == (if m.contains_key(name) {
            items_at(m[name])
        } else {
            None
        }),
{
}

/// A text under three names is found where each leads to the next.
pub proof fn texts_are_found_in_depth(j: Json, a: Seq<char>, b: Seq<char>, c: Seq<char>)
    ensures
        text_under(j, a, b, c) matches Some(s) ==> {
            &&& j matches Json::Object(x)
            &&& x.contains_key(a)
            &&& x[a] matches Json::Object(y)
            &&& y.contains_key(b)
            &&& y[b] matches Json::Object(z)
            &&& z.contains_key(c)
            &&& z[c] == Json::Text(s)
        },
        forall|x: Map<Seq<char>, Json>, y: Map<Seq<char>, Json>, z: Map<Seq<char>, Json>|
            #![trigger x[a], y[b], z[c]]
            j == Json::Object(x)
                && x.contains_key(a)
                && x[a] == Json::Object(y)
                && y.contains_key(b)
                && y[b] == Json::Object(z) && z.contains_key(c) && z[c] is Text ==> text_under(
                j,
                a,
                b,
                c,
            ) is Some,
{
}

/// What may be missing is written as nothing, and else as it is.
pub proof fn what_is_missing_is_null(o: Option<Seq<char>>, id: Option<Id>)
    ensures
        o matches Some(s) ==> text_or_null(o) == Json::Text(s),
        o is None <==> text_or_null(o) == Json::Null,
        id matches Some(i) ==> id_or_null(id) == Json::Text(id_text(i)),
        id is None <==> id_or_null(id) == Json::Null,
{
}

/// A list of texts is written as it stands.
pub proof fn lists_are_written_in_order(s: Seq<Seq<char>>)
    ensures
        text_list(s) matches Json::List(l) && l.len() == s.len() && forall|i: int|
            0 <= i < s.len() ==> #[trigger] l[i] == Json::Text(s[i]),
{
}

/// What was supplied is seen as it is.
pub proof fn values_are_seen_as_they_are(
    s: String,
    v: Seq<serde_json::Value>,
    o: Seq<Option<String>>,
)
    ensures
        Supplied::Null@ == Member::Null,
        Supplied::Text(s)@ == Member::Text(s@),
        Supplied::Other(s)@ == Member::Other(s@),
        jsons(v).len() == v.len(),
        forall|i: int| 0 <= i < v.len() ==> #[trigger] jsons(v)[i] == json_in(v[i]),
        opt_texts(o).len() == o.len(),
        forall|i: int| 0 <= i < o.len() ==> #[trigger] opt_texts(o)[i] == opt_text(o[i]),
        opt_json(None) is None,
{
}

/// A list holds only texts where each of its items is one. A plain value is no fraction, and no
/// list or object where no depth is left for it. Two names are reserved.
pub proof fn lists_of_texts_hold_nothing_else(
    items: Seq<Option<Seq<char>>>,
    l: Seq<Json>,
    m: Map<Seq<char>, Json>,
    n: nat,
    s: Seq<char>,
    i: int,
    b: bool,
)
    ensures
        only_strings(items)
            <==> forall|i: int| #![trigger items[i]] 0 <= i < items.len() ==> items[i] is Some,
        !is_plain(Json::Fraction, n),
        is_plain(Json::Null, n),
        is_plain(Json::Text(s), n),
        is_plain(Json::Number(i), n),
        is_plain(Json::Flag(b), n),
        !is_plain(Json::List(l), 0),
        !is_plain(Json::Object(m), 0),
        is_reserved(s)
            <==> s == "$serde_json::private::Number"@ || s == "$serde_json::private::RawValue"@,
{
}

} // verus!
