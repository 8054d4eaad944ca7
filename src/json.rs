//! A model of JSON values, the lookups the message shapes need, and the
//! conversion to and from JSON text, which serde_json performs.
use serde_json::Value;
use vstd::prelude::*;

verus! {

/// A JSON value. Numbers keep serde_json's three kinds: a non-negative
/// integer, a negative integer, and any other number, held as its text.
#[verifier::external_type_specification]
#[verifier::external_body]
pub struct ExValue(Value);

#[derive(Debug, PartialEq)]
pub enum Json {
    Null,
    Bool(bool),
    PosInt(u64),
    NegInt(i64),
    Float(String),
    Str(String),
    Array(Vec<Json>),
    Object(Vec<(String, Json)>),
}

/// The mathematical value of a `Json`.
pub enum JsonView {
    Null,
    Bool(bool),
    PosInt(u64),
    NegInt(i64),
    Float(Seq<char>),
    Str(Seq<char>),
    Array(Seq<JsonView>),
    Object(Seq<(Seq<char>, JsonView)>),
}

pub open spec fn items_view(items: Seq<Json>) -> Seq<JsonView>
    decreases items,
{
    if items.len() == 0 {
        Seq::empty()
    } else {
        seq![items[0]@] + items_view(items.subrange(1, items.len() as int))
    }
}

pub open spec fn entries_view(entries: Seq<(String, Json)>) -> Seq<(Seq<char>, JsonView)>
    decreases entries,
{
    if entries.len() == 0 {
        Seq::empty()
    } else {
        seq![(entries[0].0@, entries[0].1@)] + entries_view(entries.subrange(1, entries.len() as int))
    }
}

impl View for Json {
    type V = JsonView;

    open spec fn view(&self) -> JsonView
        decreases self,
    {
        match self {
            Json::Null => JsonView::Null,
            Json::Bool(b) => JsonView::Bool(*b),
            Json::PosInt(n) => JsonView::PosInt(*n),
            Json::NegInt(n) => JsonView::NegInt(*n),
            Json::Float(t) => JsonView::Float(t@),
            Json::Str(s) => JsonView::Str(s@),
            Json::Array(items) => JsonView::Array(items_view(items@)),
            Json::Object(entries) => JsonView::Object(entries_view(entries@)),
        }
    }
}


/// The value of the first entry of `entries` whose key is `key`.
pub open spec fn member(entries: Seq<(Seq<char>, JsonView)>, key: Seq<char>) -> Option<JsonView>
    decreases entries.len(),
{
    if entries.len() == 0 {
        None
    } else if entries[0].0 == key {
        Some(entries[0].1)
    } else {
        member(entries.subrange(1, entries.len() as int), key)
    }
}

/// The member `key` of `v`, where `v` is an object that has one.
pub open spec fn get(v: JsonView, key: Seq<char>) -> Option<JsonView> {
    match v {
        JsonView::Object(entries) => member(entries, key),
        _ => None,
    }
}

/// `get` on a value that may be absent.
pub open spec fn get_in(v: Option<JsonView>, key: Seq<char>) -> Option<JsonView> {
    match v {
        Some(v) => get(v, key),
        None => None,
    }
}

/// The value of an unsigned 64-bit field: a non-negative integer.
pub open spec fn u64_of(v: Option<JsonView>) -> Option<u64> {
    match v {
        Some(JsonView::PosInt(n)) => Some(n),
        _ => None,
    }
}

/// The value of a signed 64-bit field: an integer in the range of `i64`.
pub open spec fn i64_of(v: Option<JsonView>) -> Option<i64> {
    match v {
        Some(JsonView::PosInt(n)) => if n <= i64::MAX {
            Some(n as i64)
        } else {
            None
        },
        Some(JsonView::NegInt(n)) => Some(n),
        _ => None,
    }
}

/// The value of a `usize` field: a non-negative integer that fits.
pub open spec fn usize_of(v: Option<JsonView>) -> Option<usize> {
    match v {
        Some(JsonView::PosInt(n)) => if n <= usize::MAX {
            Some(n as usize)
        } else {
            None
        },
        _ => None,
    }
}

/// The value of a string field.
pub open spec fn str_of(v: Option<JsonView>) -> Option<Seq<char>> {
    match v {
        Some(JsonView::Str(s)) => Some(s),
        _ => None,
    }
}

/// The strings of an array whose items are all strings.
pub open spec fn strings_of(v: Option<JsonView>) -> Option<Seq<Seq<char>>> {
    match v {
        Some(JsonView::Array(items)) => if forall|i: int| 0 <= i < items.len() ==> (#[trigger] items[i]) is Str {
            Some(Seq::new(items.len(), |i: int| items[i]->Str_0))
        } else {
            None
        },
        _ => None,
    }
}

pub proof fn lemma_items_view(items: Seq<Json>)
    ensures
        items_view(items).len() == items.len(),
        forall|i: int| 0 <= i < items.len() ==> #[trigger] items_view(items)[i] == items[i]@,
    decreases items.len(),
{
    if items.len() > 0 {
        let rest = items.subrange(1, items.len() as int);
        lemma_items_view(rest);
        assert(items_view(items) == seq![items[0]@] + items_view(rest));
        assert forall|i: int| 0 <= i < items.len() implies #[trigger] items_view(items)[i]
            == items[i]@ by {
            if i > 0 {
                assert(rest[i - 1] == items[i]);
            }
        }
    }
}

pub proof fn lemma_entries_view(entries: Seq<(String, Json)>)
    ensures
        entries_view(entries).len() == entries.len(),
        forall|i: int|
            0 <= i < entries.len() ==> #[trigger] entries_view(entries)[i] == (
                entries[i].0@,
                entries[i].1@,
            ),
    decreases entries.len(),
{
    if entries.len() > 0 {
        let rest = entries.subrange(1, entries.len() as int);
        lemma_entries_view(rest);
        assert(entries_view(entries) == seq![(entries[0].0@, entries[0].1@)] + entries_view(rest));
        assert forall|i: int| 0 <= i < entries.len() implies #[trigger] entries_view(entries)[i]
            == (entries[i].0@, entries[i].1@) by {
            if i > 0 {
                assert(rest[i - 1] == entries[i]);
            }
        }
    }
}

/// The first entry whose key is `key` decides `member`.
proof fn lemma_member_at(entries: Seq<(Seq<char>, JsonView)>, key: Seq<char>, i: int)
    requires
        0 <= i <= entries.len(),
        forall|j: int| 0 <= j < i ==> (#[trigger] entries[j]).0 != key,
    ensures
        member(entries, key) == member(entries.subrange(i, entries.len() as int), key),
    decreases i,
{
    if i > 0 {
        let rest = entries.subrange(1, entries.len() as int);
        assert forall|j: int| 0 <= j < i - 1 implies (#[trigger] rest[j]).0 != key by {
            assert(rest[j] == entries[j + 1]);
        }
        lemma_member_at(rest, key, i - 1);
        assert(rest.subrange(i - 1, rest.len() as int) =~= entries.subrange(i, entries.len() as int));
    } else {
        assert(entries.subrange(0, entries.len() as int) =~= entries);
    }
}

/// The index of the first entry of `entries` whose key is `key`.
pub fn find_member(entries: &Vec<(String, Json)>, key: &String) -> (r: Option<usize>)
    ensures
        match r {
            Some(i) => i < entries.len() && entries@[i as int].0@ == key@ && member(
                entries_view(entries@),
                key@,
            ) == Some(entries@[i as int].1@),
            None => member(entries_view(entries@), key@) is None,
        },
{
    proof {
        lemma_entries_view(entries@);
    }
    let ghost ev = entries_view(entries@);
    let mut i: usize = 0;
    while i < entries.len()
        invariant
            i <= entries.len(),
            ev == entries_view(entries@),
            ev.len() == entries.len(),
            forall|k: int| 0 <= k < entries.len() ==> #[trigger] ev[k] == (entries@[k].0@, entries@[k].1@),
            forall|j: int| 0 <= j < i ==> (#[trigger] ev[j]).0 != key@,
        decreases entries.len() - i,
    {
        if entries[i].0 == *key {
            proof {
                lemma_member_at(ev, key@, i as int);
                assert(ev.subrange(i as int, ev.len() as int)[0] == ev[i as int]);
            }
            return Some(i);
        }
        assert(ev[i as int].0 != key@);
        i = i + 1;
    }
    proof {
        lemma_member_at(ev, key@, i as int);
    }
    None
}

/// The view of a value that may be absent.
pub open spec fn opt_view(v: Option<&Json>) -> Option<JsonView> {
    match v {
        Some(x) => Some(x@),
        None => None,
    }
}

/// The view of an owned value that may be absent.
pub open spec fn owned_view(v: Option<Json>) -> Option<JsonView> {
    match v {
        Some(x) => Some(x@),
        None => None,
    }
}

/// An owned copy of a key.
pub(crate) fn key(s: &str) -> (r: String)
    ensures
        r@ == s@,
{
    s.to_owned()
}

/// The member `key` of `v`, where `v` is an object that has one.
pub fn get_member<'a>(v: &'a Json, key: &String) -> (r: Option<&'a Json>)
    ensures
        match r {
            Some(x) => get(v@, key@) == Some(x@),
            None => get(v@, key@) is None,
        },
{
    match v {
        Json::Object(entries) => match find_member(entries, key) {
            Some(i) => Some(&entries[i].1),
            None => None,
        },
        _ => None,
    }
}


/// `get_member` on a value that may be absent.
pub fn member_in<'a>(v: Option<&'a Json>, key: &String) -> (r: Option<&'a Json>)
    ensures
        opt_view(r) == get_in(opt_view(v), key@),
{
    match v {
        Some(x) => get_member(x, key),
        None => None,
    }
}

/// Removes the member `key` from the object `v` and hands it back.
pub fn take_member(v: Json, key: &String) -> (r: Option<Json>)
    ensures
        owned_view(r) == get(v@, key@),
{
    match v {
        Json::Object(mut entries) => match find_member(&entries, key) {
            Some(i) => Some(entries.swap_remove(i).1),
            None => None,
        },
        _ => None,
    }
}

pub fn to_u64(v: Option<&Json>) -> (r: Option<u64>)
    ensures
        r == u64_of(opt_view(v)),
{
    match v {
        Some(Json::PosInt(n)) => Some(*n),
        _ => None,
    }
}

pub fn to_i64(v: Option<&Json>) -> (r: Option<i64>)
    ensures
        r == i64_of(opt_view(v)),
{
    match v {
        Some(Json::PosInt(n)) => if *n <= i64::MAX as u64 {
            Some(*n as i64)
        } else {
            None
        },
        Some(Json::NegInt(n)) => Some(*n),
        _ => None,
    }
}

pub fn to_usize(v: Option<&Json>) -> (r: Option<usize>)
    ensures
        r == usize_of(opt_view(v)),
{
    match v {
        Some(Json::PosInt(n)) => if *n <= usize::MAX as u64 {
            Some(*n as usize)
        } else {
            None
        },
        _ => None,
    }
}

pub fn to_str(v: Option<&Json>) -> (r: Option<String>)
    ensures
        match r {
            Some(s) => str_of(opt_view(v)) == Some(s@),
            None => str_of(opt_view(v)) is None,
        },
{
    match v {
        Some(Json::Str(s)) => Some(s.clone()),
        _ => None,
    }
}

pub fn to_strings(v: Option<&Json>) -> (r: Option<Vec<String>>)
    ensures
        match r {
            Some(ss) => strings_of(opt_view(v)) == Some(ss@.map_values(|s: String| s@)),
            None => strings_of(opt_view(v)) is None,
        },
{
    match v {
        Some(Json::Array(items)) => {
            proof {
                lemma_items_view(items@);
            }
            let ghost iv = items_view(items@);
            assert(opt_view(v) == Some(JsonView::Array(iv)));
            let mut out: Vec<String> = Vec::new();
            let mut i: usize = 0;
            while i < items.len()
                invariant
                    i <= items.len(),
                    iv == items_view(items@),
                    opt_view(v) == Some(JsonView::Array(iv)),
                    iv.len() == items.len(),
                    forall|k: int| 0 <= k < items.len() ==> #[trigger] iv[k] == items@[k]@,
                    out.len() == i,
                    forall|k: int| 0 <= k < i ==> (#[trigger] iv[k]) is Str && iv[k]->Str_0 == out@[k]@,
                decreases items.len() - i,
            {
                match &items[i] {
                    Json::Str(s) => out.push(s.clone()),
                    _ => {
                        assert(iv[i as int] !is Str);
                        return None;
                    },
                }
                i = i + 1;
            }
            assert(out@.map_values(|s: String| s@) =~= Seq::new(iv.len(), |k: int| iv[k]->Str_0));
            Some(out)
        },
        _ => None,
    }
}

/// The value that serde_json parses from `text`, if it is one JSON document.
pub uninterp spec fn json_parse(text: Seq<char>) -> Option<JsonView>;

/// The compact JSON text that serde_json writes for `v`, if every number in it
/// is one that serde_json can hold.
pub uninterp spec fn json_render(v: JsonView) -> Option<Seq<char>>;

/// Converts a value built by serde_json into the model, variant for variant.
/// Relies on serde_json::Number::as_u64 and as_i64 to tell its integers apart,
/// and on its `Display` for the text of any other number. Promises nothing:
/// `parse_json` names what the whole parse gives.
#[verifier::external_body]
fn json_of_value(v: Value) -> Json {
    match v {
        Value::Null => Json::Null,
        Value::Bool(b) => Json::Bool(b),
        Value::Number(n) => match (n.as_u64(), n.as_i64()) {
            (Some(u), _) => Json::PosInt(u),
            (None, Some(i)) => Json::NegInt(i),
            (None, None) => Json::Float(n.to_string()),
        },
        Value::String(s) => Json::Str(s),
        Value::Array(items) => Json::Array(items.into_iter().map(json_of_value).collect()),
        Value::Object(m) => Json::Object(m.into_iter().map(|(k, v)| (k, json_of_value(v))).collect()),
    }
}

/// Converts the model into serde_json's value, variant for variant; `None`
/// where a number's text is not one that serde_json::Number's `FromStr`
/// parses. Relies on `Value::from` for integers. Promises nothing:
/// `render_json` names what the whole rendering gives.
#[verifier::external_body]
fn value_of_json(j: &Json) -> Option<Value> {
    Some(match j {
        Json::Null => Value::Null,
        Json::Bool(b) => Value::Bool(*b),
        Json::PosInt(n) => Value::from(*n),
        Json::NegInt(n) => Value::from(*n),
        Json::Float(t) => Value::Number(t.parse().ok()?),
        Json::Str(s) => Value::String(s.clone()),
        Json::Array(items) => Value::Array(items.iter().map(value_of_json).collect::<Option<_>>()?),
        Json::Object(es) => Value::Object(es.iter().map(|(k, v)| Some((k.clone(), value_of_json(v)?))).collect::<Option<_>>()?),
    })
}

/// Relies on serde_json::from_str into a `Value`: it parses one JSON document,
/// and what it gives depends on the text alone.
#[verifier::external_body]
pub(crate) fn parse_json(text: &str) -> (r: Option<Json>)
    ensures
        owned_view(r) == json_parse(text@),
{
    serde_json::from_str::<Value>(text).ok().map(json_of_value)
}

/// Relies on serde_json's `Display` for `Value`, which writes compact JSON text
/// and depends on the value alone.
#[verifier::external_body]
pub(crate) fn render_json(j: &Json) -> (r: Option<String>)
    ensures
        match r {
            Some(t) => json_render(j@) == Some(t@),
            None => json_render(j@) is None,
        },
{
    value_of_json(j).map(|v| v.to_string())
}

} // verus!
