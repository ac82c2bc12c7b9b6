//! JSON values as the library reads and writes them, parsed and printed by serde_json.
use vstd::prelude::*;
use crate::text::{chars_eq, str_chars, string_views};
use crate::urls::opt_view;

verus! {

/// A number as serde_json holds it: the text it prints, and the value where
/// it is an integer that fits.
#[derive(Debug, Clone)]
pub struct JsonNumber {
    pub text: String,
    pub as_u64: Option<u64>,
    pub as_i64: Option<i64>,
}

/// A JSON value.
#[derive(Debug)]
pub enum Json {
    Null,
    Bool(bool),
    Number(JsonNumber),
    Str(String),
    Array(Vec<Json>),
    Object(Vec<(String, Json)>),
}

/// A JSON value with its texts as character sequences.
pub enum JsonV {
    Null,
    Bool(bool),
    Number(Seq<char>, Option<u64>, Option<i64>),
    Str(Seq<char>),
    Array(Seq<JsonV>),
    Object(Seq<(Seq<char>, JsonV)>),
}

pub open spec fn jv(j: Json) -> JsonV
    decreases j,
{
    match j {
        Json::Null => JsonV::Null,
        Json::Bool(b) => JsonV::Bool(b),
        Json::Number(n) => JsonV::Number(n.text@, n.as_u64, n.as_i64),
        Json::Str(s) => JsonV::Str(s@),
        Json::Array(a) => JsonV::Array(
            Seq::new(
                a@.len(),
                |i: int|
                    if 0 <= i < a@.len() {
                        jv(a@[i])
                    } else {
                        JsonV::Null
                    },
            ),
        ),
        Json::Object(o) => JsonV::Object(
            Seq::new(
                o@.len(),
                |i: int|
                    if 0 <= i < o@.len() {
                        (o@[i].0@, jv(o@[i].1))
                    } else {
                        (Seq::<char>::empty(), JsonV::Null)
                    },
            ),
        ),
    }
}

pub open spec fn opt_jv(o: Option<Json>) -> Option<JsonV> {
    match o {
        Some(j) => Some(jv(j)),
        None => None,
    }
}

/// What `serde_json::from_str::<serde_json::Value>` makes of a text: `None`
/// where the text is not one JSON value.
pub uninterp spec fn json_parse(text: Seq<char>) -> Option<JsonV>;

/// The compact text `serde_json::to_string` writes for a value.
pub uninterp spec fn json_text(v: JsonV) -> Seq<char>;

#[verifier::external_type_specification]
#[verifier::external_body]
pub struct ExJsonValue(serde_json::Value);

/// Copies a `serde_json::Value` into the library's own form, one variant for
/// one variant; numbers keep the text serde_json prints for them and their
/// integer values. No contract: [`parse_json`] states the result.
#[verifier::external_body]
fn value_to_json(v: &serde_json::Value) -> Json {
    match v {
        serde_json::Value::Null => Json::Null,
        serde_json::Value::Bool(b) => Json::Bool(*b),
        serde_json::Value::Number(n) => Json::Number(
            JsonNumber { text: n.to_string(), as_u64: n.as_u64(), as_i64: n.as_i64() },
        ),
        serde_json::Value::String(s) => Json::Str(s.clone()),
        serde_json::Value::Array(a) => Json::Array(a.iter().map(value_to_json).collect()),
        serde_json::Value::Object(o) => Json::Object(
            o.iter().map(|(k, x)| (k.clone(), value_to_json(x))).collect(),
        ),
    }
}

/// Copies a value of the library's form back into a `serde_json::Value`,
/// variant for variant; a number goes back through its text. No contract:
/// [`json_to_string`] states the result.
#[verifier::external_body]
fn json_to_value(v: &Json) -> serde_json::Value {
    match v {
        Json::Null => serde_json::Value::Null,
        Json::Bool(b) => serde_json::Value::Bool(*b),
        Json::Number(n) => serde_json::from_str(&n.text).unwrap_or(serde_json::Value::Null),
        Json::Str(s) => serde_json::Value::String(s.clone()),
        Json::Array(a) => serde_json::Value::Array(a.iter().map(json_to_value).collect()),
        Json::Object(o) => serde_json::Value::Object(
            o.iter().map(|(k, x)| (k.clone(), json_to_value(x))).collect(),
        ),
    }
}

/// Parses a text with `serde_json::from_str` into a `serde_json::Value` and
/// copies it out. The contract claims only that the result is what
/// serde_json makes of the text, which [`json_parse`] names.
#[verifier::external_body]
pub(crate) fn parse_json(text: &str) -> (r: Option<Json>)
    ensures
        opt_jv(r) == json_parse(text@),
{
    match serde_json::from_str::<serde_json::Value>(text) {
        Ok(v) => Some(value_to_json(&v)),
        Err(_) => None,
    }
}

/// Writes a value with `serde_json::to_string` (which is also what the
/// value's `Display` writes). The contract claims only that the text is what
/// serde_json writes, which [`json_text`] names.
#[verifier::external_body]
pub(crate) fn json_to_string(v: &Json) -> (r: String)
    ensures
        r@ == json_text(jv(*v)),
{
    serde_json::to_string(&json_to_value(v)).unwrap_or_default()
}

/// The value of the first entry named `k`.
pub open spec fn lookup(es: Seq<(Seq<char>, JsonV)>, k: Seq<char>) -> Option<JsonV>
    decreases es.len(),
{
    if es.len() == 0 {
        None
    } else if es[0].0 == k {
        Some(es[0].1)
    } else {
        lookup(es.drop_first(), k)
    }
}

/// `value.get(k)` for a string key: the member of an object, `None` for
/// anything else.
pub open spec fn get(v: JsonV, k: Seq<char>) -> Option<JsonV> {
    match v {
        JsonV::Object(es) => lookup(es, k),
        _ => None,
    }
}

/// `a.or_else(|| b)`.
pub open spec fn or(a: Option<JsonV>, b: Option<JsonV>) -> Option<JsonV> {
    if a is Some {
        a
    } else {
        b
    }
}

pub open spec fn as_str(v: Option<JsonV>) -> Option<Seq<char>> {
    match v {
        Some(JsonV::Str(s)) => Some(s),
        _ => None,
    }
}

pub open spec fn as_u64(v: Option<JsonV>) -> Option<u64> {
    match v {
        Some(JsonV::Number(_, u, _)) => u,
        _ => None,
    }
}

pub open spec fn as_i64(v: Option<JsonV>) -> Option<i64> {
    match v {
        Some(JsonV::Number(_, _, i)) => i,
        _ => None,
    }
}

pub open spec fn entry_views(o: Seq<(String, Json)>) -> Seq<(Seq<char>, JsonV)> {
    Seq::new(o.len(), |i: int| (o[i].0@, jv(o[i].1)))
}

pub proof fn lemma_object_view(o: Vec<(String, Json)>)
    ensures
        jv(Json::Object(o)) == JsonV::Object(entry_views(o@)),
{
    let v = jv(Json::Object(o));
    assert(v is Object);
    let x = v->Object_0;
    assert(x.len() == o@.len());
    assert forall|i: int| 0 <= i < x.len() implies x[i] == entry_views(o@)[i] by {
        assert(x[i] == (o@[i].0@, jv(o@[i].1)));
    }
    assert(x =~= entry_views(o@));
}

pub open spec fn item_views(a: Seq<Json>) -> Seq<JsonV> {
    Seq::new(a.len(), |i: int| jv(a[i]))
}

pub proof fn lemma_array_view(a: Vec<Json>)
    ensures
        jv(Json::Array(a)) == JsonV::Array(item_views(a@)),
{
    let v = jv(Json::Array(a));
    assert(v is Array);
    let x = v->Array_0;
    assert(x.len() == a@.len());
    assert forall|i: int| 0 <= i < x.len() implies x[i] == item_views(a@)[i] by {
        assert(x[i] == jv(a@[i]));
    }
    assert(x =~= item_views(a@));
}

fn lookup_in<'a>(o: &'a Vec<(String, Json)>, k: &str) -> (r: Option<&'a Json>)
    ensures
        opt_jv(match r {
            Some(j) => Some(*j),
            None => None,
        }) == lookup(entry_views(o@), k@),
{
    let key = str_chars(k);
    let mut i: usize = 0;
    assert(entry_views(o@).skip(0) =~= entry_views(o@));
    while i < o.len()
        invariant
            i <= o@.len(),
            key@ == k@,
            lookup(entry_views(o@), k@) == lookup(entry_views(o@).skip(i as int), k@),
        decreases o@.len() - i,
    {
        proof {
            assert(entry_views(o@).skip(i as int)[0] == (o@[i as int].0@, jv(o@[i as int].1)));
            assert(entry_views(o@).skip(i as int).drop_first() =~= entry_views(o@).skip(i + 1));
        }
        if chars_eq(&str_chars(o[i].0.as_str()), &key) {
            return Some(&o[i].1);
        }
        i = i + 1;
    }
    assert(entry_views(o@).skip(o@.len() as int) =~= Seq::<(Seq<char>, JsonV)>::empty());
    None
}

/// `value.get(k)`.
pub fn json_get<'a>(v: &'a Json, k: &str) -> (r: Option<&'a Json>)
    ensures
        opt_jv(match r {
            Some(j) => Some(*j),
            None => None,
        }) == get(jv(*v), k@),
{
    match v {
        Json::Object(o) => {
            proof {
                lemma_object_view(*o);
            }
            lookup_in(o, k)
        },
        _ => None,
    }
}

pub open spec fn opt_ref_jv(r: Option<&Json>) -> Option<JsonV> {
    match r {
        Some(j) => Some(jv(*j)),
        None => None,
    }
}

/// `value.and_then(Value::as_str)`, copied out.
pub fn json_str(v: Option<&Json>) -> (r: Option<String>)
    ensures
        opt_view(r) == as_str(opt_ref_jv(v)),
{
    match v {
        Some(Json::Str(s)) => Some(s.clone()),
        _ => None,
    }
}

/// `value.and_then(Value::as_u64)`.
pub fn json_u64(v: Option<&Json>) -> (r: Option<u64>)
    ensures
        r == as_u64(opt_ref_jv(v)),
{
    match v {
        Some(Json::Number(n)) => n.as_u64,
        _ => None,
    }
}

/// `value.and_then(Value::as_i64)`.
pub fn json_i64(v: Option<&Json>) -> (r: Option<i64>)
    ensures
        r == as_i64(opt_ref_jv(v)),
{
    match v {
        Some(Json::Number(n)) => n.as_i64,
        _ => None,
    }
}

/// The position of the first member named `k`.
pub open spec fn find_key(es: Seq<(Seq<char>, JsonV)>, k: Seq<char>) -> Option<int>
    decreases es.len(),
{
    if es.len() == 0 {
        None
    } else if es[0].0 == k {
        Some(0)
    } else {
        match find_key(es.drop_first(), k) {
            Some(i) => Some(i + 1),
            None => None,
        }
    }
}

pub proof fn lemma_find_key(es: Seq<(Seq<char>, JsonV)>, k: Seq<char>)
    ensures
        match find_key(es, k) {
            Some(i) => 0 <= i < es.len() && es[i].0 == k && lookup(es, k) == Some(es[i].1),
            None => lookup(es, k) is None,
        },
    decreases es.len(),
{
    if es.len() > 0 && es[0].0 != k {
        lemma_find_key(es.drop_first(), k);
    }
}

/// The members of an object; a value of any other kind counts as an empty object.
pub open spec fn members(v: JsonV) -> Seq<(Seq<char>, JsonV)> {
    match v {
        JsonV::Object(es) => es,
        _ => Seq::<(Seq<char>, JsonV)>::empty(),
    }
}

/// The members with `k` set to `v`: in place where `k` is present, else at the end.
pub open spec fn with_member(es: Seq<(Seq<char>, JsonV)>, k: Seq<char>, v: JsonV) -> Seq<
    (Seq<char>, JsonV),
> {
    match find_key(es, k) {
        Some(i) => es.update(i, (k, v)),
        None => es.push((k, v)),
    }
}

/// Sets the member at a path of keys only where it is missing, turning the
/// value at each step into an object when it is not one: the new value, and
/// whether a member was added.
pub open spec fn spec_set_default(node: JsonV, path: Seq<Seq<char>>, value: JsonV) -> (JsonV, bool)
    decreases path.len(),
{
    let es = members(node);
    if path.len() == 0 {
        (JsonV::Object(es), false)
    } else if path.len() == 1 {
        if find_key(es, path[0]) is Some {
            (JsonV::Object(es), false)
        } else {
            (JsonV::Object(es.push((path[0], value))), true)
        }
    } else {
        let child = match lookup(es, path[0]) {
            Some(c) => c,
            None => JsonV::Null,
        };
        let r = spec_set_default(child, path.drop_first(), value);
        (JsonV::Object(with_member(es, path[0], r.0)), r.1)
    }
}

fn find_member(es: &Vec<(String, Json)>, k: &Vec<char>) -> (r: Option<usize>)
    ensures
        match r {
            Some(i) => find_key(entry_views(es@), k@) == Some(i as int),
            None => find_key(entry_views(es@), k@) is None,
        },
{
    let ghost ev = entry_views(es@);
    let mut i: usize = 0;
    assert(ev.skip(0) =~= ev);
    while i < es.len()
        invariant
            i <= es@.len(),
            ev == entry_views(es@),
            forall|j: int| 0 <= j < i ==> (#[trigger] ev[j]).0 != k@,
            find_key(ev, k@) == match find_key(ev.skip(i as int), k@) {
                Some(x) => Some(x + i),
                None => None::<int>,
            },
        decreases es@.len() - i,
    {
        proof {
            assert(ev.skip(i as int)[0] == ev[i as int]);
            assert(ev.skip(i as int).drop_first() =~= ev.skip(i + 1));
        }
        if chars_eq(&str_chars(es[i].0.as_str()), k) {
            return Some(i);
        }
        i = i + 1;
    }
    assert(ev.skip(es@.len() as int) =~= Seq::<(Seq<char>, JsonV)>::empty());
    None
}

/// The members of a value, which is left empty where it is not an object.
pub fn into_members(v: Json) -> (r: Vec<(String, Json)>)
    ensures
        entry_views(r@) == members(jv(v)),
{
    match v {
        Json::Object(es) => {
            proof {
                lemma_object_view(es);
            }
            es
        },
        _ => {
            let r: Vec<(String, Json)> = Vec::new();
            assert(entry_views(r@) =~= Seq::<(Seq<char>, JsonV)>::empty());
            r
        },
    }
}

/// Sets a member at the path `path[start..]` where it is missing.
pub fn set_default(node: Json, path: &Vec<String>, start: usize, value: Json) -> (r: (Json, bool))
    requires
        start <= path@.len(),
    ensures
        (jv(r.0), r.1) == spec_set_default(
            jv(node),
            string_views(path@).skip(start as int),
            jv(value),
        ),
    decreases path@.len() - start,
{
    let ghost p = string_views(path@).skip(start as int);
    let mut es = into_members(node);
    let ghost es0 = entry_views(es@);
    if start == path.len() {
        proof {
            lemma_object_view(es);
        }
        return (Json::Object(es), false);
    }
    assert(p[0] == path@[start as int]@);
    let key = str_chars(path[start].as_str());
    let found = find_member(&es, &key);
    if start + 1 == path.len() {
        match found {
            Some(_) => {
                proof {
                    lemma_object_view(es);
                }
                (Json::Object(es), false)
            },
            None => {
                es.push((path[start].clone(), value));
                proof {
                    assert(entry_views(es@) =~= es0.push((p[0], jv(value))));
                    lemma_object_view(es);
                }
                (Json::Object(es), true)
            },
        }
    } else {
        proof {
            lemma_find_key(es0, p[0]);
            assert(string_views(path@).skip(start + 1) =~= p.drop_first());
        }
        match found {
            Some(i) => {
                let (k, child) = es.remove(i);
                let ghost cv = jv(child);
                assert(cv == es0[i as int].1);
                let (nc, changed) = set_default(child, path, start + 1, value);
                es.insert(i, (k, nc));
                proof {
                    assert(k@ == p[0]);
                    assert(entry_views(es@) =~= es0.update(i as int, (p[0], jv(nc))));
                    lemma_object_view(es);
                }
                (Json::Object(es), changed)
            },
            None => {
                let (nc, changed) = set_default(Json::Null, path, start + 1, value);
                es.push((path[start].clone(), nc));
                proof {
                    assert(entry_views(es@) =~= es0.push((p[0], jv(nc))));
                    lemma_object_view(es);
                }
                (Json::Object(es), changed)
            },
        }
    }
}

/// Takes out the first member named `key`, with its position.
pub fn take_member(es: &mut Vec<(String, Json)>, key: &str) -> (r: Option<(usize, Json)>)
    ensures
        match find_key(entry_views(old(es)@), key@) {
            Some(i) => r matches Some(p) && p.0 == i && jv(p.1) == entry_views(old(es)@)[i].1
                && entry_views(final(es)@) == entry_views(old(es)@).remove(i),
            None => r is None && final(es)@ == old(es)@,
        },
{
    let k = str_chars(key);
    match find_member(es, &k) {
        Some(i) => {
            let ghost before = entry_views(es@);
            proof {
                lemma_find_key(before, key@);
            }
            let (name, v) = es.remove(i);
            assert(entry_views(es@) =~= before.remove(i as int));
            Some((i, v))
        },
        None => None,
    }
}

/// Puts a member back where [`take_member`] found it, or at the end.
pub fn put_member(es: &mut Vec<(String, Json)>, at: Option<usize>, key: &str, v: Json)
    requires
        at matches Some(i) ==> i <= old(es)@.len(),
    ensures
        entry_views(final(es)@) == match at {
            Some(i) => entry_views(old(es)@).insert(i as int, (key@, jv(v))),
            None => entry_views(old(es)@).push((key@, jv(v))),
        },
{
    let ghost before = entry_views(es@);
    match at {
        Some(i) => {
            es.insert(i, (String::from_str(key), v));
            assert(entry_views(es@) =~= before.insert(i as int, (key@, jv(v))));
        },
        None => {
            es.push((String::from_str(key), v));
            assert(entry_views(es@) =~= before.push((key@, jv(v))));
        },
    }
}

pub proof fn lemma_take_put(es: Seq<(Seq<char>, JsonV)>, k: Seq<char>, v: JsonV)
    ensures
        match find_key(es, k) {
            Some(i) => es.remove(i).insert(i, (k, v)) == with_member(es, k, v),
            None => es.push((k, v)) == with_member(es, k, v),
        },
{
    lemma_find_key(es, k);
    match find_key(es, k) {
        Some(i) => {
            assert(es.remove(i).insert(i, (k, v)) =~= es.update(i, (k, v)));
        },
        None => {},
    }
}

/// The value at a path of keys, where each step is an object holding the key.
pub open spec fn path_value(node: JsonV, path: Seq<Seq<char>>) -> Option<JsonV>
    decreases path.len(),
{
    if path.len() == 0 {
        Some(node)
    } else {
        match node {
            JsonV::Object(es) => match lookup(es, path[0]) {
                Some(c) => path_value(c, path.drop_first()),
                None => None,
            },
            _ => None,
        }
    }
}

/// Seeding never overrides: where an object already holds a value at the
/// path, setting a default there changes nothing and reports no addition.
pub proof fn seeding_keeps_present_values(node: JsonV, path: Seq<Seq<char>>, value: JsonV)
    requires
        node is Object,
        path.len() > 0,
        path_value(node, path) is Some,
    ensures
        spec_set_default(node, path, value) == (node, false),
    decreases path.len(),
{
    let es = members(node);
    lemma_find_key(es, path[0]);
    if path.len() > 1 {
        let i = find_key(es, path[0])->0;
        let child = es[i].1;
        assert(path_value(child, path.drop_first()) is Some);
        assert(child is Object) by {
            if !(child is Object) {
                assert(path.drop_first().len() > 0);
            }
        }
        seeding_keeps_present_values(child, path.drop_first(), value);
        assert(with_member(es, path[0], child) =~= es) by {
            assert(es[i] == (path[0], child));
        }
    }
}

} // verus!
