//! The library's model of a JSON document.
//!
//! Response bodies are parsed by `serde_json` behind one trusted function;
//! the parsed document is held as a [`JsonValue`], a plain recursive value
//! that the verified classification logic can read.  A number is kept as its
//! decimal text, so the model carries no floating-point values.

use vstd::prelude::*;

verus! {

/// The mathematical value of a [`JsonValue`].
#[verifier::ext_equal]
pub ghost enum JsonV {
    Null,
    Bool(bool),
    Num(Seq<char>),
    Str(Seq<char>),
    Arr(Seq<JsonV>),
    Obj(Seq<(Seq<char>, JsonV)>),
}

/// A JSON document as a plain value.  Object fields keep their order; a
/// number is kept as its decimal text.
#[derive(Debug, PartialEq, Eq)]
pub enum JsonValue {
    Null,
    Bool(bool),
    Num(String),
    Str(String),
    Arr(Vec<JsonValue>),
    Obj(Vec<(String, JsonValue)>),
}

/// The values of a sequence of JSON documents.
pub open spec fn jview_vec(items: Seq<JsonValue>) -> Seq<JsonV>
    decreases items,
{
    if items.len() == 0 {
        Seq::empty()
    } else {
        seq![jview(items[0])] + jview_vec(items.drop_first())
    }
}

/// The values of a sequence of JSON object fields.
pub open spec fn jview_fields(fields: Seq<(String, JsonValue)>) -> Seq<(Seq<char>, JsonV)>
    decreases fields,
{
    if fields.len() == 0 {
        Seq::empty()
    } else {
        seq![(fields[0].0@, jview(fields[0].1))] + jview_fields(fields.drop_first())
    }
}

/// The value of a JSON document.
pub open spec fn jview(v: JsonValue) -> JsonV
    decreases v,
{
    match v {
        JsonValue::Null => JsonV::Null,
        JsonValue::Bool(b) => JsonV::Bool(b),
        JsonValue::Num(s) => JsonV::Num(s@),
        JsonValue::Str(s) => JsonV::Str(s@),
        JsonValue::Arr(items) => JsonV::Arr(jview_vec(items@)),
        JsonValue::Obj(fields) => JsonV::Obj(jview_fields(fields@)),
    }
}

impl View for JsonValue {
    type V = JsonV;

    open spec fn view(&self) -> JsonV {
        jview(*self)
    }
}

/// `jview_vec` maps the sequence elementwise.
pub proof fn lemma_jview_vec_index(items: Seq<JsonValue>, i: int)
    requires
        0 <= i < items.len(),
    ensures
        jview_vec(items).len() == items.len(),
        jview_vec(items)[i] == jview(items[i]),
    decreases items.len(),
{
    if i > 0 {
        lemma_jview_vec_index(items.drop_first(), i - 1);
    } else if items.len() > 1 {
        lemma_jview_vec_index(items.drop_first(), 0);
    }
    lemma_jview_vec_len(items);
}

/// `jview_vec` keeps the sequence's length.
pub proof fn lemma_jview_vec_len(items: Seq<JsonValue>)
    ensures
        jview_vec(items).len() == items.len(),
    decreases items.len(),
{
    if items.len() > 0 {
        lemma_jview_vec_len(items.drop_first());
    }
}

/// `jview_fields` maps the field sequence elementwise.
pub proof fn lemma_jview_fields_index(fields: Seq<(String, JsonValue)>, i: int)
    requires
        0 <= i < fields.len(),
    ensures
        jview_fields(fields).len() == fields.len(),
        jview_fields(fields)[i] == (fields[i].0@, jview(fields[i].1)),
    decreases fields.len(),
{
    if i > 0 {
        lemma_jview_fields_index(fields.drop_first(), i - 1);
    }
    lemma_jview_fields_len(fields);
}

/// `jview_fields` keeps the field sequence's length.
pub proof fn lemma_jview_fields_len(fields: Seq<(String, JsonValue)>)
    ensures
        jview_fields(fields).len() == fields.len(),
    decreases fields.len(),
{
    if fields.len() > 0 {
        lemma_jview_fields_len(fields.drop_first());
    }
}

impl Clone for JsonValue {
    /// Copies the document; the copy has the same value.
    #[verifier::loop_isolation(false)]
    fn clone(&self) -> (res: Self)
        ensures
            res@ == self@,
        decreases *self,
    {
        match self {
            JsonValue::Null => JsonValue::Null,
            JsonValue::Bool(b) => JsonValue::Bool(*b),
            JsonValue::Num(s) => JsonValue::Num(s.clone()),
            JsonValue::Str(s) => JsonValue::Str(s.clone()),
            JsonValue::Arr(items) => {
                let mut out: Vec<JsonValue> = Vec::new();
                let n = items.len();
                let mut i: usize = 0;
                while i < n
                    invariant
                        n == items.len(),
                        i <= n,
                        out.len() == i,
                        forall|k: int| 0 <= k < i ==> jview(out@[k]) == jview(items@[k]),
                    decreases n - i,
                {
                    proof {
                        vstd::std_specs::vec::axiom_vec_index_decreases(*items, i as int);
                    }
                    out.push(items[i].clone());
                    i = i + 1;
                }
                proof {
                    assert forall|k: int| 0 <= k < n implies jview_vec(out@)[k] == jview_vec(
                        items@,
                    )[k] by {
                        lemma_jview_vec_index(out@, k);
                        lemma_jview_vec_index(items@, k);
                    }
                    lemma_jview_vec_len(out@);
                    lemma_jview_vec_len(items@);
                    assert(jview_vec(out@) =~= jview_vec(items@));
                }
                JsonValue::Arr(out)
            },
            JsonValue::Obj(fields) => {
                let mut out: Vec<(String, JsonValue)> = Vec::new();
                let n = fields.len();
                let mut i: usize = 0;
                while i < n
                    invariant
                        n == fields.len(),
                        i <= n,
                        out.len() == i,
                        forall|k: int|
                            0 <= k < i ==> out@[k].0@ == fields@[k].0@ && jview(out@[k].1) == jview(
                                fields@[k].1,
                            ),
                    decreases n - i,
                {
                    proof {
                        vstd::std_specs::vec::axiom_vec_index_decreases(*fields, i as int);
                    }
                    out.push((fields[i].0.clone(), fields[i].1.clone()));
                    i = i + 1;
                }
                proof {
                    assert forall|k: int| 0 <= k < n implies jview_fields(out@)[k] == jview_fields(
                        fields@,
                    )[k] by {
                        lemma_jview_fields_index(out@, k);
                        lemma_jview_fields_index(fields@, k);
                    }
                    lemma_jview_fields_len(out@);
                    lemma_jview_fields_len(fields@);
                    assert(jview_fields(out@) =~= jview_fields(fields@));
                }
                JsonValue::Obj(out)
            },
        }
    }
}

/// The value of the first field named `key`, if the object has one.
pub open spec fn obj_lookup(fields: Seq<(Seq<char>, JsonV)>, key: Seq<char>) -> Option<JsonV>
    decreases fields.len(),
{
    if fields.len() == 0 {
        None
    } else if fields[0].0 == key {
        Some(fields[0].1)
    } else {
        obj_lookup(fields.drop_first(), key)
    }
}

/// Looks up the first field named `key` in an object's fields.
pub fn obj_get<'a>(fields: &'a Vec<(String, JsonValue)>, key: &str) -> (r: Option<
    &'a JsonValue,
>)
    ensures
        match r {
            Some(v) => obj_lookup(jview_fields(fields@), key@) == Some(jview(*v)),
            None => obj_lookup(jview_fields(fields@), key@) is None,
        },
{
    let ghost fv = jview_fields(fields@);
    let n = fields.len();
    let mut i: usize = 0;
    proof {
        assert(fields@.skip(0) =~= fields@);
    }
    while i < n
        invariant
            n == fields.len(),
            i <= n,
            fv == jview_fields(fields@),
            obj_lookup(fv, key@) == obj_lookup(jview_fields(fields@.skip(i as int)), key@),
        decreases n - i,
    {
        proof {
            assert(fields@.skip(i as int).drop_first() =~= fields@.skip(i as int + 1));
            assert(fields@.skip(i as int)[0] == fields@[i as int]);
            assert(jview_fields(fields@.skip(i as int))[0] == (
                fields@[i as int].0@,
                jview(fields@[i as int].1),
            ));
            assert(jview_fields(fields@.skip(i as int)).drop_first() =~= jview_fields(
                fields@.skip(i as int + 1),
            )) by {
                assert(jview_fields(fields@.skip(i as int)) == seq![
                    (fields@[i as int].0@, jview(fields@[i as int].1)),
                ] + jview_fields(fields@.skip(i as int).drop_first()));
            }
        }
        if crate::text::str_eq(fields[i].0.as_str(), key) {
            return Some(&fields[i].1);
        }
        i = i + 1;
    }
    proof {
        assert(fields@.skip(n as int) =~= Seq::<(String, JsonValue)>::empty());
    }
    None
}

// What parsing `bytes` as a JSON document yields: the document's value, or
// None when the bytes are not a single well-formed JSON document.  The
// result is a function of the bytes alone.
pub uninterp spec fn json_of_bytes(bytes: Seq<u8>) -> Option<JsonV>;

/// Declares `serde_json::Value` so that the conversion below may take it;
/// the type stays opaque to the verifier.
#[verifier::external_type_specification]
#[verifier::external_body]
pub struct ExSerdeValue(serde_json::Value);

/// Relies on the public variants of `serde_json::Value`: each variant is
/// moved into the library's model one arm at a time; a number becomes its
/// decimal text through `serde_json::Number::to_string`, and object fields
/// come out in the order `serde_json::Map` iterates them.
#[verifier::external_body]
fn value_model(v: serde_json::Value) -> JsonValue {
    match v {
        serde_json::Value::Null => JsonValue::Null,
        serde_json::Value::Bool(b) => JsonValue::Bool(b),
        serde_json::Value::Number(n) => JsonValue::Num(n.to_string()),
        serde_json::Value::String(s) => JsonValue::Str(s),
        serde_json::Value::Array(a) => JsonValue::Arr(
            a.into_iter().map(value_model).collect(),
        ),
        serde_json::Value::Object(m) => JsonValue::Obj(
            m.into_iter().map(|(k, x)| (k, value_model(x))).collect(),
        ),
    }
}

/// Relies on `serde_json::from_slice::<serde_json::Value>`: it yields the
/// parsed document exactly when `bytes` is one well-formed JSON document —
/// an empty body is not — and its result is determined by the bytes.
#[verifier::external_body]
pub(crate) fn parse_json(bytes: &[u8]) -> (r: Option<JsonValue>)
    ensures
        match r {
            Some(v) => json_of_bytes(bytes@) == Some(v@),
            None => json_of_bytes(bytes@) is None,
        },
{
    serde_json::from_slice::<serde_json::Value>(bytes).ok().map(value_model)
}

} // verus!
