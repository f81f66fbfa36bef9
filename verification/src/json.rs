//! A JSON value tree, and its mathematical model.
//!
//! The trace model carries open-ended JSON values (tag values, extra
//! indexed fields of a log record). They are held as a tree of plain
//! values; numbers that are neither unsigned nor signed integers are
//! carried as their literal text, so no value of the tree is a float.

use vstd::prelude::*;

verus! {

broadcast use vstd::std_specs::vec::axiom_vec_index_decreases;

/// A JSON value, held as plain data.
#[derive(Debug)]
pub enum JsonValue {
    Null,
    Bool(bool),
    /// An unsigned integer number.
    UInt(u64),
    /// A negative integer number.
    Int(i64),
    /// Any other number, carried as its literal text.
    NumText(String),
    Str(String),
    Arr(Vec<JsonValue>),
    Obj(Vec<(String, JsonValue)>),
}

/// The mathematical model of a JSON value.
pub enum SpecJson {
    Null,
    Bool(bool),
    UInt(u64),
    Int(i64),
    NumText(Seq<char>),
    Str(Seq<char>),
    Arr(Seq<SpecJson>),
    Obj(Seq<(Seq<char>, SpecJson)>),
}

/// The model of a JSON value: each string becomes its character
/// sequence, each array or object its sequence of modelled members.
pub open spec fn json_view(v: JsonValue) -> SpecJson
    decreases v,
{
    match v {
        JsonValue::Null => SpecJson::Null,
        JsonValue::Bool(b) => SpecJson::Bool(b),
        JsonValue::UInt(n) => SpecJson::UInt(n),
        JsonValue::Int(n) => SpecJson::Int(n),
        JsonValue::NumText(s) => SpecJson::NumText(s@),
        JsonValue::Str(s) => SpecJson::Str(s@),
        JsonValue::Arr(a) => SpecJson::Arr(json_arr_view(a, 0)),
        JsonValue::Obj(f) => SpecJson::Obj(json_obj_view(f, 0)),
    }
}

/// The models of the members of `a` from index `i` on.
pub open spec fn json_arr_view(a: Vec<JsonValue>, i: int) -> Seq<SpecJson>
    decreases a, a.len() - i,
{
    if i < 0 || i >= a.len() {
        Seq::empty()
    } else {
        seq![json_view(a[i])] + json_arr_view(a, i + 1)
    }
}

/// The models of the fields of `f` from index `i` on.
pub open spec fn json_obj_view(f: Vec<(String, JsonValue)>, i: int) -> Seq<(Seq<char>, SpecJson)>
    decreases f, f.len() - i,
{
    if i < 0 || i >= f.len() {
        Seq::empty()
    } else {
        seq![(f[i].0@, json_view(f[i].1))] + json_obj_view(f, i + 1)
    }
}

/// An array's model is the deep view of its member vector.
pub proof fn lemma_arr_view_is_deep(a: Vec<JsonValue>)
    ensures
        json_arr_view(a, 0) == a.deep_view(),
{
    lemma_json_arr_view(a, 0);
    assert(json_arr_view(a, 0) =~= a.deep_view());
}

/// An object's model is the deep view of its field vector.
pub proof fn lemma_obj_view_is_deep(f: Vec<(String, JsonValue)>)
    ensures
        json_obj_view(f, 0) == f.deep_view(),
{
    lemma_json_obj_view(f, 0);
    assert(json_obj_view(f, 0) =~= f.deep_view());
}

impl DeepView for JsonValue {
    type V = SpecJson;

    open spec fn deep_view(&self) -> SpecJson {
        json_view(*self)
    }
}

/// An array's model lists the models of its members, in order.
pub proof fn lemma_json_arr_view(a: Vec<JsonValue>, i: int)
    requires
        0 <= i <= a.len(),
    ensures
        json_arr_view(a, i).len() == a.len() - i,
        forall|j: int| 0 <= j < a.len() - i ==> json_arr_view(a, i)[j] == json_view(a[i + j]),
    decreases a.len() - i,
{
    if i < a.len() {
        lemma_json_arr_view(a, i + 1);
    }
}

/// An object's model lists the models of its fields, in order.
pub proof fn lemma_json_obj_view(f: Vec<(String, JsonValue)>, i: int)
    requires
        0 <= i <= f.len(),
    ensures
        json_obj_view(f, i).len() == f.len() - i,
        forall|j: int|
            0 <= j < f.len() - i ==> json_obj_view(f, i)[j] == (f[i + j].0@, json_view(f[i + j].1)),
    decreases f.len() - i,
{
    if i < f.len() {
        lemma_json_obj_view(f, i + 1);
    }
}

} // verus!
