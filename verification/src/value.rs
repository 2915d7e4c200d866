//! The tagged intermediate value that threads through a pipeline.
//!
//! Values are immutable after construction: every operator takes its input by
//! shared reference and returns a new value, so a step can never change what
//! its caller holds.

use vstd::prelude::*;
use crate::jsonval::{JsonModel, JsonValue, json_model_seq, lemma_json_model_seq};

verus! {

broadcast use vstd::std_specs::vec::group_vec_axioms;

/// An intermediate extraction value.
#[derive(Debug, PartialEq)]
pub enum ExtractValueData {
    /// UTF-8 text.
    String(String),
    /// A JSON document.
    Json(JsonValue),
    /// UTF-8 text tagged as parseable HTML, so downstream steps know they
    /// may apply tree selectors.
    Html(String),
    /// An ordered sequence of values.
    Array(Vec<ExtractValueData>),
    /// The empty value.
    Null,
}

/// The mathematical shape of an `ExtractValueData`.
#[verifier::ext_equal]
pub enum ValModel {
    /// UTF-8 text.
    Str(Seq<char>),
    /// A JSON document.
    Json(JsonModel),
    /// Text tagged as HTML.
    Html(Seq<char>),
    /// An ordered sequence of values.
    Arr(Seq<ValModel>),
    /// The empty value.
    Null,
}

impl ExtractValueData {
    /// The mathematical value this one denotes.
    pub open spec fn model(self) -> ValModel
        decreases self, 1int,
    {
        match self {
            ExtractValueData::String(s) => ValModel::Str(s@),
            ExtractValueData::Json(j) => ValModel::Json(j@),
            ExtractValueData::Html(s) => ValModel::Html(s@),
            ExtractValueData::Array(items) => ValModel::Arr(val_model_seq(items@)),
            ExtractValueData::Null => ValModel::Null,
        }
    }
}

impl View for ExtractValueData {
    type V = ValModel;

    open spec fn view(&self) -> ValModel {
        self.model()
    }
}

/// The models of a sequence of values, in order.
pub open spec fn val_model_seq(items: Seq<ExtractValueData>) -> Seq<ValModel>
    decreases items, 0int,
{
    if items.len() == 0 {
        Seq::<ValModel>::empty()
    } else {
        seq![items[0].model()] + val_model_seq(items.skip(1))
    }
}

/// `val_model_seq` maps each value to its model, keeping positions.
pub proof fn lemma_val_model_seq(items: Seq<ExtractValueData>)
    ensures
        val_model_seq(items).len() == items.len(),
        forall|i: int| 0 <= i < items.len() ==> val_model_seq(items)[i] == items[i].model(),
    decreases items.len(),
{
    if items.len() > 0 {
        lemma_val_model_seq(items.skip(1));
        assert forall|i: int| 0 <= i < items.len() implies val_model_seq(items)[i]
            == items[i].model() by {
            if i > 0 {
                assert(val_model_seq(items)[i] == val_model_seq(items.skip(1))[i - 1]);
                assert(items.skip(1)[i - 1] == items[i]);
            }
        }
    }
}

/// Whether a JSON document counts as true in a condition.
pub open spec fn json_truthy(j: JsonModel) -> bool {
    match j {
        JsonModel::Null => false,
        JsonModel::Bool(b) => b,
        JsonModel::Num(_) => true,
        JsonModel::Str(s) => s.len() > 0,
        JsonModel::Arr(items) => items.len() > 0,
        JsonModel::Obj(_) => true,
    }
}

/// Whether a value counts as true in a condition: non-empty text, a
/// non-empty array, or JSON that is neither `null`, `false`, the empty
/// string nor the empty array.
pub open spec fn val_truthy(v: ValModel) -> bool {
    match v {
        ValModel::Null => false,
        ValModel::Str(s) => s.len() > 0,
        ValModel::Html(s) => s.len() > 0,
        ValModel::Arr(items) => items.len() > 0,
        ValModel::Json(j) => json_truthy(j),
    }
}

/// Whether a value counts as empty for the field engine: the empty value,
/// empty text, an empty array, or JSON `null`.
pub open spec fn val_empty(v: ValModel) -> bool {
    match v {
        ValModel::Null => true,
        ValModel::Str(s) => s.len() == 0,
        ValModel::Html(s) => s.len() == 0,
        ValModel::Arr(items) => items.len() == 0,
        ValModel::Json(j) => j is Null,
    }
}

/// The JSON document a value exports to.
pub open spec fn val_to_json(v: ValModel) -> JsonModel
    decreases v, 1int,
{
    match v {
        ValModel::Str(s) => JsonModel::Str(s),
        ValModel::Json(j) => j,
        ValModel::Html(s) => JsonModel::Str(s),
        ValModel::Arr(items) => JsonModel::Arr(val_to_json_seq(items)),
        ValModel::Null => JsonModel::Null,
    }
}

/// The JSON documents of a sequence of values, in order.
pub open spec fn val_to_json_seq(items: Seq<ValModel>) -> Seq<JsonModel>
    decreases items, 0int,
{
    if items.len() == 0 {
        Seq::<JsonModel>::empty()
    } else {
        seq![val_to_json(items[0])] + val_to_json_seq(items.skip(1))
    }
}

/// `val_to_json_seq` maps each value to its document, keeping positions.
pub proof fn lemma_val_to_json_seq(items: Seq<ValModel>)
    ensures
        val_to_json_seq(items).len() == items.len(),
        forall|i: int| 0 <= i < items.len() ==> val_to_json_seq(items)[i] == val_to_json(items[i]),
    decreases items.len(),
{
    if items.len() > 0 {
        lemma_val_to_json_seq(items.skip(1));
        assert forall|i: int| 0 <= i < items.len() implies val_to_json_seq(items)[i]
            == val_to_json(items[i]) by {
            if i > 0 {
                assert(val_to_json_seq(items)[i] == val_to_json_seq(items.skip(1))[i - 1]);
                assert(items.skip(1)[i - 1] == items[i]);
            }
        }
    }
}

/// The value a JSON document builds: strings stay strings, arrays stay
/// arrays, everything else is carried as JSON.
pub open spec fn json_to_val(j: JsonModel) -> ValModel
    decreases j, 1int,
{
    match j {
        JsonModel::Str(s) => ValModel::Str(s),
        JsonModel::Arr(items) => ValModel::Arr(json_to_val_seq(items)),
        JsonModel::Null => ValModel::Json(JsonModel::Null),
        JsonModel::Bool(b) => ValModel::Json(JsonModel::Bool(b)),
        JsonModel::Num(s) => ValModel::Json(JsonModel::Num(s)),
        JsonModel::Obj(entries) => ValModel::Json(JsonModel::Obj(entries)),
    }
}

/// The values of a sequence of JSON documents, in order.
pub open spec fn json_to_val_seq(items: Seq<JsonModel>) -> Seq<ValModel>
    decreases items, 0int,
{
    if items.len() == 0 {
        Seq::<ValModel>::empty()
    } else {
        seq![json_to_val(items[0])] + json_to_val_seq(items.skip(1))
    }
}

/// `json_to_val_seq` maps each document to its value, keeping positions.
pub proof fn lemma_json_to_val_seq(items: Seq<JsonModel>)
    ensures
        json_to_val_seq(items).len() == items.len(),
        forall|i: int| 0 <= i < items.len() ==> json_to_val_seq(items)[i] == json_to_val(items[i]),
    decreases items.len(),
{
    if items.len() > 0 {
        lemma_json_to_val_seq(items.skip(1));
        assert forall|i: int| 0 <= i < items.len() implies json_to_val_seq(items)[i]
            == json_to_val(items[i]) by {
            if i > 0 {
                assert(json_to_val_seq(items)[i] == json_to_val_seq(items.skip(1))[i - 1]);
                assert(items.skip(1)[i - 1] == items[i]);
            }
        }
    }
}

impl ExtractValueData {
    /// The text of a `String` or `Html` value.
    pub fn as_str(&self) -> (r: Option<&str>)
        ensures
            match r {
                Some(s) => (self@ is Str || self@ is Html) && s@ == val_text(self@),
                None => !(self@ is Str) && !(self@ is Html),
            },
    {
        match self {
            ExtractValueData::String(s) => Some(s.as_str()),
            ExtractValueData::Html(h) => Some(h.as_str()),
            _ => None,
        }
    }

    /// The document of a `Json` value.
    pub fn as_json_ref(&self) -> (r: Option<&JsonValue>)
        ensures
            match r {
                Some(j) => self@ == ValModel::Json(j@),
                None => !(self@ is Json),
            },
    {
        match self {
            ExtractValueData::Json(j) => Some(j),
            _ => None,
        }
    }

    /// The items of an `Array` value.
    pub fn as_array_slice(&self) -> (r: Option<&Vec<ExtractValueData>>)
        ensures
            match r {
                Some(items) => self@ == ValModel::Arr(val_model_seq(items@)),
                None => !(self@ is Arr),
            },
    {
        match self {
            ExtractValueData::Array(items) => Some(items),
            _ => None,
        }
    }

    /// Whether the value counts as empty for the field engine.
    pub fn is_empty(&self) -> (r: bool)
        ensures
            r == val_empty(self@),
    {
        match self {
            ExtractValueData::String(s) => s.as_str().unicode_len() == 0,
            ExtractValueData::Json(j) => matches!(j, JsonValue::Null),
            ExtractValueData::Html(h) => h.as_str().unicode_len() == 0,
            ExtractValueData::Array(items) => {
                proof {
                    lemma_val_model_seq(items@);
                }
                items.len() == 0
            },
            ExtractValueData::Null => true,
        }
    }

    /// Whether the value is an array.
    pub fn is_array(&self) -> (r: bool)
        ensures
            r == (self@ is Arr),
    {
        matches!(self, ExtractValueData::Array(_))
    }

    /// Whether the value counts as true in a condition.
    pub fn is_truthy(&self) -> (r: bool)
        ensures
            r == val_truthy(self@),
    {
        match self {
            ExtractValueData::Null => false,
            ExtractValueData::String(s) => s.as_str().unicode_len() > 0,
            ExtractValueData::Html(h) => h.as_str().unicode_len() > 0,
            ExtractValueData::Array(items) => {
                proof {
                    lemma_val_model_seq(items@);
                }
                items.len() > 0
            },
            ExtractValueData::Json(j) => {
                match j {
                    JsonValue::Null => false,
                    JsonValue::Bool(b) => *b,
                    JsonValue::Num(_) => true,
                    JsonValue::Str(s) => s.as_str().unicode_len() > 0,
                    JsonValue::Arr(items) => {
                        proof {
                            lemma_json_model_seq(items@);
                        }
                        items.len() > 0
                    },
                    JsonValue::Obj(_) => true,
                }
            },
        }
    }
}

/// The text a `Str` or `Html` model carries.
pub open spec fn val_text(v: ValModel) -> Seq<char> {
    match v {
        ValModel::Str(s) => s,
        ValModel::Html(s) => s,
        _ => Seq::<char>::empty(),
    }
}

impl Default for ExtractValueData {
    /// The default value is the empty value.
    fn default() -> (r: Self)
        ensures
            r@ == ValModel::Null,
    {
        ExtractValueData::Null
    }
}


fn val_items_to_json(items: &Vec<ExtractValueData>, i: usize) -> (out: Vec<JsonValue>)
    requires
        i <= items@.len(),
    ensures
        out@.len() == items@.len() - i,
        forall|k: int| 0 <= k < out@.len() ==> #[trigger] out@[k]@ == val_to_json(items@[i + k]@),
    decreases *items, 0int, items@.len() - i,
{
    if i == items.len() {
        Vec::new()
    } else {
        proof {
            assert(decreases_to!(*items => items@[i as int]));
        }
        let mut rest = val_items_to_json(items, i + 1);
        rest.insert(0, items[i].to_owned_json());
        rest
    }
}

fn json_items_to_val(items: &Vec<JsonValue>, i: usize) -> (out: Vec<ExtractValueData>)
    requires
        i <= items@.len(),
    ensures
        out@.len() == items@.len() - i,
        forall|k: int| 0 <= k < out@.len() ==> #[trigger] out@[k]@ == json_to_val(items@[i + k]@),
    decreases *items, 0int, items@.len() - i,
{
    if i == items.len() {
        Vec::new()
    } else {
        proof {
            assert(decreases_to!(*items => items@[i as int]));
        }
        let mut rest = json_items_to_val(items, i + 1);
        rest.insert(0, ExtractValueData::from_json(&items[i]));
        rest
    }
}

fn clone_val_items(items: &Vec<ExtractValueData>, i: usize) -> (out: Vec<ExtractValueData>)
    requires
        i <= items@.len(),
    ensures
        out@.len() == items@.len() - i,
        forall|k: int| 0 <= k < out@.len() ==> #[trigger] out@[k]@ == items@[i + k]@,
    decreases *items, 0int, items@.len() - i,
{
    if i == items.len() {
        Vec::new()
    } else {
        proof {
            assert(decreases_to!(*items => items@[i as int]));
        }
        let mut rest = clone_val_items(items, i + 1);
        rest.insert(0, items[i].clone());
        rest
    }
}

impl ExtractValueData {
    /// A deep copy of the value as an owned JSON document; arrays export
    /// their items in order, HTML exports as its text.
    pub fn to_owned_json(&self) -> (r: JsonValue)
        ensures
            r@ == val_to_json(self@),
        decreases *self, 1int, 0int,
    {
        match self {
            ExtractValueData::String(s) => JsonValue::Str(s.clone()),
            ExtractValueData::Json(j) => j.clone(),
            ExtractValueData::Html(h) => JsonValue::Str(h.clone()),
            ExtractValueData::Array(items) => {
                let out = val_items_to_json(items, 0);
                let r = JsonValue::Arr(out);
                proof {
                    lemma_json_model_seq(out@);
                    lemma_val_model_seq(items@);
                    lemma_val_to_json_seq(val_model_seq(items@));
                    assert forall|k: int| 0 <= k < items@.len()
                        implies json_model_seq(out@)[k]
                            == val_to_json_seq(val_model_seq(items@))[k] by {
                        assert(out@[k]@ == val_to_json(items@[k]@));
                    }
                    assert(json_model_seq(out@) =~= val_to_json_seq(val_model_seq(items@)));
                }
                r
            },
            ExtractValueData::Null => JsonValue::Null,
        }
    }

    /// The value a JSON document builds: a string scalar becomes text, an
    /// array becomes an array of values, everything else is carried as JSON.
    pub fn from_json(value: &JsonValue) -> (r: Self)
        ensures
            r@ == json_to_val(value@),
        decreases *value, 1int, 0int,
    {
        match value {
            JsonValue::Str(s) => ExtractValueData::String(s.clone()),
            JsonValue::Arr(items) => {
                let out = json_items_to_val(items, 0);
                let r = ExtractValueData::Array(out);
                proof {
                    lemma_val_model_seq(out@);
                    lemma_json_model_seq(items@);
                    lemma_json_to_val_seq(json_model_seq(items@));
                    assert forall|k: int| 0 <= k < items@.len()
                        implies val_model_seq(out@)[k]
                            == json_to_val_seq(json_model_seq(items@))[k] by {
                        assert(out@[k]@ == json_to_val(items@[k]@));
                    }
                    assert(val_model_seq(out@) =~= json_to_val_seq(json_model_seq(items@)));
                }
                r
            },
            JsonValue::Null => ExtractValueData::Json(JsonValue::Null),
            JsonValue::Bool(b) => ExtractValueData::Json(JsonValue::Bool(*b)),
            JsonValue::Num(s) => ExtractValueData::Json(JsonValue::Num(s.clone())),
            JsonValue::Obj(_) => ExtractValueData::Json(value.clone()),
        }
    }
}

impl Clone for ExtractValueData {
    /// A clone denotes the same value.
    fn clone(&self) -> (r: Self)
        ensures
            r@ == self@,
        decreases *self, 1int, 0int,
    {
        match self {
            ExtractValueData::String(s) => ExtractValueData::String(s.clone()),
            ExtractValueData::Json(j) => ExtractValueData::Json(j.clone()),
            ExtractValueData::Html(h) => ExtractValueData::Html(h.clone()),
            ExtractValueData::Array(items) => {
                let out = clone_val_items(items, 0);
                let r = ExtractValueData::Array(out);
                proof {
                    lemma_val_model_seq(out@);
                    lemma_val_model_seq(items@);
                    assert forall|k: int| 0 <= k < items@.len()
                        implies val_model_seq(out@)[k] == val_model_seq(items@)[k] by {
                        assert(out@[k]@ == items@[k]@);
                    }
                    assert(val_model_seq(out@) =~= val_model_seq(items@));
                }
                r
            },
            ExtractValueData::Null => ExtractValueData::Null,
        }
    }
}

} // verus!
