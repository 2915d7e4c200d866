//! An owned JSON document: the literal payload of `Const` steps, extractor
//! defaults, context variables and component inputs.
//!
//! Numbers keep their decimal lexeme, so a document round-trips through the
//! serializer unchanged and no floating point arithmetic is ever performed.

use vstd::prelude::*;
use crate::text::{digit_of, is_digit_char};

verus! {

broadcast use vstd::std_specs::vec::group_vec_axioms;

/// A JSON value, numbers kept as their decimal lexeme.
#[derive(Debug, PartialEq)]
pub enum JsonValue {
    /// JSON `null`.
    Null,
    /// A boolean.
    Bool(bool),
    /// A number, as the text of its literal.
    Num(String),
    /// A string.
    Str(String),
    /// An array.
    Arr(Vec<JsonValue>),
    /// An object: field names in document order with their values.
    Obj(Vec<(String, JsonValue)>),
}

/// The mathematical shape of a `JsonValue`.
#[verifier::ext_equal]
pub enum JsonModel {
    /// JSON `null`.
    Null,
    /// A boolean.
    Bool(bool),
    /// A number lexeme.
    Num(Seq<char>),
    /// A string.
    Str(Seq<char>),
    /// An array.
    Arr(Seq<JsonModel>),
    /// An object.
    Obj(Seq<(Seq<char>, JsonModel)>),
}

impl JsonValue {
    /// The mathematical value this document denotes.
    pub open spec fn model(self) -> JsonModel
        decreases self, 1int,
    {
        match self {
            JsonValue::Null => JsonModel::Null,
            JsonValue::Bool(b) => JsonModel::Bool(b),
            JsonValue::Num(s) => JsonModel::Num(s@),
            JsonValue::Str(s) => JsonModel::Str(s@),
            JsonValue::Arr(items) => JsonModel::Arr(json_model_seq(items@)),
            JsonValue::Obj(entries) => JsonModel::Obj(json_model_entries(entries@)),
        }
    }
}

/// The models of a sequence of documents, in order.
pub open spec fn json_model_seq(items: Seq<JsonValue>) -> Seq<JsonModel>
    decreases items, 0int,
{
    if items.len() == 0 {
        Seq::<JsonModel>::empty()
    } else {
        seq![items[0].model()] + json_model_seq(items.skip(1))
    }
}

/// The models of a sequence of object entries, in order.
pub open spec fn json_model_entries(entries: Seq<(String, JsonValue)>) -> Seq<(Seq<char>, JsonModel)>
    decreases entries, 0int,
{
    if entries.len() == 0 {
        Seq::<(Seq<char>, JsonModel)>::empty()
    } else {
        seq![(entries[0].0@, entries[0].1.model())] + json_model_entries(entries.skip(1))
    }
}

/// `json_model_seq` maps each document to its model, keeping positions.
pub proof fn lemma_json_model_seq(items: Seq<JsonValue>)
    ensures
        json_model_seq(items).len() == items.len(),
        forall|i: int| 0 <= i < items.len() ==> json_model_seq(items)[i] == items[i].model(),
    decreases items.len(),
{
    if items.len() > 0 {
        lemma_json_model_seq(items.skip(1));
        assert forall|i: int| 0 <= i < items.len() implies json_model_seq(items)[i] == items[i].model() by {
            if i > 0 {
                assert(json_model_seq(items)[i] == json_model_seq(items.skip(1))[i - 1]);
                assert(items.skip(1)[i - 1] == items[i]);
            }
        }
    }
}

/// `json_model_entries` maps each entry to its model, keeping positions.
pub proof fn lemma_json_model_entries(entries: Seq<(String, JsonValue)>)
    ensures
        json_model_entries(entries).len() == entries.len(),
        forall|i: int| 0 <= i < entries.len() ==> json_model_entries(entries)[i]
            == (entries[i].0@, entries[i].1.model()),
    decreases entries.len(),
{
    if entries.len() > 0 {
        lemma_json_model_entries(entries.skip(1));
        assert forall|i: int| 0 <= i < entries.len() implies json_model_entries(entries)[i]
            == (entries[i].0@, entries[i].1.model()) by {
            if i > 0 {
                assert(json_model_entries(entries)[i] == json_model_entries(entries.skip(1))[i - 1]);
                assert(entries.skip(1)[i - 1] == entries[i]);
            }
        }
    }
}

impl View for JsonValue {
    type V = JsonModel;

    open spec fn view(&self) -> JsonModel {
        self.model()
    }
}

pub(crate) fn clone_json_items(items: &Vec<JsonValue>, i: usize) -> (out: Vec<JsonValue>)
    requires
        i <= items@.len(),
    ensures
        out@.len() == items@.len() - i,
        forall|k: int| 0 <= k < out@.len() ==> #[trigger] out@[k].model() == items@[i + k].model(),
    decreases *items, items@.len() - i,
{
    if i == items.len() {
        Vec::new()
    } else {
        proof {
            assert(decreases_to!(*items => items@[i as int]));
        }
        let mut rest = clone_json_items(items, i + 1);
        rest.insert(0, items[i].clone());
        rest
    }
}

pub(crate) fn clone_json_entries(entries: &Vec<(String, JsonValue)>, i: usize) -> (out: Vec<(String, JsonValue)>)
    requires
        i <= entries@.len(),
    ensures
        out@.len() == entries@.len() - i,
        forall|k: int| 0 <= k < out@.len() ==> #[trigger] out@[k].0@ == entries@[i + k].0@
            && out@[k].1.model() == entries@[i + k].1.model(),
    decreases *entries, entries@.len() - i,
{
    if i == entries.len() {
        Vec::new()
    } else {
        proof {
            assert(decreases_to!(*entries => entries@[i as int]));
            assert(decreases_to!(entries@[i as int] => entries@[i as int].1));
        }
        let mut rest = clone_json_entries(entries, i + 1);
        let pair = &entries[i];
        rest.insert(0, (pair.0.clone(), pair.1.clone()));
        rest
    }
}

impl Clone for JsonValue {
    /// A clone denotes the same document.
    fn clone(&self) -> (r: Self)
        ensures
            r@ == self@,
        decreases self,
    {
        match self {
            JsonValue::Null => JsonValue::Null,
            JsonValue::Bool(b) => JsonValue::Bool(*b),
            JsonValue::Num(s) => JsonValue::Num(s.clone()),
            JsonValue::Str(s) => JsonValue::Str(s.clone()),
            JsonValue::Arr(items) => {
                let out = clone_json_items(items, 0);
                let r = JsonValue::Arr(out);
                proof {
                    lemma_json_model_seq(out@);
                    lemma_json_model_seq(items@);
                    assert(json_model_seq(out@) =~= json_model_seq(items@));
                }
                r
            },
            JsonValue::Obj(entries) => {
                let out = clone_json_entries(entries, 0);
                let r = JsonValue::Obj(out);
                proof {
                    lemma_json_model_entries(out@);
                    lemma_json_model_entries(entries@);
                    assert forall|k: int| 0 <= k < entries@.len()
                        implies json_model_entries(out@)[k] == json_model_entries(entries@)[k] by {
                        assert(out@[k].0@ == entries@[k].0@);
                        assert(out@[k].1.model() == entries@[k].1.model());
                    }
                    assert(json_model_entries(out@) =~= json_model_entries(entries@));
                }
                r
            },
        }
    }
}

/// The hexadecimal digit for a value below sixteen, lower case.
pub open spec fn hex_digit_of(d: nat) -> char {
    if d < 10 {
        digit_of(d)
    } else if d == 10 { 'a' }
    else if d == 11 { 'b' }
    else if d == 12 { 'c' }
    else if d == 13 { 'd' }
    else if d == 14 { 'e' }
    else { 'f' }
}

/// How one character appears inside a JSON string literal.
pub open spec fn escape_json_char(c: char) -> Seq<char> {
    if c == '"' {
        seq!['\\', '"']
    } else if c == '\\' {
        seq!['\\', '\\']
    } else if c == '\u{0008}' {
        seq!['\\', 'b']
    } else if c == '\u{000C}' {
        seq!['\\', 'f']
    } else if c == '\n' {
        seq!['\\', 'n']
    } else if c == '\r' {
        seq!['\\', 'r']
    } else if c == '\t' {
        seq!['\\', 't']
    } else if (c as nat) < 0x20 {
        seq!['\\', 'u', '0', '0', hex_digit_of((c as nat) / 16), hex_digit_of((c as nat) % 16)]
    } else {
        seq![c]
    }
}

/// A string's characters as they appear inside a JSON string literal.
pub open spec fn escape_json(s: Seq<char>) -> Seq<char>
    decreases s.len(),
{
    if s.len() == 0 {
        Seq::<char>::empty()
    } else {
        escape_json_char(s[0]) + escape_json(s.skip(1))
    }
}

/// The canonical compact JSON rendering of a document.
pub open spec fn json_text(j: JsonModel) -> Seq<char>
    decreases j, 1int,
{
    match j {
        JsonModel::Null => "null"@,
        JsonModel::Bool(b) => if b { "true"@ } else { "false"@ },
        JsonModel::Num(s) => s,
        JsonModel::Str(s) => seq!['"'] + escape_json(s) + seq!['"'],
        JsonModel::Arr(items) => seq!['['] + json_text_items(items) + seq![']'],
        JsonModel::Obj(entries) => seq!['{'] + json_text_entries(entries) + seq!['}'],
    }
}

/// Array items rendered with commas between them.
pub open spec fn json_text_items(items: Seq<JsonModel>) -> Seq<char>
    decreases items, 0int,
{
    if items.len() == 0 {
        Seq::<char>::empty()
    } else if items.len() == 1 {
        json_text(items[0])
    } else {
        json_text(items[0]) + seq![','] + json_text_items(items.skip(1))
    }
}

/// Object entries rendered with commas between them.
pub open spec fn json_text_entries(entries: Seq<(Seq<char>, JsonModel)>) -> Seq<char>
    decreases entries, 0int,
{
    if entries.len() == 0 {
        Seq::<char>::empty()
    } else {
        let head = seq!['"'] + escape_json(entries[0].0) + seq!['"', ':'] + json_text(entries[0].1);
        if entries.len() == 1 {
            head
        } else {
            head + seq![','] + json_text_entries(entries.skip(1))
        }
    }
}


/// The hexadecimal digit character for an executable value below sixteen.
pub fn hex_digit_char(d: u32) -> (c: char)
    requires
        d < 16,
    ensures
        c == hex_digit_of(d as nat),
{
    if d == 0 { '0' }
    else if d == 1 { '1' }
    else if d == 2 { '2' }
    else if d == 3 { '3' }
    else if d == 4 { '4' }
    else if d == 5 { '5' }
    else if d == 6 { '6' }
    else if d == 7 { '7' }
    else if d == 8 { '8' }
    else if d == 9 { '9' }
    else if d == 10 { 'a' }
    else if d == 11 { 'b' }
    else if d == 12 { 'c' }
    else if d == 13 { 'd' }
    else if d == 14 { 'e' }
    else { 'f' }
}

fn escape_push(c: char, out: &mut Vec<char>)
    ensures
        final(out)@ == old(out)@ + escape_json_char(c),
{
    if c == '"' {
        out.push('\\');
        out.push('"');
    } else if c == '\\' {
        out.push('\\');
        out.push('\\');
    } else if c == '\u{0008}' {
        out.push('\\');
        out.push('b');
    } else if c == '\u{000C}' {
        out.push('\\');
        out.push('f');
    } else if c == '\n' {
        out.push('\\');
        out.push('n');
    } else if c == '\r' {
        out.push('\\');
        out.push('r');
    } else if c == '\t' {
        out.push('\\');
        out.push('t');
    } else if (c as u32) < 0x20 {
        let v = c as u32;
        out.push('\\');
        out.push('u');
        out.push('0');
        out.push('0');
        out.push(hex_digit_char(v / 16));
        out.push(hex_digit_char(v % 16));
        proof {
            assert((v / 16) as nat == (c as nat) / 16);
            assert((v % 16) as nat == (c as nat) % 16);
            assert(final(out)@ =~= old(out)@ + escape_json_char(c));
        }
    } else {
        out.push(c);
    }
    proof {
        assert(final(out)@ =~= old(out)@ + escape_json_char(c));
    }
}

fn escape_step(v: &Vec<char>, i: usize, out: &mut Vec<char>)
    requires
        i <= v@.len(),
    ensures
        final(out)@ == old(out)@ + escape_json(v@.skip(i as int)),
    decreases v@.len() - i,
{
    if i == v.len() {
        proof {
            assert(v@.skip(i as int).len() == 0);
            assert(final(out)@ =~= old(out)@ + escape_json(v@.skip(i as int)));
        }
    } else {
        escape_push(v[i], out);
        proof {
            assert(v@.skip(i as int)[0] == v@[i as int]);
            assert(v@.skip(i as int).skip(1) =~= v@.skip(i + 1));
        }
        escape_step(v, i + 1, out);
        proof {
            assert(final(out)@ =~= old(out)@ + escape_json(v@.skip(i as int)));
        }
    }
}

fn quoted_push(s: &String, out: &mut Vec<char>)
    ensures
        final(out)@ == old(out)@ + seq!['"'] + escape_json(s@) + seq!['"'],
{
    out.push('"');
    let v = crate::text::str_to_chars(s.as_str());
    proof {
        assert(v@.skip(0) =~= v@);
    }
    escape_step(&v, 0, out);
    out.push('"');
    proof {
        assert(final(out)@ =~= old(out)@ + seq!['"'] + escape_json(s@) + seq!['"']);
    }
}

fn json_items_step(items: &Vec<JsonValue>, i: usize, out: &mut Vec<char>)
    requires
        i <= items@.len(),
    ensures
        final(out)@ == old(out)@ + json_text_items(json_model_seq(items@).skip(i as int)),
    decreases *items, 0int, items@.len() - i,
{
    proof {
        lemma_json_model_seq(items@);
    }
    let ghost m = json_model_seq(items@);
    if i == items.len() {
        proof {
            assert(m.skip(i as int).len() == 0);
            assert(final(out)@ =~= old(out)@ + json_text_items(m.skip(i as int)));
        }
    } else {
        proof {
            assert(decreases_to!(*items => items@[i as int]));
        }
        let part = json_value_text(&items[i]);
        let ghost before = out@;
        let mut k: usize = 0;
        while k < part.len()
            invariant
                k <= part@.len(),
                out@ == before + part@.take(k as int),
            decreases part@.len() - k,
        {
            out.push(part[k]);
            k = k + 1;
            proof {
                assert(out@ =~= before + part@.take(k as int));
            }
        }
        proof {
            assert(out@ =~= old(out)@ + part@);
            assert(m.skip(i as int)[0] == m[i as int]);
            assert(part@ == json_text(items@[i as int].model()));
        }
        if i + 1 == items.len() {
            proof {
                assert(m.skip(i as int).len() == 1);
                assert(json_text_items(m.skip(i as int)) == json_text(m[i as int]));
                assert(final(out)@ =~= old(out)@ + json_text_items(m.skip(i as int)));
            }
        } else {
            out.push(',');
            proof {
                assert(m.skip(i as int).skip(1) =~= m.skip(i + 1));
                assert(m.skip(i as int).len() > 1);
            }
            json_items_step(items, i + 1, out);
            proof {
                assert(final(out)@ =~= old(out)@ + json_text_items(m.skip(i as int)));
            }
        }
    }
}

fn json_entries_step(entries: &Vec<(String, JsonValue)>, i: usize, out: &mut Vec<char>)
    requires
        i <= entries@.len(),
    ensures
        final(out)@ == old(out)@ + json_text_entries(json_model_entries(entries@).skip(i as int)),
    decreases *entries, 0int, entries@.len() - i,
{
    proof {
        lemma_json_model_entries(entries@);
    }
    let ghost m = json_model_entries(entries@);
    if i == entries.len() {
        proof {
            assert(m.skip(i as int).len() == 0);
            assert(final(out)@ =~= old(out)@ + json_text_entries(m.skip(i as int)));
        }
    } else {
        proof {
            assert(decreases_to!(*entries => entries@[i as int]));
            assert(decreases_to!(entries@[i as int] => entries@[i as int].1));
        }
        let pair = &entries[i];
        quoted_push(&pair.0, out);
        out.push(':');
        let part = json_value_text(&pair.1);
        let ghost before = out@;
        let mut k: usize = 0;
        while k < part.len()
            invariant
                k <= part@.len(),
                out@ == before + part@.take(k as int),
            decreases part@.len() - k,
        {
            out.push(part[k]);
            k = k + 1;
            proof {
                assert(out@ =~= before + part@.take(k as int));
            }
        }
        proof {
            assert(out@ =~= before + part@);
            assert(m.skip(i as int)[0] == m[i as int]);
            assert(part@ == json_text(entries@[i as int].1.model()));
        }
        if i + 1 == entries.len() {
            proof {
                assert(m.skip(i as int).len() == 1);
                assert(final(out)@ =~= old(out)@ + json_text_entries(m.skip(i as int)));
            }
        } else {
            out.push(',');
            proof {
                assert(m.skip(i as int).skip(1) =~= m.skip(i + 1));
                assert(m.skip(i as int).len() > 1);
            }
            json_entries_step(entries, i + 1, out);
            proof {
                assert(final(out)@ =~= old(out)@ + json_text_entries(m.skip(i as int)));
            }
        }
    }
}

/// The canonical compact JSON rendering of a document, as characters.
pub fn json_value_text(j: &JsonValue) -> (out: Vec<char>)
    ensures
        out@ == json_text(j@),
    decreases *j, 1int, 0int,
{
    match j {
        JsonValue::Null => crate::text::str_to_chars("null"),
        JsonValue::Bool(b) => {
            if *b {
                crate::text::str_to_chars("true")
            } else {
                crate::text::str_to_chars("false")
            }
        },
        JsonValue::Num(s) => crate::text::str_to_chars(s.as_str()),
        JsonValue::Str(s) => {
            let mut out: Vec<char> = Vec::new();
            quoted_push(s, &mut out);
            proof {
                assert(out@ =~= json_text(j@));
            }
            out
        },
        JsonValue::Arr(items) => {
            let mut out: Vec<char> = Vec::new();
            out.push('[');
            proof {
                assert(json_model_seq(items@).skip(0) =~= json_model_seq(items@));
            }
            json_items_step(items, 0, &mut out);
            out.push(']');
            proof {
                assert(out@ =~= json_text(j@));
            }
            out
        },
        JsonValue::Obj(entries) => {
            let mut out: Vec<char> = Vec::new();
            out.push('{');
            proof {
                assert(json_model_entries(entries@).skip(0) =~= json_model_entries(entries@));
            }
            json_entries_step(entries, 0, &mut out);
            out.push('}');
            proof {
                assert(out@ =~= json_text(j@));
            }
            out
        },
    }
}

/// The canonical compact JSON rendering of a document.
pub fn json_to_string(j: &JsonValue) -> (r: String)
    ensures
        r@ == json_text(j@),
{
    let v = json_value_text(j);
    crate::text::chars_to_string(&v)
}

} // verus!
