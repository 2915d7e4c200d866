//! The step executors: one dispatch over the step union, with an exact
//! mathematical evaluator pinning down what every step produces.
//!
//! Execution is stateless: a step reads its input by shared reference and
//! returns a new value, so the input is observably unchanged afterwards.

use vstd::prelude::*;
use crate::error::{CrawlerError, ErrModel};
use crate::jsonval::{JsonModel, JsonValue};
use crate::text::{parse_i64_spec, split_seq, find_from};
use crate::value::{ExtractValueData, ValModel, val_truthy, json_to_val, val_model_seq, lemma_val_model_seq};
use crate::extract::step::{ExtractStep, StepModel, IndexModel, ConditionModel, ComponentRefModel, FilterModel};
use crate::extract::context::{Context, CtxModel, lookup_binding};
use crate::extract::filter::{eval_filter, res_model};
use crate::extract::selector::{css_select_model, first_tag_attr, htmls_of};

verus! {

use vstd::string::StringExecFns;

broadcast use vstd::std_specs::vec::group_vec_axioms;

/// Every `step`-th item of `[i, end)`, in order.
pub open spec fn stride_items(items: Seq<ValModel>, i: int, end: int, step: int) -> Seq<ValModel>
    decreases end - i,
{
    if !(0 <= i) || i >= end || step < 1 {
        Seq::<ValModel>::empty()
    } else if i >= items.len() {
        Seq::<ValModel>::empty()
    } else {
        let next = if i + step > end { end } else { i + step };
        seq![items[i]] + stride_items(items, next, end, step)
    }
}

/// What an index step produces: one item for a position (a negative one
/// counted from the end, one out of bounds giving the empty value), or a
/// clamped sub-array for a range with a positive stride.
pub open spec fn eval_index(ix: IndexModel, input: ValModel) -> Result<ValModel, ErrModel> {
    match input {
        ValModel::Arr(items) => match ix {
            IndexModel::At(p) => {
                let pos = if p < 0 { items.len() + p } else { p };
                if 0 <= pos < items.len() {
                    Ok(items[pos])
                } else {
                    Ok(ValModel::Null)
                }
            },
            IndexModel::Range { start, end, step } => {
                let st0 = match start {
                    Some(v) => if v < 0 { items.len() + v } else { v },
                    None => 0int,
                };
                let en0 = match end {
                    Some(v) => if v < 0 { items.len() + v } else { v },
                    None => items.len() as int,
                };
                let st = if st0 < 0 { 0int } else if st0 > items.len() { items.len() as int } else { st0 };
                let en = if en0 < 0 { 0int } else if en0 > items.len() { items.len() as int } else { en0 };
                let stp = match step {
                    Some(v) => v,
                    None => 1int,
                };
                if stp < 1 {
                    Err(ErrModel::Extraction("Index step must be positive"@))
                } else {
                    Ok(ValModel::Arr(stride_items(items, st, en, stp)))
                }
            },
        },
        _ => Err(ErrModel::Extraction("Index step requires array input"@)),
    }
}

/// What a CSS step produces: the matching elements of an HTML value, as an
/// array of HTML snippets.
pub open spec fn eval_css(sel: Seq<char>, input: ValModel) -> Result<ValModel, ErrModel> {
    match input {
        ValModel::Html(s) => match css_select_model(sel, s) {
            Some(parts) => Ok(ValModel::Arr(htmls_of(parts))),
            None => Err(ErrModel::Extraction("Invalid CSS selector"@)),
        },
        _ => Err(ErrModel::Extraction("Css step requires HTML input"@)),
    }
}

/// The attribute values found on the first tag of each HTML item; items
/// without the attribute are passed over.
pub open spec fn attr_of_each(items: Seq<ValModel>, attr: Seq<char>) -> Seq<ValModel>
    decreases items.len(),
{
    if items.len() == 0 {
        Seq::<ValModel>::empty()
    } else {
        let rest = attr_of_each(items.skip(1), attr);
        match items[0] {
            ValModel::Html(s) => match first_tag_attr(s, attr, 0) {
                Some(v) => seq![ValModel::Str(v)] + rest,
                None => rest,
            },
            _ => rest,
        }
    }
}

/// What an attribute step produces: the attribute of an HTML value's first
/// tag (the empty value when absent), or the attributes found across an
/// array of HTML values.
pub open spec fn eval_attr(attr: Seq<char>, input: ValModel) -> Result<ValModel, ErrModel> {
    match input {
        ValModel::Html(s) => match first_tag_attr(s, attr, 0) {
            Some(v) => Ok(ValModel::Str(v)),
            None => Ok(ValModel::Null),
        },
        ValModel::Arr(items) => Ok(ValModel::Arr(attr_of_each(items, attr))),
        _ => Err(ErrModel::Extraction("Attr step requires HTML input"@)),
    }
}

/// The first binding of `key` in a JSON object, if any.
pub open spec fn json_obj_lookup(entries: Seq<(Seq<char>, JsonModel)>, key: Seq<char>) -> Option<JsonModel>
    decreases entries.len(),
{
    if entries.len() == 0 {
        None
    } else if entries[0].0 == key {
        Some(entries[0].1)
    } else {
        json_obj_lookup(entries.skip(1), key)
    }
}

/// The document reached by following dot-separated segments: an object
/// field by name, an array item by decimal position.
pub open spec fn json_walk(j: JsonModel, segs: Seq<Seq<char>>, i: int) -> Option<JsonModel>
    decreases segs.len() - i,
{
    if !(0 <= i <= segs.len()) {
        None
    } else if i == segs.len() {
        Some(j)
    } else {
        match j {
            JsonModel::Obj(entries) => match json_obj_lookup(entries, segs[i]) {
                Some(child) => json_walk(child, segs, i + 1),
                None => None,
            },
            JsonModel::Arr(items) => match parse_i64_spec(segs[i]) {
                Some(p) => if 0 <= p < items.len() {
                    json_walk(items[p as int], segs, i + 1)
                } else {
                    None
                },
                None => None,
            },
            _ => None,
        }
    }
}

/// Whether every path segment is non-empty.
pub open spec fn all_segs_nonempty(segs: Seq<Seq<char>>) -> bool {
    forall|k: int| 0 <= k < segs.len() ==> (#[trigger] segs[k]).len() > 0
}

/// The segments of a JSON path: dot-separated, with one leading `$` segment
/// allowed; an empty segment does not parse.
pub open spec fn json_path_segs(path: Seq<char>) -> Option<Seq<Seq<char>>> {
    let raw = split_seq(path, seq!['.']);
    let segs = if raw.len() > 0 && raw[0] == "$"@ { raw.skip(1) } else { raw };
    if segs.len() > 0 && all_segs_nonempty(segs) {
        Some(segs)
    } else {
        None
    }
}

/// What a JSON path step produces on a JSON value: an array holding the
/// document the path reaches, or an empty array when it reaches none.
pub open spec fn eval_json_path(path: Seq<char>, input: ValModel) -> Result<ValModel, ErrModel> {
    match input {
        ValModel::Json(j) => match json_path_segs(path) {
            None => Err(ErrModel::Extraction("Invalid JSON path"@)),
            Some(segs) => match json_walk(j, segs, 0) {
                Some(hit) => Ok(ValModel::Arr(seq![json_to_val(hit)])),
                None => Ok(ValModel::Arr(Seq::<ValModel>::empty())),
            },
        },
        _ => Err(ErrModel::Extraction("Json step requires JSON input"@)),
    }
}

/// The recursion-cap error for component calls.
pub open spec fn recursion_err(ctx: CtxModel) -> ErrModel {
    ErrModel::RecursionLimitExceeded { current: ctx.max_depth, max: ctx.max_depth }
}

/// What one step produces on a value under a context, with `depth`
/// component calls still allowed. A script step cannot run here — the
/// engine holds no script collaborator — and fails; a host runs scripts by
/// driving a chain through the hosted runner, which suspends at script
/// steps instead.
pub open spec fn eval_step(step: StepModel, input: ValModel, ctx: CtxModel, depth: nat)
    -> Result<ValModel, ErrModel>
    decreases depth, step, 0int, 0int,
    via eval_step_decreases
{
    match step {
        StepModel::Css(sel) => eval_css(sel, input),
        StepModel::Json(path) => eval_json_path(path, input),
        StepModel::Xpath(_) => Err(ErrModel::Extraction("XPath not supported in this context"@)),
        StepModel::Regex(pattern) => eval_regex_step(pattern, input),
        StepModel::Attr(attr) => eval_attr(attr, input),
        StepModel::Index(ix) => eval_index(ix, input),
        StepModel::Filter(f) => eval_filter(f.name, f.args, input),
        StepModel::Const(j) => Ok(json_to_val(j)),
        StepModel::Var(name) => match lookup_binding(ctx.vars, name) {
            Some(j) => Ok(json_to_val(j)),
            None => Err(ErrModel::Extraction("Variable not found: "@ + name)),
        },
        StepModel::Script(_) => Err(ErrModel::Extraction("Script engine not available in this context"@)),
        StepModel::UseComponent(c) => if depth == 0 {
            Err(recursion_err(ctx))
        } else {
            match lookup_binding(ctx.components, c.name) {
                None => Err(ErrModel::UndefinedComponent { component: c.name }),
                Some(comp) => eval_steps(
                    comp.steps,
                    input,
                    CtxModel { vars: comp.inputs + c.with, ..ctx },
                    (depth - 1) as nat,
                ),
            }
        },
        StepModel::MapEach(inner) => match input {
            ValModel::Arr(items) => Ok(ValModel::Arr(eval_map_items(inner, items, 0, ctx, depth))),
            _ => Err(ErrModel::Extraction("Map step requires array input"@)),
        },
        StepModel::Condition(c) => eval_condition(c, input, ctx, depth),
    }
}

#[via_fn]
proof fn eval_step_decreases(step: StepModel, input: ValModel, ctx: CtxModel, depth: nat) {
    match step {
        StepModel::MapEach(inner) => {
            assert(decreases_to!(step => inner));
        },
        StepModel::Condition(c) => {
            assert(decreases_to!(step => c));
        },
        _ => {},
    }
}

/// What a regular-expression step produces: the first-group captures over
/// the text, each as a string value.
pub open spec fn eval_regex_step(pattern: Seq<char>, input: ValModel) -> Result<ValModel, ErrModel> {
    match input {
        ValModel::Str(s) => eval_regex_text(pattern, s),
        ValModel::Html(s) => eval_regex_text(pattern, s),
        _ => Err(ErrModel::Extraction("Regex step requires string input"@)),
    }
}

/// A regular-expression step on text.
pub open spec fn eval_regex_text(pattern: Seq<char>, s: Seq<char>) -> Result<ValModel, ErrModel> {
    if crate::extract::filter::regex_ok(pattern) {
        Ok(ValModel::Arr(crate::extract::filter::strs_to_vals(
            crate::extract::filter::regex_captures_of(pattern, s),
        )))
    } else {
        Err(ErrModel::Extraction("Invalid regex pattern: "@
            + crate::extract::filter::regex_error_of(pattern)))
    }
}

/// What a conditional produces: the probe chain's truthiness picks the
/// branch; a probe error counts as false; with no `otherwise` branch the
/// input passes through unchanged.
pub open spec fn eval_condition(c: ConditionModel, input: ValModel, ctx: CtxModel, depth: nat)
    -> Result<ValModel, ErrModel>
    decreases depth, c, 2int, 0int,
    via eval_condition_decreases
{
    let probe = match eval_steps(c.when, input, ctx, depth) {
        Ok(v) => val_truthy(v),
        Err(_) => false,
    };
    if probe {
        eval_steps(c.then_steps, input, ctx, depth)
    } else {
        match c.otherwise {
            Some(steps) => eval_steps(steps, input, ctx, depth),
            None => Ok(input),
        }
    }
}

#[via_fn]
proof fn eval_condition_decreases(c: ConditionModel, input: ValModel, ctx: CtxModel, depth: nat) {
    assert(decreases_to!(c => c.when));
    assert(decreases_to!(c => c.then_steps));
    match c.otherwise {
        Some(steps) => {
            assert(decreases_to!(c => c.otherwise));
            assert(decreases_to!(c.otherwise => steps));
        },
        None => {},
    }
}

/// What a chain produces: the input threaded through the steps in order;
/// the first failure aborts the chain.
pub open spec fn eval_steps(steps: Seq<StepModel>, input: ValModel, ctx: CtxModel, depth: nat)
    -> Result<ValModel, ErrModel>
    decreases depth, steps, 0int, 1int,
{
    if steps.len() == 0 {
        Ok(input)
    } else {
        match eval_step(steps[0], input, ctx, depth) {
            Ok(v) => eval_steps(steps.skip(1), v, ctx, depth),
            Err(e) => Err(e),
        }
    }
}

/// The surviving outputs of a per-item pipeline, in the order of their
/// items; items whose run fails are dropped.
pub open spec fn eval_map_items(steps: Seq<StepModel>, items: Seq<ValModel>, i: int, ctx: CtxModel, depth: nat)
    -> Seq<ValModel>
    decreases depth, steps, items.len() - i, 2int,
{
    if !(0 <= i) || i >= items.len() {
        Seq::<ValModel>::empty()
    } else {
        let rest = eval_map_items(steps, items, i + 1, ctx, depth);
        match eval_steps(steps, items[i], ctx, depth) {
            Ok(v) => seq![v] + rest,
            Err(_) => rest,
        }
    }
}


fn chars_split(v: &Vec<char>, sep: &Vec<char>, i: usize) -> (out: Vec<Vec<char>>)
    requires
        i <= v@.len(),
        sep@.len() > 0,
    ensures
        crate::extract::selector::chars_views(out@) == split_seq(v@.skip(i as int), sep@),
    decreases v@.len() - i,
{
    let ghost rest = v@.skip(i as int);
    let r = crate::text::find_sub(v, sep, i);
    proof {
        crate::text::lemma_find_shift(v@, sep@, i as int, i as int);
    }
    match r {
        Some(j) => {
            proof {
                crate::text::lemma_find_from_some(v@, sep@, i as int, j as int);
                assert(find_from(rest, sep@, 0) == Some(j - i));
                assert(rest.take(j - i) =~= v@.subrange(i as int, j as int));
                assert(rest.skip(j - i + sep@.len()) =~= v@.skip(j + sep@.len()));
            }
            let piece = crate::text::vec_range(v, i, j);
            let n: usize = v.len();
            proof {
                assert(j + sep@.len() <= n);
            }
            let mut out = chars_split(v, sep, j + sep.len());
            let ghost prev = out@;
            out.insert(0, piece);
            proof {
                let parts = split_seq(rest, sep@);
                assert(parts == seq![rest.take(j - i)]
                    + split_seq(rest.skip(j - i + sep@.len()), sep@));
                assert forall|k: int| 0 <= k < out@.len()
                    implies crate::extract::selector::chars_views(out@)[k] == parts[k] by {
                    if k > 0 {
                        assert(out@[k] == prev[k - 1]);
                        assert(parts[k] == split_seq(rest.skip(j - i + sep@.len()), sep@)[k - 1]);
                    }
                }
                assert(crate::extract::selector::chars_views(out@) =~= parts);
            }
            out
        },
        None => {
            proof {
                assert(find_from(rest, sep@, 0) is None);
                assert(rest =~= v@.subrange(i as int, v@.len() as int));
            }
            let piece = crate::text::vec_range(v, i, v.len());
            let mut out: Vec<Vec<char>> = Vec::new();
            out.push(piece);
            proof {
                assert(crate::extract::selector::chars_views(out@) =~= split_seq(rest, sep@));
            }
            out
        },
    }
}

pub(crate) fn json_obj_get_pub<'a>(entries: &'a Vec<(String, JsonValue)>, key: &Vec<char>, i: usize)
    -> (r: Option<&'a JsonValue>)
    requires
        i <= entries@.len(),
    ensures
        match r {
            Some(j) => json_obj_lookup(crate::jsonval::json_model_entries(entries@).skip(i as int), key@)
                == Some(j@),
            None => json_obj_lookup(crate::jsonval::json_model_entries(entries@).skip(i as int), key@) is None,
        },
    decreases entries@.len() - i,
{
    proof {
        crate::jsonval::lemma_json_model_entries(entries@);
    }
    let ghost m = crate::jsonval::json_model_entries(entries@);
    if i == entries.len() {
        proof {
            assert(m.skip(i as int).len() == 0);
        }
        None
    } else {
        proof {
            assert(m.skip(i as int)[0] == m[i as int]);
            assert(m.skip(i as int).skip(1) =~= m.skip(i + 1));
        }
        let k = crate::text::str_to_chars(entries[i].0.as_str());
        if crate::text::chars_eq(&k, key) {
            Some(&entries[i].1)
        } else {
            json_obj_get_pub(entries, key, i + 1)
        }
    }
}

pub(crate) fn json_walk_at<'a>(j: &'a JsonValue, segs: &Vec<Vec<char>>, i: usize) -> (r: Option<&'a JsonValue>)
    requires
        i <= segs@.len(),
    ensures
        match r {
            Some(hit) => json_walk(j@, crate::extract::selector::chars_views(segs@), i as int) == Some(hit@),
            None => json_walk(j@, crate::extract::selector::chars_views(segs@), i as int) is None,
        },
    decreases segs@.len() - i,
{
    let ghost views = crate::extract::selector::chars_views(segs@);
    if i == segs.len() {
        Some(j)
    } else {
        match j {
            JsonValue::Obj(entries) => {
                proof {
                    crate::jsonval::lemma_json_model_entries(entries@);
                    assert(crate::jsonval::json_model_entries(entries@).skip(0)
                        =~= crate::jsonval::json_model_entries(entries@));
                }
                match json_obj_get_pub(entries, &segs[i], 0) {
                    Some(child) => json_walk_at(child, segs, i + 1),
                    None => None,
                }
            },
            JsonValue::Arr(items) => {
                proof {
                    crate::jsonval::lemma_json_model_seq(items@);
                }
                match crate::text::parse_i64_chars(&segs[i]) {
                    Some(p) => {
                        if 0 <= p && (p as u64) < (items.len() as u64) {
                            json_walk_at(&items[p as usize], segs, i + 1)
                        } else {
                            None
                        }
                    },
                    None => None,
                }
            },
            _ => None,
        }
    }
}

fn execute_json_path(path: &str, input: &ExtractValueData) -> (r: Result<ExtractValueData, CrawlerError>)
    ensures
        res_model(r) == eval_json_path(path@, input@),
{
    match input {
        ExtractValueData::Json(j) => {
            let v = crate::text::str_to_chars(path);
            let dot = crate::text::str_to_chars(".");
            proof {
                reveal_strlit(".");
                assert(dot@ =~= seq!['.']);
                assert(v@.skip(0) =~= v@);
            }
            let raw = chars_split(&v, &dot, 0);
            let ghost raw_views = crate::extract::selector::chars_views(raw@);
            let dollar = crate::text::str_to_chars("$");
            let skip_first = raw.len() > 0 && crate::text::chars_eq(&raw[0], &dollar);
            let start: usize = if skip_first { 1 } else { 0 };
            let ghost segs0 = if skip_first { raw_views.skip(1) } else { raw_views };
            let segs = crate::text::copy_chars_range(&raw, start);
            proof {
                assert(crate::extract::selector::chars_views(segs@) =~= segs0);
            }
            let ghost cv = crate::extract::selector::chars_views(segs@);
            proof {
                assert(json_path_segs(path@) == (if cv.len() > 0 && all_segs_nonempty(cv) {
                    Some(cv)
                } else {
                    None::<Seq<Seq<char>>>
                }));
            }
            if segs.len() == 0 {
                proof {
                    assert(json_path_segs(path@) is None);
                }
                return Err(CrawlerError::Extraction(String::from_str("Invalid JSON path")));
            }
            let mut k: usize = 0;
            while k < segs.len()
                invariant
                    input@ == ValModel::Json(j@),
                    k <= segs@.len(),
                    cv == crate::extract::selector::chars_views(segs@),
                    cv.len() == segs@.len() > 0,
                    json_path_segs(path@) == (if cv.len() > 0 && all_segs_nonempty(cv) {
                        Some(cv)
                    } else {
                        None::<Seq<Seq<char>>>
                    }),
                    forall|t: int| 0 <= t < k ==> (#[trigger] cv[t]).len() > 0,
                decreases segs@.len() - k,
            {
                if segs[k].len() == 0 {
                    proof {
                        assert(cv[k as int].len() == 0);
                        assert(!all_segs_nonempty(cv));
                        assert(json_path_segs(path@) is None);
                    }
                    return Err(CrawlerError::Extraction(String::from_str("Invalid JSON path")));
                }
                proof {
                    assert(cv[k as int] == segs@[k as int]@);
                }
                k = k + 1;
            }
            proof {
                assert(all_segs_nonempty(cv));
                assert(json_path_segs(path@) == Some(cv));
            }
            match json_walk_at(j, &segs, 0) {
                Some(hit) => {
                    let mut items: Vec<ExtractValueData> = Vec::new();
                    items.push(ExtractValueData::from_json(hit));
                    proof {
                        lemma_val_model_seq(items@);
                        assert(val_model_seq(items@) =~= seq![json_to_val(
                            json_walk(j@, crate::extract::selector::chars_views(segs@), 0)->Some_0,
                        )]);
                    }
                    Ok(ExtractValueData::Array(items))
                },
                None => {
                    let items: Vec<ExtractValueData> = Vec::new();
                    proof {
                        lemma_val_model_seq(items@);
                        assert(val_model_seq(items@) =~= Seq::<ValModel>::empty());
                    }
                    Ok(ExtractValueData::Array(items))
                },
            }
        },
        _ => Err(CrawlerError::Extraction(String::from_str("Json step requires JSON input"))),
    }
}


fn strings_to_vals(vs: &Vec<String>, i: usize) -> (out: Vec<ExtractValueData>)
    requires
        i <= vs@.len(),
    ensures
        val_model_seq(out@) == crate::extract::filter::strs_to_vals(vs.deep_view().skip(i as int)),
    decreases vs@.len() - i,
{
    proof {
        assert(vs.deep_view().len() == vs@.len());
    }
    if i == vs.len() {
        let out: Vec<ExtractValueData> = Vec::new();
        proof {
            lemma_val_model_seq(out@);
            assert(val_model_seq(out@)
                =~= crate::extract::filter::strs_to_vals(vs.deep_view().skip(i as int)));
        }
        out
    } else {
        let mut rest = strings_to_vals(vs, i + 1);
        let ghost prev = rest@;
        rest.insert(0, ExtractValueData::String(vs[i].clone()));
        proof {
            lemma_val_model_seq(rest@);
            lemma_val_model_seq(prev);
            assert(vs.deep_view()[i as int] == vs@[i as int]@);
            assert(vs.deep_view().skip(i as int)[0] == vs.deep_view()[i as int]);
            assert(vs.deep_view().skip(i as int).skip(1) =~= vs.deep_view().skip(i + 1));
            assert forall|k: int| 0 <= k < rest@.len()
                implies val_model_seq(rest@)[k]
                    == crate::extract::filter::strs_to_vals(vs.deep_view().skip(i as int))[k] by {
                if k > 0 {
                    assert(rest@[k] == prev[k - 1]);
                    assert(val_model_seq(prev)[k - 1]
                        == crate::extract::filter::strs_to_vals(vs.deep_view().skip(i + 1))[k - 1]);
                }
            }
            assert(val_model_seq(rest@)
                =~= crate::extract::filter::strs_to_vals(vs.deep_view().skip(i as int)));
        }
        rest
    }
}

fn execute_regex(pattern: &str, input: &ExtractValueData) -> (r: Result<ExtractValueData, CrawlerError>)
    ensures
        res_model(r) == eval_regex_step(pattern@, input@),
{
    match input.as_str() {
        Some(s) => match crate::extract::filter::regex_captures(pattern, s) {
            Ok(hits) => {
                proof {
                    assert(hits.deep_view().skip(0) =~= hits.deep_view());
                }
                Ok(ExtractValueData::Array(strings_to_vals(&hits, 0)))
            },
            Err(cause) => {
                let mut m = String::from_str("Invalid regex pattern: ");
                m.append(cause.as_str());
                Err(CrawlerError::Extraction(m))
            },
        },
        None => Err(CrawlerError::Extraction(String::from_str("Regex step requires string input"))),
    }
}

fn attr_each_at(items: &Vec<ExtractValueData>, attr: &str, i: usize) -> (out: Vec<ExtractValueData>)
    requires
        i <= items@.len(),
    ensures
        val_model_seq(out@) == attr_of_each(val_model_seq(items@).skip(i as int), attr@),
    decreases items@.len() - i,
{
    proof {
        lemma_val_model_seq(items@);
    }
    let ghost m = val_model_seq(items@);
    if i == items.len() {
        let out: Vec<ExtractValueData> = Vec::new();
        proof {
            lemma_val_model_seq(out@);
            assert(m.skip(i as int).len() == 0);
            assert(val_model_seq(out@) =~= attr_of_each(m.skip(i as int), attr@));
        }
        out
    } else {
        proof {
            assert(m.skip(i as int)[0] == m[i as int]);
            assert(m.skip(i as int).skip(1) =~= m.skip(i + 1));
        }
        let mut rest = attr_each_at(items, attr, i + 1);
        match &items[i] {
            ExtractValueData::Html(s) => {
                match crate::extract::selector::read_first_attr(s.as_str(), attr) {
                    Some(value) => {
                        let ghost prev = rest@;
                        rest.insert(0, ExtractValueData::String(value));
                        proof {
                            lemma_val_model_seq(rest@);
                            lemma_val_model_seq(prev);
                            assert forall|k: int| 0 <= k < rest@.len()
                                implies val_model_seq(rest@)[k]
                                    == attr_of_each(m.skip(i as int), attr@)[k] by {
                                if k > 0 {
                                    assert(rest@[k] == prev[k - 1]);
                                    assert(val_model_seq(prev)[k - 1]
                                        == attr_of_each(m.skip(i + 1), attr@)[k - 1]);
                                }
                            }
                            assert(val_model_seq(rest@) =~= attr_of_each(m.skip(i as int), attr@));
                        }
                    },
                    None => {},
                }
            },
            _ => {},
        }
        rest
    }
}

fn execute_attr(attr: &str, input: &ExtractValueData) -> (r: Result<ExtractValueData, CrawlerError>)
    ensures
        res_model(r) == eval_attr(attr@, input@),
{
    match input {
        ExtractValueData::Html(s) => match crate::extract::selector::read_first_attr(s.as_str(), attr) {
            Some(value) => Ok(ExtractValueData::String(value)),
            None => Ok(ExtractValueData::Null),
        },
        ExtractValueData::Array(items) => {
            proof {
                assert(val_model_seq(items@).skip(0) =~= val_model_seq(items@));
            }
            Ok(ExtractValueData::Array(attr_each_at(items, attr, 0)))
        },
        _ => Err(CrawlerError::Extraction(String::from_str("Attr step requires HTML input"))),
    }
}

fn stride_at(items: &Vec<ExtractValueData>, i: usize, end: usize, step: usize) -> (out: Vec<ExtractValueData>)
    requires
        end <= items@.len(),
        step >= 1,
    ensures
        val_model_seq(out@) == stride_items(val_model_seq(items@), i as int, end as int, step as int),
    decreases end - i,
{
    proof {
        lemma_val_model_seq(items@);
    }
    let ghost m = val_model_seq(items@);
    if i >= end {
        let out: Vec<ExtractValueData> = Vec::new();
        proof {
            lemma_val_model_seq(out@);
            assert(val_model_seq(out@) =~= stride_items(m, i as int, end as int, step as int));
        }
        out
    } else {
        let next: usize = if step > end - i { end } else { i + step };
        let mut rest = stride_at(items, next, end, step);
        let ghost prev = rest@;
        rest.insert(0, items[i].clone());
        proof {
            lemma_val_model_seq(rest@);
            lemma_val_model_seq(prev);
            assert(next as int == (if i + step > end { end as int } else { i + step }));
            assert forall|k: int| 0 <= k < rest@.len()
                implies val_model_seq(rest@)[k]
                    == stride_items(m, i as int, end as int, step as int)[k] by {
                if k > 0 {
                    assert(rest@[k] == prev[k - 1]);
                    assert(val_model_seq(prev)[k - 1]
                        == stride_items(m, next as int, end as int, step as int)[k - 1]);
                }
            }
            assert(val_model_seq(rest@) =~= stride_items(m, i as int, end as int, step as int));
        }
        rest
    }
}

fn execute_index(ix: &crate::extract::step::IndexSpec, input: &ExtractValueData)
    -> (r: Result<ExtractValueData, CrawlerError>)
    ensures
        res_model(r) == eval_index(ix.model(), input@),
{
    match input {
        ExtractValueData::Array(items) => {
            proof {
                lemma_val_model_seq(items@);
            }
            let n: usize = items.len();
            match ix {
                crate::extract::step::IndexSpec::At(p) => {
                    let pos: i128 = if *p < 0 {
                        n as i128 + *p as i128
                    } else {
                        *p as i128
                    };
                    if 0 <= pos && pos < n as i128 {
                        Ok(items[pos as usize].clone())
                    } else {
                        Ok(ExtractValueData::Null)
                    }
                },
                crate::extract::step::IndexSpec::Range { start, end, step } => {
                    let st0: i128 = match start {
                        Some(v) => if *v < 0 { n as i128 + *v as i128 } else { *v as i128 },
                        None => 0,
                    };
                    let en0: i128 = match end {
                        Some(v) => if *v < 0 { n as i128 + *v as i128 } else { *v as i128 },
                        None => n as i128,
                    };
                    let st: usize = if st0 < 0 { 0 } else if st0 > n as i128 { n } else { st0 as usize };
                    let en: usize = if en0 < 0 { 0 } else if en0 > n as i128 { n } else { en0 as usize };
                    let stp: i64 = match step {
                        Some(v) => *v,
                        None => 1,
                    };
                    if stp < 1 {
                        Err(CrawlerError::Extraction(String::from_str("Index step must be positive")))
                    } else {
                        let stpu: usize = if stp as u64 > usize::MAX as u64 {
                            usize::MAX
                        } else {
                            stp as usize
                        };
                        let ghost m = val_model_seq(items@);
                        let out = stride_at(items, st, en, stpu);
                        proof {
                            if stpu != stp as int {
                                lemma_stride_big(m, st as int, en as int, stpu as int, stp as int);
                            }
                        }
                        Ok(ExtractValueData::Array(out))
                    }
                },
            }
        },
        _ => Err(CrawlerError::Extraction(String::from_str("Index step requires array input"))),
    }
}

/// Two strides at least as long as the range agree.
proof fn lemma_stride_big(items: Seq<ValModel>, i: int, end: int, a: int, b: int)
    requires
        a >= end - i,
        b >= end - i,
        a >= 1,
        b >= 1,
    ensures
        stride_items(items, i, end, a) == stride_items(items, i, end, b),
    decreases end - i,
{
    if 0 <= i && i < end && i < items.len() {
        let na = if i + a > end { end } else { i + a };
        let nb = if i + b > end { end } else { i + b };
        assert(na == end && nb == end);
        assert(stride_items(items, i, end, a) == seq![items[i]] + stride_items(items, end, end, a));
        assert(stride_items(items, i, end, b) == seq![items[i]] + stride_items(items, end, end, b));
        assert(stride_items(items, end, end, a) == Seq::<ValModel>::empty());
        assert(stride_items(items, end, end, b) == Seq::<ValModel>::empty());
    }
}


/// Runs one step on a value under a context, with `depth` component calls
/// still allowed. The input is taken by shared reference and is observably
/// unchanged afterwards.
pub fn execute_step(step: &ExtractStep, input: &ExtractValueData, ctx: &Context, depth: usize)
    -> (r: Result<ExtractValueData, CrawlerError>)
    ensures
        res_model(r) == eval_step(step@, input@, ctx@, depth as nat),
    decreases depth, *step, 0int, 0int, 0int,
{
    match step {
        ExtractStep::Css(sel) => {
            match input {
                ExtractValueData::Html(s) => match crate::extract::selector::css_select(sel.as_str(), s.as_str()) {
                    Some(out) => Ok(ExtractValueData::Array(out)),
                    None => Err(CrawlerError::Extraction(String::from_str("Invalid CSS selector"))),
                },
                _ => Err(CrawlerError::Extraction(String::from_str("Css step requires HTML input"))),
            }
        },
        ExtractStep::Json(path) => execute_json_path(path.as_str(), input),
        ExtractStep::Xpath(_) => Err(CrawlerError::Extraction(String::from_str(
            "XPath not supported in this context",
        ))),
        ExtractStep::Regex(pattern) => execute_regex(pattern.as_str(), input),
        ExtractStep::Attr(attr) => execute_attr(attr.as_str(), input),
        ExtractStep::Index(ix) => execute_index(ix, input),
        ExtractStep::Filter(f) => crate::extract::filter::apply_filter(f.name.as_str(), &f.args, input),
        ExtractStep::Const(j) => Ok(ExtractValueData::from_json(j)),
        ExtractStep::Var(name) => match ctx.get(name.as_str()) {
            Some(j) => Ok(ExtractValueData::from_json(j)),
            None => {
                let mut m = String::from_str("Variable not found: ");
                m.append(name.as_str());
                Err(CrawlerError::Extraction(m))
            },
        },
        ExtractStep::Script(_) => Err(CrawlerError::Extraction(String::from_str(
            "Script engine not available in this context",
        ))),
        ExtractStep::UseComponent(c) => {
            if depth == 0 {
                let cap = ctx.max_depth();
                return Err(CrawlerError::RecursionLimitExceeded { current: cap, max: cap });
            }
            match ctx.get_component(c.name.as_str()) {
                None => Err(CrawlerError::UndefinedComponent { component: c.name.clone() }),
                Some(comp) => {
                    let mut vars = crate::jsonval::clone_json_entries(&comp.inputs, 0);
                    let mut more = crate::jsonval::clone_json_entries(&c.with, 0);
                    let ghost base = vars@;
                    let ghost extra = more@;
                    vars.append(&mut more);
                    let child = ctx.child(vars);
                    proof {
                        crate::jsonval::lemma_json_model_entries(base + extra);
                        crate::jsonval::lemma_json_model_entries(base);
                        crate::jsonval::lemma_json_model_entries(extra);
                        crate::jsonval::lemma_json_model_entries(comp.inputs@);
                        crate::jsonval::lemma_json_model_entries(c.with@);
                        assert forall|k: int| 0 <= k < base.len() + extra.len()
                            implies crate::jsonval::json_model_entries(base + extra)[k]
                                == (comp@.inputs + crate::jsonval::json_model_entries(c.with@))[k] by {
                            if k < base.len() {
                                assert((base + extra)[k] == base[k]);
                            } else {
                                assert((base + extra)[k] == extra[k - base.len()]);
                            }
                        }
                        assert(crate::jsonval::json_model_entries(base + extra)
                            =~= comp@.inputs + crate::jsonval::json_model_entries(c.with@));
                        assert(crate::extract::step::step_model_seq(comp.steps@).skip(0)
                            =~= crate::extract::step::step_model_seq(comp.steps@));
                    }
                    execute_steps_from(&comp.steps, 0, input, &child, depth - 1)
                },
            }
        },
        ExtractStep::MapEach(inner) => {
            match input {
                ExtractValueData::Array(items) => {
                    proof {
                        assert(decreases_to!(*step => *inner));
                    }
                    let out = map_each_at(inner, items, 0, ctx, depth);
                    Ok(ExtractValueData::Array(out))
                },
                _ => Err(CrawlerError::Extraction(String::from_str("Map step requires array input"))),
            }
        },
        ExtractStep::Condition(c) => {
            proof {
                assert(decreases_to!(*step => **c));
                assert(decreases_to!(**c => c.when));
                assert(decreases_to!(**c => c.then_steps));
                assert(crate::extract::step::step_model_seq(c.when@).skip(0)
                    =~= crate::extract::step::step_model_seq(c.when@));
                assert(crate::extract::step::step_model_seq(c.then_steps@).skip(0)
                    =~= crate::extract::step::step_model_seq(c.then_steps@));
            }
            let probe = match execute_steps_from(&c.when, 0, input, ctx, depth) {
                Ok(v) => v.is_truthy(),
                Err(_) => false,
            };
            if probe {
                execute_steps_from(&c.then_steps, 0, input, ctx, depth)
            } else {
                match &c.otherwise {
                    Some(steps) => {
                        proof {
                            assert(decreases_to!(**c => c.otherwise));
                            assert(decreases_to!(c.otherwise => *steps));
                            assert(crate::extract::step::step_model_seq(steps@).skip(0)
                                =~= crate::extract::step::step_model_seq(steps@));
                        }
                        execute_steps_from(steps, 0, input, ctx, depth)
                    },
                    None => Ok(input.clone()),
                }
            }
        },
    }
}

/// Runs a chain from its `i`-th step on, threading the value forward; the
/// first failure aborts the chain.
pub fn execute_steps_from(steps: &Vec<ExtractStep>, i: usize, input: &ExtractValueData, ctx: &Context, depth: usize)
    -> (r: Result<ExtractValueData, CrawlerError>)
    requires
        i <= steps@.len(),
    ensures
        res_model(r) == eval_steps(
            crate::extract::step::step_model_seq(steps@).skip(i as int),
            input@,
            ctx@,
            depth as nat,
        ),
    decreases depth, *steps, 0int, 1int, steps@.len() - i,
{
    proof {
        crate::extract::step::lemma_step_model_seq(steps@);
    }
    let ghost m = crate::extract::step::step_model_seq(steps@);
    if i == steps.len() {
        proof {
            assert(m.skip(i as int).len() == 0);
        }
        Ok(input.clone())
    } else {
        proof {
            assert(m.skip(i as int)[0] == m[i as int]);
            assert(m.skip(i as int).skip(1) =~= m.skip(i + 1));
            assert(decreases_to!(*steps => steps@[i as int]));
        }
        match execute_step(&steps[i], input, ctx, depth) {
            Ok(v) => execute_steps_from(steps, i + 1, &v, ctx, depth),
            Err(e) => Err(e),
        }
    }
}

fn map_each_at(steps: &Vec<ExtractStep>, items: &Vec<ExtractValueData>, i: usize, ctx: &Context, depth: usize)
    -> (out: Vec<ExtractValueData>)
    requires
        i <= items@.len(),
    ensures
        val_model_seq(out@) == eval_map_items(
            crate::extract::step::step_model_seq(steps@),
            val_model_seq(items@),
            i as int,
            ctx@,
            depth as nat,
        ),
    decreases depth, *steps, 2int, 2int, items@.len() - i,
{
    proof {
        lemma_val_model_seq(items@);
        crate::extract::step::lemma_step_model_seq(steps@);
    }
    let ghost sm = crate::extract::step::step_model_seq(steps@);
    let ghost m = val_model_seq(items@);
    if i == items.len() {
        let out: Vec<ExtractValueData> = Vec::new();
        proof {
            lemma_val_model_seq(out@);
            assert(val_model_seq(out@) =~= eval_map_items(sm, m, i as int, ctx@, depth as nat));
        }
        out
    } else {
        let mut rest = map_each_at(steps, items, i + 1, ctx, depth);
        proof {
            assert(m[i as int] == items@[i as int]@);
            assert(sm.skip(0) =~= sm);
        }
        match execute_steps_from(steps, 0, &items[i], ctx, depth) {
            Ok(v) => {
                let ghost prev = rest@;
                rest.insert(0, v);
                proof {
                    lemma_val_model_seq(rest@);
                    lemma_val_model_seq(prev);
                    assert forall|k: int| 0 <= k < rest@.len()
                        implies val_model_seq(rest@)[k]
                            == eval_map_items(sm, m, i as int, ctx@, depth as nat)[k] by {
                        if k > 0 {
                            assert(rest@[k] == prev[k - 1]);
                            assert(val_model_seq(prev)[k - 1]
                                == eval_map_items(sm, m, i + 1, ctx@, depth as nat)[k - 1]);
                        }
                    }
                    assert(val_model_seq(rest@) =~= eval_map_items(sm, m, i as int, ctx@, depth as nat));
                }
                rest
            },
            Err(_) => rest,
        }
    }
}

/// The stateless dispatcher over the step union.
pub struct StepExecutorFactory;

impl StepExecutorFactory {
    /// Runs one step, allowing the context's recursion cap of nested
    /// component calls.
    pub fn execute(step: &ExtractStep, input: &ExtractValueData, context: &Context)
        -> (r: Result<ExtractValueData, CrawlerError>)
        ensures
            res_model(r) == eval_step(step@, input@, context@, context@.max_depth as nat),
    {
        let depth = context.max_depth();
        execute_step(step, input, context, depth)
    }
}

/// Runs condition steps.
pub struct ConditionExecutor;

impl ConditionExecutor {
    /// The probe chain's truthiness picks the branch; a probe error counts
    /// as false; with no `otherwise` branch the input passes through.
    pub fn execute(condition: &crate::extract::step::ConditionStep, input: &ExtractValueData, context: &Context)
        -> (r: Result<ExtractValueData, CrawlerError>)
        ensures
            res_model(r) == eval_condition(
                crate::extract::step::ConditionModel {
                    when: crate::extract::step::step_model_seq(condition.when@),
                    then_steps: crate::extract::step::step_model_seq(condition.then_steps@),
                    otherwise: match condition.otherwise {
                        Some(steps) => Some(crate::extract::step::step_model_seq(steps@)),
                        None => None,
                    },
                },
                input@,
                context@,
                context@.max_depth as nat,
            ),
    {
        let depth = context.max_depth();
        proof {
            crate::extract::step::lemma_step_model_seq(condition.when@);
            assert(crate::extract::step::step_model_seq(condition.when@).skip(0)
                =~= crate::extract::step::step_model_seq(condition.when@));
        }
        let probe = match execute_steps_from(&condition.when, 0, input, context, depth) {
            Ok(v) => v.is_truthy(),
            Err(_) => false,
        };
        if probe {
            proof {
                assert(crate::extract::step::step_model_seq(condition.then_steps@).skip(0)
                    =~= crate::extract::step::step_model_seq(condition.then_steps@));
            }
            execute_steps_from(&condition.then_steps, 0, input, context, depth)
        } else {
            match &condition.otherwise {
                Some(steps) => {
                    proof {
                        assert(crate::extract::step::step_model_seq(steps@).skip(0)
                            =~= crate::extract::step::step_model_seq(steps@));
                    }
                    execute_steps_from(steps, 0, input, context, depth)
                },
                None => Ok(input.clone()),
            }
        }
    }
}

/// Runs constant steps.
pub struct ConstExecutor;

impl ConstExecutor {
    /// Ignores the input and builds the literal's value.
    pub fn execute(value: &JsonValue, _input: &ExtractValueData, _context: &Context)
        -> (r: Result<ExtractValueData, CrawlerError>)
        ensures
            res_model(r) == Ok::<ValModel, ErrModel>(json_to_val(value@)),
    {
        Ok(ExtractValueData::from_json(value))
    }
}

/// Runs per-item sub-pipelines.
pub struct MapExecutor;

impl MapExecutor {
    /// Applies the sub-pipeline to each item of an array, keeping the
    /// surviving outputs in their items' order; anything else is refused.
    pub fn execute(steps: &Vec<ExtractStep>, input: &ExtractValueData, context: &Context)
        -> (r: Result<ExtractValueData, CrawlerError>)
        ensures
            res_model(r) == eval_step(
                StepModel::MapEach(crate::extract::step::step_model_seq(steps@)),
                input@,
                context@,
                context@.max_depth as nat,
            ),
    {
        let depth = context.max_depth();
        match input {
            ExtractValueData::Array(items) => {
                let out = map_each_at(steps, items, 0, context, depth);
                Ok(ExtractValueData::Array(out))
            },
            _ => Err(CrawlerError::Extraction(String::from_str("Map step requires array input"))),
        }
    }
}

/// Passes the input through unchanged.
pub struct NoopExecutor;

impl NoopExecutor {
    /// The input value, unchanged.
    pub fn execute(input: &ExtractValueData, _context: &Context)
        -> (r: Result<ExtractValueData, CrawlerError>)
        ensures
            res_model(r) == Ok::<ValModel, ErrModel>(input@),
    {
        Ok(input.clone())
    }
}

/// Reads variables from the context.
pub struct VarExecutor;

impl VarExecutor {
    /// The variable's value as a pipeline value; a name the context does
    /// not bind fails with an extraction error and never panics.
    pub fn execute(var_name: &str, _input: &ExtractValueData, context: &Context)
        -> (r: Result<ExtractValueData, CrawlerError>)
        ensures
            match lookup_binding(context@.vars, var_name@) {
                Some(j) => res_model(r) == Ok::<ValModel, ErrModel>(json_to_val(j)),
                None => res_model(r) == Err::<ValModel, ErrModel>(
                    ErrModel::Extraction("Variable not found: "@ + var_name@),
                ),
            },
    {
        match context.get(var_name) {
            Some(j) => Ok(ExtractValueData::from_json(j)),
            None => {
                let mut m = String::from_str("Variable not found: ");
                m.append(var_name);
                Err(CrawlerError::Extraction(m))
            },
        }
    }
}


/// The outcome of one per-item run, as an option.
pub open spec fn map_item_outcome(steps: Seq<StepModel>, ctx: CtxModel, depth: nat)
    -> spec_fn(ValModel) -> Option<ValModel>
{
    |v: ValModel| match eval_steps(steps, v, ctx, depth) {
        Ok(w) => Some(w),
        Err(_) => None,
    }
}

/// `filter_map` unfolds at the front.
proof fn lemma_filter_map_front<A, B>(x: A, t: Seq<A>, f: spec_fn(A) -> Option<B>)
    ensures
        (seq![x] + t).filter_map(f) == (match f(x) {
            Some(y) => seq![y],
            None => Seq::<B>::empty(),
        }) + t.filter_map(f),
    decreases t.len(),
{
    let s = seq![x] + t;
    if t.len() == 0 {
        assert(s =~= seq![x]);
        Seq::<A>::lemma_filter_map_singleton(x, f);
        assert((match f(x) {
            Some(y) => seq![y],
            None => Seq::<B>::empty(),
        }) + t.filter_map(f) =~= seq![x].filter_map(f));
    } else {
        lemma_filter_map_front(x, t.drop_last(), f);
        assert(s.last() == t.last());
        assert(s.drop_last() =~= seq![x] + t.drop_last());
        match f(t.last()) {
            Some(y) => {
                assert(s.filter_map(f) == s.drop_last().filter_map(f) + seq![y]);
                assert(t.filter_map(f) == t.drop_last().filter_map(f) + seq![y]);
                assert((match f(x) {
                    Some(z) => seq![z],
                    None => Seq::<B>::empty(),
                }) + t.filter_map(f) =~= s.filter_map(f));
            },
            None => {
                assert(s.filter_map(f) == s.drop_last().filter_map(f));
                assert(t.filter_map(f) == t.drop_last().filter_map(f));
            },
        }
    }
}

/// The ordering of a per-item pipeline: for any array, what the map step
/// produces is exactly the successful outputs of its items, in the items'
/// original order, the failed items dropped.
pub proof fn lemma_map_ordering(steps: Seq<StepModel>, items: Seq<ValModel>, i: int, ctx: CtxModel, depth: nat)
    requires
        0 <= i <= items.len(),
    ensures
        eval_map_items(steps, items, i, ctx, depth)
            == items.skip(i).filter_map(map_item_outcome(steps, ctx, depth)),
    decreases items.len() - i,
{
    let f = map_item_outcome(steps, ctx, depth);
    if i == items.len() {
        assert(items.skip(i).len() == 0);
        assert(items.skip(i).filter_map(f) =~= Seq::<ValModel>::empty());
    } else {
        lemma_map_ordering(steps, items, i + 1, ctx, depth);
        lemma_filter_map_front(items[i], items.skip(i + 1), f);
        assert(items.skip(i) =~= seq![items[i]] + items.skip(i + 1));
        match eval_steps(steps, items[i], ctx, depth) {
            Ok(v) => {
                assert(f(items[i]) == Some(v));
                assert(eval_map_items(steps, items, i, ctx, depth)
                    =~= items.skip(i).filter_map(f));
            },
            Err(_) => {
                assert(f(items[i]) is None);
                assert(eval_map_items(steps, items, i, ctx, depth)
                    =~= items.skip(i).filter_map(f));
            },
        }
    }
}

} // verus!
