//! The step union of extraction pipelines, and the extractor that bundles a
//! primary chain with fallbacks, a default and a nullability flag.

use vstd::prelude::*;
use crate::jsonval::{JsonModel, JsonValue, json_model_entries, lemma_json_model_entries};

verus! {

broadcast use vstd::std_specs::vec::group_vec_axioms;

/// A named filter applied to the current value, with literal arguments.
#[derive(Debug, PartialEq)]
pub struct FilterCall {
    /// The filter's name, such as `trim` or `absolute_url`.
    pub name: String,
    /// Its arguments, as JSON literals.
    pub args: Vec<JsonValue>,
}

/// An index into an array: one position, or a clamped range with a stride.
#[derive(Debug, PartialEq)]
pub enum IndexSpec {
    /// One position; a negative position counts from the end.
    At(i64),
    /// A sub-array from `start` to `end`, taking every `step`-th item.
    Range {
        /// First position; the array's start when absent.
        start: Option<i64>,
        /// Position past the last; the array's end when absent.
        end: Option<i64>,
        /// Stride; one when absent.
        step: Option<i64>,
    },
}

/// A script invocation, written `module.function`.
#[derive(Debug, PartialEq)]
pub struct ScriptCall {
    /// The `module.function` to call.
    pub call: String,
    /// Parameters handed to the script.
    pub params: Vec<(String, JsonValue)>,
    /// A security envelope overriding the context's global one.
    pub security: Option<crate::config::script_security::ScriptSecurityConfig>,
}

/// A call of a reusable component, with bindings for its inputs.
#[derive(Debug, PartialEq)]
pub struct ComponentRef {
    /// The component's name.
    pub name: String,
    /// Bindings that shadow the component's declared defaults.
    pub with: Vec<(String, JsonValue)>,
}

/// A conditional: run `when` on the input; if its result is truthy run
/// `then_steps`, else `otherwise`, or keep the input when there is none.
#[derive(Debug, PartialEq)]
pub struct ConditionStep {
    /// The chain whose truthiness decides the branch.
    pub when: Vec<ExtractStep>,
    /// The chain taken on a truthy result.
    pub then_steps: Vec<ExtractStep>,
    /// The chain taken otherwise, if any.
    pub otherwise: Option<Vec<ExtractStep>>,
}

/// One atomic transformation of the intermediate value.
#[derive(Debug, PartialEq)]
pub enum ExtractStep {
    /// Select elements of an HTML value by a CSS selector.
    Css(String),
    /// Select within a JSON value by a path expression.
    Json(String),
    /// Select by an XPath expression; needs a script environment.
    Xpath(String),
    /// The first-group captures of a regular expression over text.
    Regex(String),
    /// Read an attribute from an HTML element, or from each of an array.
    Attr(String),
    /// Pick an element or a sub-array of an array.
    Index(IndexSpec),
    /// Apply a named filter.
    Filter(FilterCall),
    /// Ignore the input and produce a literal.
    Const(JsonValue),
    /// Read a variable from the context.
    Var(String),
    /// Invoke a script module function.
    Script(ScriptCall),
    /// Execute a reusable component in a child context.
    UseComponent(ComponentRef),
    /// Apply a sub-pipeline to each item of an array, dropping failures.
    MapEach(Vec<ExtractStep>),
    /// Branch on the truthiness of a probe chain.
    Condition(Box<ConditionStep>),
}

/// A reusable sub-pipeline with named inputs and their defaults.
#[derive(Debug, PartialEq)]
pub struct ExtractComponent {
    /// Declared inputs with their default values.
    pub inputs: Vec<(String, JsonValue)>,
    /// The component's pipeline.
    pub steps: Vec<ExtractStep>,
}

/// A field extractor: a primary chain, ordered fallback chains, a literal
/// default, and whether an empty result is acceptable.
#[derive(Debug, PartialEq)]
pub struct FieldExtractor {
    /// The primary chain.
    pub steps: Vec<ExtractStep>,
    /// Alternative chains, tried in order when the primary fails or comes
    /// back empty.
    pub fallback: Option<Vec<Vec<ExtractStep>>>,
    /// A literal used when every chain fails or comes back empty.
    pub default: Option<JsonValue>,
    /// Whether an empty result is returned as it is.
    pub nullable: bool,
}

/// The mathematical shape of a filter call.
#[verifier::ext_equal]
pub struct FilterModel {
    /// The filter's name.
    pub name: Seq<char>,
    /// Its literal arguments.
    pub args: Seq<JsonModel>,
}

/// The mathematical shape of an index.
#[verifier::ext_equal]
pub enum IndexModel {
    /// One position.
    At(int),
    /// A clamped range with a stride.
    Range { start: Option<int>, end: Option<int>, step: Option<int> },
}

/// The mathematical shape of a script invocation.
#[verifier::ext_equal]
pub struct ScriptCallModel {
    /// The `module.function` to call.
    pub call: Seq<char>,
    /// Parameters handed to the script.
    pub params: Seq<(Seq<char>, JsonModel)>,
    /// A security envelope overriding the context's global one.
    pub security: Option<crate::config::script_security::ScriptSecurityConfig>,
}

/// The mathematical shape of a component call.
#[verifier::ext_equal]
pub struct ComponentRefModel {
    /// The component's name.
    pub name: Seq<char>,
    /// Bindings that shadow the component's declared defaults.
    pub with: Seq<(Seq<char>, JsonModel)>,
}

/// The mathematical shape of a conditional.
#[verifier::ext_equal]
pub struct ConditionModel {
    /// The probe chain.
    pub when: Seq<StepModel>,
    /// The chain taken on a truthy probe.
    pub then_steps: Seq<StepModel>,
    /// The chain taken otherwise, if any.
    pub otherwise: Option<Seq<StepModel>>,
}

/// The mathematical shape of a step.
#[verifier::ext_equal]
pub enum StepModel {
    /// A CSS selection.
    Css(Seq<char>),
    /// A JSON path selection.
    Json(Seq<char>),
    /// An XPath selection.
    Xpath(Seq<char>),
    /// A regular-expression capture.
    Regex(Seq<char>),
    /// An attribute read.
    Attr(Seq<char>),
    /// An array index.
    Index(IndexModel),
    /// A filter application.
    Filter(FilterModel),
    /// A literal.
    Const(JsonModel),
    /// A variable read.
    Var(Seq<char>),
    /// A script invocation.
    Script(ScriptCallModel),
    /// A component call.
    UseComponent(ComponentRefModel),
    /// A per-item sub-pipeline.
    MapEach(Seq<StepModel>),
    /// A conditional.
    Condition(ConditionModel),
}

/// The mathematical shape of a component.
#[verifier::ext_equal]
pub struct ComponentModel {
    /// Declared inputs with their default values.
    pub inputs: Seq<(Seq<char>, JsonModel)>,
    /// The component's pipeline.
    pub steps: Seq<StepModel>,
}

/// The mathematical shape of a field extractor.
#[verifier::ext_equal]
pub struct FieldExtractorModel {
    /// The primary chain.
    pub steps: Seq<StepModel>,
    /// The fallback chains.
    pub fallback: Option<Seq<Seq<StepModel>>>,
    /// The literal default.
    pub default: Option<JsonModel>,
    /// Whether an empty result is acceptable.
    pub nullable: bool,
}

impl IndexSpec {
    /// The mathematical index this one denotes.
    pub open spec fn model(self) -> IndexModel {
        match self {
            IndexSpec::At(i) => IndexModel::At(i as int),
            IndexSpec::Range { start, end, step } => IndexModel::Range {
                start: match start { Some(v) => Some(v as int), None => None },
                end: match end { Some(v) => Some(v as int), None => None },
                step: match step { Some(v) => Some(v as int), None => None },
            },
        }
    }
}

impl ExtractStep {
    /// The mathematical step this one denotes.
    pub open spec fn model(self) -> StepModel
        decreases self, 2int,
    {
        match self {
            ExtractStep::Css(s) => StepModel::Css(s@),
            ExtractStep::Json(s) => StepModel::Json(s@),
            ExtractStep::Xpath(s) => StepModel::Xpath(s@),
            ExtractStep::Regex(s) => StepModel::Regex(s@),
            ExtractStep::Attr(s) => StepModel::Attr(s@),
            ExtractStep::Index(ix) => StepModel::Index(ix.model()),
            ExtractStep::Filter(f) => StepModel::Filter(FilterModel {
                name: f.name@,
                args: json_model_entries_values(f.args@),
            }),
            ExtractStep::Const(j) => StepModel::Const(j@),
            ExtractStep::Var(s) => StepModel::Var(s@),
            ExtractStep::Script(c) => StepModel::Script(ScriptCallModel {
                call: c.call@,
                params: json_model_entries(c.params@),
                security: c.security,
            }),
            ExtractStep::UseComponent(c) => StepModel::UseComponent(ComponentRefModel {
                name: c.name@,
                with: json_model_entries(c.with@),
            }),
            ExtractStep::MapEach(steps) => StepModel::MapEach(step_model_seq(steps@)),
            ExtractStep::Condition(c) => StepModel::Condition(ConditionModel {
                when: step_model_seq(c.when@),
                then_steps: step_model_seq(c.then_steps@),
                otherwise: match c.otherwise {
                    Some(steps) => Some(step_model_seq(steps@)),
                    None => None,
                },
            }),
        }
    }
}

/// The models of a sequence of JSON literals, in order.
pub open spec fn json_model_entries_values(items: Seq<JsonValue>) -> Seq<JsonModel>
    decreases items,
{
    if items.len() == 0 {
        Seq::<JsonModel>::empty()
    } else {
        seq![items[0]@] + json_model_entries_values(items.skip(1))
    }
}

/// `json_model_entries_values` maps each literal to its model.
pub proof fn lemma_json_model_entries_values(items: Seq<JsonValue>)
    ensures
        json_model_entries_values(items).len() == items.len(),
        forall|i: int| 0 <= i < items.len() ==> json_model_entries_values(items)[i] == items[i]@,
    decreases items.len(),
{
    if items.len() > 0 {
        lemma_json_model_entries_values(items.skip(1));
        assert forall|i: int| 0 <= i < items.len() implies json_model_entries_values(items)[i]
            == items[i]@ by {
            if i > 0 {
                assert(json_model_entries_values(items)[i]
                    == json_model_entries_values(items.skip(1))[i - 1]);
                assert(items.skip(1)[i - 1] == items[i]);
            }
        }
    }
}

/// The models of a sequence of steps, in order.
pub open spec fn step_model_seq(steps: Seq<ExtractStep>) -> Seq<StepModel>
    decreases steps, 3int,
{
    if steps.len() == 0 {
        Seq::<StepModel>::empty()
    } else {
        seq![steps[0].model()] + step_model_seq(steps.skip(1))
    }
}

/// `step_model_seq` maps each step to its model, keeping positions.
pub proof fn lemma_step_model_seq(steps: Seq<ExtractStep>)
    ensures
        step_model_seq(steps).len() == steps.len(),
        forall|i: int| 0 <= i < steps.len() ==> step_model_seq(steps)[i] == steps[i].model(),
    decreases steps.len(),
{
    if steps.len() > 0 {
        lemma_step_model_seq(steps.skip(1));
        assert forall|i: int| 0 <= i < steps.len() implies step_model_seq(steps)[i]
            == steps[i].model() by {
            if i > 0 {
                assert(step_model_seq(steps)[i] == step_model_seq(steps.skip(1))[i - 1]);
                assert(steps.skip(1)[i - 1] == steps[i]);
            }
        }
    }
}

impl View for ExtractStep {
    type V = StepModel;

    open spec fn view(&self) -> StepModel {
        self.model()
    }
}

impl View for ExtractComponent {
    type V = ComponentModel;

    open spec fn view(&self) -> ComponentModel {
        ComponentModel {
            inputs: json_model_entries(self.inputs@),
            steps: step_model_seq(self.steps@),
        }
    }
}

impl View for FieldExtractor {
    type V = FieldExtractorModel;

    open spec fn view(&self) -> FieldExtractorModel {
        FieldExtractorModel {
            steps: step_model_seq(self.steps@),
            fallback: match self.fallback {
                Some(chains) => Some(chain_model_seq(chains@)),
                None => None,
            },
            default: match self.default {
                Some(j) => Some(j@),
                None => None,
            },
            nullable: self.nullable,
        }
    }
}

/// The models of a sequence of chains, in order.
pub open spec fn chain_model_seq(chains: Seq<Vec<ExtractStep>>) -> Seq<Seq<StepModel>>
    decreases chains,
{
    if chains.len() == 0 {
        Seq::<Seq<StepModel>>::empty()
    } else {
        seq![step_model_seq(chains[0]@)] + chain_model_seq(chains.skip(1))
    }
}

/// `chain_model_seq` maps each chain to its model, keeping positions.
pub proof fn lemma_chain_model_seq(chains: Seq<Vec<ExtractStep>>)
    ensures
        chain_model_seq(chains).len() == chains.len(),
        forall|i: int| 0 <= i < chains.len() ==> chain_model_seq(chains)[i]
            == step_model_seq(chains[i]@),
    decreases chains.len(),
{
    if chains.len() > 0 {
        lemma_chain_model_seq(chains.skip(1));
        assert forall|i: int| 0 <= i < chains.len() implies chain_model_seq(chains)[i]
            == step_model_seq(chains[i]@) by {
            if i > 0 {
                assert(chain_model_seq(chains)[i] == chain_model_seq(chains.skip(1))[i - 1]);
                assert(chains.skip(1)[i - 1] == chains[i]);
            }
        }
    }
}


fn clone_steps(steps: &Vec<ExtractStep>, i: usize) -> (out: Vec<ExtractStep>)
    requires
        i <= steps@.len(),
    ensures
        out@.len() == steps@.len() - i,
        forall|k: int| 0 <= k < out@.len() ==> #[trigger] out@[k].model() == steps@[i + k].model(),
    decreases *steps, 0int, steps@.len() - i,
{
    if i == steps.len() {
        Vec::new()
    } else {
        proof {
            assert(decreases_to!(*steps => steps@[i as int]));
        }
        let mut rest = clone_steps(steps, i + 1);
        rest.insert(0, steps[i].clone());
        rest
    }
}

/// A cloned chain denotes the same pipeline.
pub fn clone_chain(steps: &Vec<ExtractStep>) -> (out: Vec<ExtractStep>)
    ensures
        step_model_seq(out@) == step_model_seq(steps@),
    decreases *steps, 1int, 0int,
{
    let out = clone_steps(steps, 0);
    proof {
        lemma_step_model_seq(out@);
        lemma_step_model_seq(steps@);
        assert forall|k: int| 0 <= k < steps@.len()
            implies step_model_seq(out@)[k] == step_model_seq(steps@)[k] by {
            assert(out@[k].model() == steps@[k].model());
        }
        assert(step_model_seq(out@) =~= step_model_seq(steps@));
    }
    out
}

impl Clone for FilterCall {
    /// A clone denotes the same filter call.
    fn clone(&self) -> (r: Self)
        ensures
            r.name@ == self.name@,
            json_model_entries_values(r.args@) == json_model_entries_values(self.args@),
    {
        let args = crate::jsonval::clone_json_items(&self.args, 0);
        let r = FilterCall { name: self.name.clone(), args };
        proof {
            lemma_json_model_entries_values(r.args@);
            lemma_json_model_entries_values(self.args@);
            assert(json_model_entries_values(r.args@) =~= json_model_entries_values(self.args@));
        }
        r
    }
}

impl Clone for IndexSpec {
    /// A clone denotes the same index.
    fn clone(&self) -> (r: Self)
        ensures
            r.model() == self.model(),
    {
        match self {
            IndexSpec::At(i) => IndexSpec::At(*i),
            IndexSpec::Range { start, end, step } => IndexSpec::Range {
                start: *start,
                end: *end,
                step: *step,
            },
        }
    }
}

impl Clone for ScriptCall {
    /// A clone denotes the same invocation.
    fn clone(&self) -> (r: Self)
        ensures
            r.call@ == self.call@,
            json_model_entries(r.params@) == json_model_entries(self.params@),
            r.security == self.security,
    {
        let params = crate::jsonval::clone_json_entries(&self.params, 0);
        let r = ScriptCall { call: self.call.clone(), params, security: self.security };
        proof {
            lemma_json_model_entries(r.params@);
            lemma_json_model_entries(self.params@);
            assert forall|k: int| 0 <= k < self.params@.len()
                implies json_model_entries(r.params@)[k] == json_model_entries(self.params@)[k] by {
                assert(r.params@[k].0@ == self.params@[k].0@);
                assert(r.params@[k].1@ == self.params@[k].1@);
            }
            assert(json_model_entries(r.params@) =~= json_model_entries(self.params@));
        }
        r
    }
}

impl Clone for ComponentRef {
    /// A clone denotes the same component call.
    fn clone(&self) -> (r: Self)
        ensures
            r.name@ == self.name@,
            json_model_entries(r.with@) == json_model_entries(self.with@),
    {
        let with = crate::jsonval::clone_json_entries(&self.with, 0);
        let r = ComponentRef { name: self.name.clone(), with };
        proof {
            lemma_json_model_entries(r.with@);
            lemma_json_model_entries(self.with@);
            assert forall|k: int| 0 <= k < self.with@.len()
                implies json_model_entries(r.with@)[k] == json_model_entries(self.with@)[k] by {
                assert(r.with@[k].0@ == self.with@[k].0@);
                assert(r.with@[k].1@ == self.with@[k].1@);
            }
            assert(json_model_entries(r.with@) =~= json_model_entries(self.with@));
        }
        r
    }
}

impl Clone for ConditionStep {
    /// A clone denotes the same conditional.
    fn clone(&self) -> (r: Self)
        ensures
            step_model_seq(r.when@) == step_model_seq(self.when@),
            step_model_seq(r.then_steps@) == step_model_seq(self.then_steps@),
            match (r.otherwise, self.otherwise) {
                (Some(a), Some(b)) => step_model_seq(a@) == step_model_seq(b@),
                (None, None) => true,
                _ => false,
            },
        decreases *self, 1int, 0int,
    {
        ConditionStep {
            when: clone_chain(&self.when),
            then_steps: clone_chain(&self.then_steps),
            otherwise: match &self.otherwise {
                Some(steps) => Some(clone_chain(steps)),
                None => None,
            },
        }
    }
}

impl Clone for ExtractStep {
    /// A clone denotes the same step.
    fn clone(&self) -> (r: Self)
        ensures
            r.model() == self.model(),
        decreases *self, 2int, 0int,
    {
        match self {
            ExtractStep::Css(s) => ExtractStep::Css(s.clone()),
            ExtractStep::Json(s) => ExtractStep::Json(s.clone()),
            ExtractStep::Xpath(s) => ExtractStep::Xpath(s.clone()),
            ExtractStep::Regex(s) => ExtractStep::Regex(s.clone()),
            ExtractStep::Attr(s) => ExtractStep::Attr(s.clone()),
            ExtractStep::Index(ix) => ExtractStep::Index(ix.clone()),
            ExtractStep::Filter(f) => ExtractStep::Filter(f.clone()),
            ExtractStep::Const(j) => ExtractStep::Const(j.clone()),
            ExtractStep::Var(s) => ExtractStep::Var(s.clone()),
            ExtractStep::Script(c) => ExtractStep::Script(c.clone()),
            ExtractStep::UseComponent(c) => ExtractStep::UseComponent(c.clone()),
            ExtractStep::MapEach(steps) => ExtractStep::MapEach(clone_chain(steps)),
            ExtractStep::Condition(c) => {
                proof {
                    assert(decreases_to!(*self => *c));
                }
                ExtractStep::Condition(Box::new((**c).clone()))
            },
        }
    }
}

impl Clone for ExtractComponent {
    /// A clone denotes the same component.
    fn clone(&self) -> (r: Self)
        ensures
            r@ == self@,
    {
        let inputs = crate::jsonval::clone_json_entries(&self.inputs, 0);
        let r = ExtractComponent { inputs, steps: clone_chain(&self.steps) };
        proof {
            lemma_json_model_entries(r.inputs@);
            lemma_json_model_entries(self.inputs@);
            assert forall|k: int| 0 <= k < self.inputs@.len()
                implies json_model_entries(r.inputs@)[k] == json_model_entries(self.inputs@)[k] by {
                assert(r.inputs@[k].0@ == self.inputs@[k].0@);
                assert(r.inputs@[k].1@ == self.inputs@[k].1@);
            }
            assert(json_model_entries(r.inputs@) =~= json_model_entries(self.inputs@));
            assert(r@ =~= self@);
        }
        r
    }
}

fn clone_chains(chains: &Vec<Vec<ExtractStep>>, i: usize) -> (out: Vec<Vec<ExtractStep>>)
    requires
        i <= chains@.len(),
    ensures
        out@.len() == chains@.len() - i,
        forall|k: int| 0 <= k < out@.len() ==> #[trigger] step_model_seq(out@[k]@)
            == step_model_seq(chains@[i + k]@),
    decreases chains@.len() - i,
{
    if i == chains.len() {
        Vec::new()
    } else {
        let mut rest = clone_chains(chains, i + 1);
        rest.insert(0, clone_chain(&chains[i]));
        rest
    }
}

impl Clone for FieldExtractor {
    /// A clone denotes the same extractor.
    fn clone(&self) -> (r: Self)
        ensures
            r@ == self@,
    {
        let fallback = match &self.fallback {
            Some(chains) => Some(clone_chains(chains, 0)),
            None => None,
        };
        let default = match &self.default {
            Some(j) => Some(j.clone()),
            None => None,
        };
        let r = FieldExtractor {
            steps: clone_chain(&self.steps),
            fallback,
            default,
            nullable: self.nullable,
        };
        proof {
            match (&r.fallback, &self.fallback) {
                (Some(a), Some(b)) => {
                    lemma_chain_model_seq(a@);
                    lemma_chain_model_seq(b@);
                    assert(chain_model_seq(a@) =~= chain_model_seq(b@));
                },
                _ => {},
            }
            assert(r@ =~= self@);
        }
        r
    }
}

} // verus!
