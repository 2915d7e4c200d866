//! The declarative pipeline of a flow: an ordered list of steps.

pub mod steps;

use vstd::prelude::*;
use crate::error::{CrawlerError, ErrModel, ValidationErrors, errs_extend};
use crate::template::Template;
use crate::types::ident_valid;
pub use steps::StepCacheGet;
pub use steps::StepCacheSet;
pub use steps::StepCall;
pub use steps::StepConstant;
pub use steps::StepHttpRequest;
pub use steps::StepJsonPath;
pub use steps::StepLog;
pub use steps::StepLoopForEach;
pub use steps::StepMapField;
pub use steps::StepScript;
pub use steps::StepSelector;
pub use steps::StepSelectorAll;
pub use steps::StepStringTemplate;

verus! {

use vstd::string::StringExecFns;

/// How a step is grouped for display.
#[derive(Debug, Clone, Copy, PartialEq, Eq, Hash, Structural)]
pub enum StepCategory {
    /// Requests and selectors.
    Core,
    /// Templates, constants and mappings.
    Data,
    /// Loops and conditions.
    Control,
    /// Cache reads and writes.
    Cache,
    /// Debugging aids.
    Debug,
    /// Everything else.
    Other,
}

/// An ordered list of steps.
pub type Pipeline = Vec<Step>;

/// One declarative operation of a flow's pipeline.
#[derive(Debug, PartialEq)]
pub enum Step {
    /// Issue a network request.
    HttpRequest(steps::StepHttpRequest),
    /// Select the first element matching a CSS selector.
    Selector(steps::StepSelector),
    /// Select every element matching a CSS selector.
    SelectorAll(steps::StepSelectorAll),
    /// Select within JSON by a path.
    JsonPath(steps::StepJsonPath),
    /// Call a script module function.
    Script(steps::StepScript),
    /// Call a reusable component.
    Call(steps::StepCall),
    /// Render a string template.
    StringTemplate(steps::StepStringTemplate),
    /// Bind a constant.
    Constant(steps::StepConstant),
    /// Map a parsed field onto the standard model.
    MapField(steps::StepMapField),
    /// Read from the cache.
    CacheGet(steps::StepCacheGet),
    /// Write to the cache.
    CacheSet(steps::StepCacheSet),
    /// Run a sub-pipeline for each item of an array.
    LoopForEach(steps::StepLoopForEach),
    /// Print a debug message.
    Log(steps::StepLog),
}

/// The behaviour every step offers: identity, templates, outputs and a
/// static self-check.
pub trait StepTrait {
    /// The step's unique name.
    fn name(&self) -> &'static str;

    /// A short description of the step.
    fn description(&self) -> &'static str;

    /// The group the step is shown under.
    fn category(&self) -> StepCategory;

    /// The templates the step renders.
    fn templates(&self) -> Vec<&Template>;

    /// The variable the step publishes, if any.
    fn output_variable(&self) -> Option<&str>;

    /// Records what the step's own static check finds.
    fn validate(&self, errors: &mut ValidationErrors);
}

/// Whether a step's declared output name is acceptable: either there is
/// none, or it is a well-formed identifier.
pub open spec fn output_name_ok(o: Option<&str>) -> bool {
    match o {
        Some(name) => ident_valid(name@),
        None => true,
    }
}

/// The finding an identifier check leaves: nothing for a well-formed name.
pub open spec fn ident_finding(name: Seq<char>) -> Seq<ErrModel> {
    if ident_valid(name) {
        Seq::<ErrModel>::empty()
    } else {
        seq![ErrModel::InvalidIdentifier {
            identifier: name,
            reason: "标识符必须以字母或下划线开头，只能包含字母、数字和下划线"@,
        }]
    }
}

/// The finding a template check leaves: nothing for a template that parses.
pub open spec fn template_finding(t: Seq<char>) -> Seq<ErrModel> {
    if crate::template::parse_template(t, 0) is Some {
        Seq::<ErrModel>::empty()
    } else {
        seq![ErrModel::TemplateSyntax { message: "malformed placeholder"@ }]
    }
}

/// What a step's own static check reports, in order: its templates must
/// parse and its declared names must be identifiers.
pub open spec fn step_check_findings(step: Step) -> Seq<ErrModel> {
    match step {
        Step::HttpRequest(s) => template_finding(s.url@) + ident_finding(s.output@),
        Step::Selector(s) => template_finding(s.input@) + ident_finding(s.output@),
        Step::SelectorAll(s) => template_finding(s.input@) + ident_finding(s.output@),
        Step::JsonPath(s) => template_finding(s.input@) + ident_finding(s.output@),
        Step::Script(s) => ident_finding(s.output@),
        Step::Call(s) => ident_finding(s.output@),
        Step::StringTemplate(s) => template_finding(s.template@) + ident_finding(s.output@),
        Step::Constant(s) => ident_finding(s.output@),
        Step::MapField(_) => Seq::<ErrModel>::empty(),
        Step::CacheGet(s) => template_finding(s.key@) + ident_finding(s.output@),
        Step::CacheSet(s) => template_finding(s.key@) + template_finding(s.value@),
        Step::LoopForEach(s) => template_finding(s.input@) + ident_finding(s.item_name@),
        Step::Log(s) => template_finding(s.message@),
    }
}

/// Records an error unless the name is a well-formed identifier.
fn check_ident(name: &str, errors: &mut ValidationErrors)
    ensures
        ident_valid(name@) ==> final(errors)@ == old(errors)@,
        !ident_valid(name@) ==> final(errors)@ == old(errors)@.push(ErrModel::InvalidIdentifier {
            identifier: name@,
            reason: "标识符必须以字母或下划线开头，只能包含字母、数字和下划线"@,
        }),
{
    match crate::types::Identifier::new(name) {
        Ok(_) => (),
        Err(e) => {
            errors.push(e);
        },
    }
}

/// Records an error unless the template parses.
fn check_template(t: &Template, errors: &mut ValidationErrors)
    ensures
        crate::template::parse_template(t@, 0) is Some ==> final(errors)@ == old(errors)@,
        crate::template::parse_template(t@, 0) is None ==> final(errors)@ == old(errors)@.push(
            ErrModel::TemplateSyntax { message: "malformed placeholder"@ },
        ),
{
    match t.check() {
        Ok(()) => (),
        Err(e) => {
            errors.push(e);
        },
    }
}

impl Step {
    /// The step's unique name.
    pub fn name(&self) -> (r: &'static str)
        ensures
            match self {
                Step::HttpRequest(_) => r@ == "http_request"@,
                Step::Selector(_) => r@ == "selector"@,
                Step::SelectorAll(_) => r@ == "selector_all"@,
                Step::JsonPath(_) => r@ == "json_path"@,
                Step::Script(_) => r@ == "script"@,
                Step::Call(_) => r@ == "call"@,
                Step::StringTemplate(_) => r@ == "string_template"@,
                Step::Constant(_) => r@ == "constant"@,
                Step::MapField(_) => r@ == "map_field"@,
                Step::CacheGet(_) => r@ == "cache_get"@,
                Step::CacheSet(_) => r@ == "cache_set"@,
                Step::LoopForEach(_) => r@ == "loop_for_each"@,
                Step::Log(_) => r@ == "log"@,
            },
    {
        match self {
            Step::HttpRequest(_) => "http_request",
            Step::Selector(_) => "selector",
            Step::SelectorAll(_) => "selector_all",
            Step::JsonPath(_) => "json_path",
            Step::Script(_) => "script",
            Step::Call(_) => "call",
            Step::StringTemplate(_) => "string_template",
            Step::Constant(_) => "constant",
            Step::MapField(_) => "map_field",
            Step::CacheGet(_) => "cache_get",
            Step::CacheSet(_) => "cache_set",
            Step::LoopForEach(_) => "loop_for_each",
            Step::Log(_) => "log",
        }
    }

    /// The group the step is shown under.
    pub fn category(&self) -> (r: StepCategory)
        ensures
            match self {
                Step::HttpRequest(_) => r == StepCategory::Core,
                Step::Selector(_) => r == StepCategory::Core,
                Step::SelectorAll(_) => r == StepCategory::Core,
                Step::JsonPath(_) => r == StepCategory::Core,
                Step::Script(_) => r == StepCategory::Core,
                Step::Call(_) => r == StepCategory::Core,
                Step::StringTemplate(_) => r == StepCategory::Data,
                Step::Constant(_) => r == StepCategory::Data,
                Step::MapField(_) => r == StepCategory::Data,
                Step::CacheGet(_) => r == StepCategory::Cache,
                Step::CacheSet(_) => r == StepCategory::Cache,
                Step::LoopForEach(_) => r == StepCategory::Control,
                Step::Log(_) => r == StepCategory::Debug,
            },
    {
        match self {
            Step::HttpRequest(_) => StepCategory::Core,
            Step::Selector(_) => StepCategory::Core,
            Step::SelectorAll(_) => StepCategory::Core,
            Step::JsonPath(_) => StepCategory::Core,
            Step::Script(_) => StepCategory::Core,
            Step::Call(_) => StepCategory::Core,
            Step::StringTemplate(_) => StepCategory::Data,
            Step::Constant(_) => StepCategory::Data,
            Step::MapField(_) => StepCategory::Data,
            Step::CacheGet(_) => StepCategory::Cache,
            Step::CacheSet(_) => StepCategory::Cache,
            Step::LoopForEach(_) => StepCategory::Control,
            Step::Log(_) => StepCategory::Debug,
        }
    }

    /// The variable the step publishes, if any.
    pub fn output_variable(&self) -> (r: Option<&str>)
        ensures
            match r {
                Some(name) => step_output(*self) == Some(name@),
                None => step_output(*self) is None,
            },
    {
        match self {
            Step::HttpRequest(s) => Some(s.output.as_str()),
            Step::Selector(s) => Some(s.output.as_str()),
            Step::SelectorAll(s) => Some(s.output.as_str()),
            Step::JsonPath(s) => Some(s.output.as_str()),
            Step::Script(s) => Some(s.output.as_str()),
            Step::Call(s) => Some(s.output.as_str()),
            Step::StringTemplate(s) => Some(s.output.as_str()),
            Step::Constant(s) => Some(s.output.as_str()),
            Step::MapField(_) => None,
            Step::CacheGet(s) => Some(s.output.as_str()),
            Step::CacheSet(_) => None,
            Step::LoopForEach(_) => None,
            Step::Log(_) => None,
        }
    }

    /// Runs the step's own static check, recording exactly its findings:
    /// declared names must be identifiers and templates must parse.
    pub fn validate(&self, errors: &mut ValidationErrors)
        ensures
            final(errors)@ == old(errors)@ + step_check_findings(*self),
            errs_extend(old(errors)@, final(errors)@),
    {
        let ghost n0 = errors@.len();
        match self {
            Step::HttpRequest(s) => {
                check_template(&s.url, errors);
                check_ident(s.output.as_str(), errors);
            },
            Step::Selector(s) => {
                check_template(&s.input, errors);
                check_ident(s.output.as_str(), errors);
            },
            Step::SelectorAll(s) => {
                check_template(&s.input, errors);
                check_ident(s.output.as_str(), errors);
            },
            Step::JsonPath(s) => {
                check_template(&s.input, errors);
                check_ident(s.output.as_str(), errors);
            },
            Step::Script(s) => {
                check_ident(s.output.as_str(), errors);
            },
            Step::Call(s) => {
                check_ident(s.output.as_str(), errors);
            },
            Step::StringTemplate(s) => {
                check_template(&s.template, errors);
                check_ident(s.output.as_str(), errors);
            },
            Step::Constant(s) => {
                check_ident(s.output.as_str(), errors);
            },
            Step::MapField(_) => (),
            Step::CacheGet(s) => {
                check_template(&s.key, errors);
                check_ident(s.output.as_str(), errors);
            },
            Step::CacheSet(s) => {
                check_template(&s.key, errors);
                check_template(&s.value, errors);
            },
            Step::LoopForEach(s) => {
                check_template(&s.input, errors);
                check_ident(s.item_name.as_str(), errors);
            },
            Step::Log(s) => {
                check_template(&s.message, errors);
            },
        }
        proof {
            assert(errors@ =~= old(errors)@ + step_check_findings(*self));
        }
    }
}

impl Step {
    /// A short description of the step, for display only.
    pub fn description(&self) -> &'static str {
        match self {
            Step::HttpRequest(_) => "issues a network request",
            Step::Selector(_) => "selects the first matching element",
            Step::SelectorAll(_) => "selects every matching element",
            Step::JsonPath(_) => "selects within JSON by a path",
            Step::Script(_) => "calls a script module function",
            Step::Call(_) => "calls a reusable component",
            Step::StringTemplate(_) => "renders a string template",
            Step::Constant(_) => "binds a constant",
            Step::MapField(_) => "maps a parsed field onto the model",
            Step::CacheGet(_) => "reads from the cache",
            Step::CacheSet(_) => "writes to the cache",
            Step::LoopForEach(_) => "runs a sub-pipeline per item",
            Step::Log(_) => "prints a debug message",
        }
    }

    /// The templates the step renders, in order of appearance.
    pub fn templates(&self) -> (r: Vec<&Template>)
        ensures
            tpl_views(r@) == step_template_texts(*self),
    {
        let mut out: Vec<&Template> = Vec::new();
        match self {
            Step::HttpRequest(s) => {
                out.push(&s.url);
                match &s.body {
                    Some(b) => {
                        out.push(b);
                    },
                    None => (),
                }
            },
            Step::Selector(s) => {
                out.push(&s.input);
            },
            Step::SelectorAll(s) => {
                out.push(&s.input);
            },
            Step::JsonPath(s) => {
                out.push(&s.input);
            },
            Step::Script(s) => {
                match &s.input {
                    Some(t) => {
                        out.push(t);
                    },
                    None => (),
                }
            },
            Step::Call(_) => (),
            Step::StringTemplate(s) => {
                out.push(&s.template);
            },
            Step::Constant(_) => (),
            Step::MapField(_) => (),
            Step::CacheGet(s) => {
                out.push(&s.key);
            },
            Step::CacheSet(s) => {
                out.push(&s.key);
                out.push(&s.value);
            },
            Step::LoopForEach(s) => {
                out.push(&s.input);
            },
            Step::Log(s) => {
                out.push(&s.message);
            },
        }
        proof {
            assert(tpl_views(out@) =~= step_template_texts(*self));
        }
        out
    }

    /// The variables the step's templates reference — each placeholder's
    /// root name, its field and index segments dropped — in order of
    /// appearance.
    pub fn required_variables(&self) -> (r: Vec<String>)
        ensures
            crate::template::name_views(r@) == step_required_vars(*self),
    {
        let templates = self.templates();
        proof {
            assert(tpl_views(templates@).skip(0) =~= tpl_views(templates@));
        }
        collect_template_vars(&templates, 0)
    }
}

fn collect_template_vars(templates: &Vec<&Template>, i: usize) -> (out: Vec<String>)
    requires
        i <= templates@.len(),
    ensures
        crate::template::name_views(out@) == texts_vars(tpl_views(templates@).skip(i as int)),
    decreases templates@.len() - i,
{
    let ghost views = tpl_views(templates@);
    if i == templates.len() {
        let out: Vec<String> = Vec::new();
        proof {
            assert(views.skip(i as int).len() == 0);
            assert(crate::template::name_views(out@) =~= texts_vars(views.skip(i as int)));
        }
        out
    } else {
        proof {
            assert(views.skip(i as int)[0] == views[i as int]);
            assert(views.skip(i as int).skip(1) =~= views.skip(i + 1));
        }
        let mut out = templates[i].variables();
        let ghost head = out@;
        let mut rest = collect_template_vars(templates, i + 1);
        let ghost tail = rest@;
        out.append(&mut rest);
        proof {
            assert forall|k: int| 0 <= k < out@.len()
                implies crate::template::name_views(out@)[k]
                    == (template_vars(views[i as int]) + texts_vars(views.skip(i + 1)))[k] by {
                if k < head.len() {
                    assert(out@[k] == head[k]);
                    assert(crate::template::name_views(head)[k] == head[k]@);
                } else {
                    assert(out@[k] == tail[k - head.len()]);
                    assert(crate::template::name_views(tail)[k - head.len()] == tail[k - head.len()]@);
                }
            }
            assert(crate::template::name_views(out@)
                =~= template_vars(views[i as int]) + texts_vars(views.skip(i + 1)));
        }
        out
    }
}

impl StepTrait for Step {
    /// The step's unique name.
    fn name(&self) -> &'static str {
        Step::name(self)
    }

    /// A short description of the step.
    fn description(&self) -> &'static str {
        Step::description(self)
    }

    /// The group the step is shown under.
    fn category(&self) -> StepCategory {
        Step::category(self)
    }

    /// The templates the step renders.
    fn templates(&self) -> Vec<&Template> {
        Step::templates(self)
    }

    /// The variable the step publishes, if any.
    fn output_variable(&self) -> Option<&str> {
        Step::output_variable(self)
    }

    /// Records what the step's own static check finds.
    fn validate(&self, errors: &mut ValidationErrors) {
        Step::validate(self, errors)
    }
}

/// The output variable a step declares, if any.
pub open spec fn step_output(step: Step) -> Option<Seq<char>> {
    match step {
        Step::HttpRequest(s) => Some(s.output@),
        Step::Selector(s) => Some(s.output@),
        Step::SelectorAll(s) => Some(s.output@),
        Step::JsonPath(s) => Some(s.output@),
        Step::Script(s) => Some(s.output@),
        Step::Call(s) => Some(s.output@),
        Step::StringTemplate(s) => Some(s.output@),
        Step::Constant(s) => Some(s.output@),
        Step::MapField(_) => None,
        Step::CacheGet(s) => Some(s.output@),
        Step::CacheSet(_) => None,
        Step::LoopForEach(_) => None,
        Step::Log(_) => None,
    }
}

/// The texts of the templates a step renders, in order.
pub open spec fn step_template_texts(step: Step) -> Seq<Seq<char>> {
    match step {
        Step::HttpRequest(s) => seq![s.url@] + (match s.body {
            Some(b) => seq![b@],
            None => Seq::<Seq<char>>::empty(),
        }),
        Step::Selector(s) => seq![s.input@],
        Step::SelectorAll(s) => seq![s.input@],
        Step::JsonPath(s) => seq![s.input@],
        Step::Script(s) => match s.input {
            Some(t) => seq![t@],
            None => Seq::<Seq<char>>::empty(),
        },
        Step::Call(_) => Seq::<Seq<char>>::empty(),
        Step::StringTemplate(s) => seq![s.template@],
        Step::Constant(_) => Seq::<Seq<char>>::empty(),
        Step::MapField(_) => Seq::<Seq<char>>::empty(),
        Step::CacheGet(s) => seq![s.key@],
        Step::CacheSet(s) => seq![s.key@, s.value@],
        Step::LoopForEach(s) => seq![s.input@],
        Step::Log(s) => seq![s.message@],
    }
}

/// The variables one template references; a template that does not parse
/// references nothing.
pub open spec fn template_vars(t: Seq<char>) -> Seq<Seq<char>> {
    match crate::template::parse_template(t, 0) {
        Some(parts) => crate::template::parts_vars(parts),
        None => Seq::<Seq<char>>::empty(),
    }
}

/// The variables a list of templates references, in order.
pub open spec fn texts_vars(ts: Seq<Seq<char>>) -> Seq<Seq<char>>
    decreases ts.len(),
{
    if ts.len() == 0 {
        Seq::<Seq<char>>::empty()
    } else {
        template_vars(ts[0]) + texts_vars(ts.skip(1))
    }
}

/// The variables a step's templates reference, in order of appearance.
pub open spec fn step_required_vars(step: Step) -> Seq<Seq<char>> {
    texts_vars(step_template_texts(step))
}

/// The views of a list of borrowed templates, in order.
pub open spec fn tpl_views(ts: Seq<&Template>) -> Seq<Seq<char>> {
    Seq::new(ts.len(), |i: int| ts[i]@)
}

/// A step's findings wrapped with its position: each finding becomes a
/// pipeline report carrying the step index and the finding's description.
pub open spec fn wrap_findings(findings: Seq<ErrModel>, index: int) -> Seq<ErrModel> {
    Seq::new(findings.len(), |k: int| ErrModel::PipelineValidation {
        step_index: index,
        message: crate::error::err_message(findings[k]),
    })
}

/// Every step's wrapped findings from position `i` on, in step order.
pub open spec fn pipeline_wrapped_findings(p: Seq<Step>, i: int) -> Seq<ErrModel>
    decreases p.len() - i,
{
    if !(0 <= i) || i >= p.len() {
        Seq::<ErrModel>::empty()
    } else {
        wrap_findings(step_check_findings(p[i]), i) + pipeline_wrapped_findings(p, i + 1)
    }
}

/// The output names the steps from position `i` on publish, in order.
pub open spec fn outputs_from(p: Seq<Step>, i: int) -> Seq<Seq<char>>
    decreases p.len() - i,
{
    if !(0 <= i) || i >= p.len() {
        Seq::<Seq<char>>::empty()
    } else {
        (match step_output(p[i]) {
            Some(n) => seq![n],
            None => Seq::<Seq<char>>::empty(),
        }) + outputs_from(p, i + 1)
    }
}

/// Whether the name list holds the name.
pub open spec fn contains_name_spec(names: Seq<Seq<char>>, name: Seq<char>) -> bool {
    exists|i: int| 0 <= i < names.len() && names[i] == name
}

/// The required list grown by the wanted names from position `k` on that
/// neither the defined nor the required list holds yet.
pub open spec fn add_missing(wanted: Seq<Seq<char>>, k: int, defined: Seq<Seq<char>>,
    required: Seq<Seq<char>>) -> Seq<Seq<char>>
    decreases wanted.len() - k,
{
    if !(0 <= k) || k >= wanted.len() {
        required
    } else {
        let required2 = if contains_name_spec(defined, wanted[k])
            || contains_name_spec(required, wanted[k]) {
            required
        } else {
            required.push(wanted[k])
        };
        add_missing(wanted, k + 1, defined, required2)
    }
}

/// The fold computing a pipeline's external variables: each step first
/// claims the names its templates reference and no earlier step published,
/// then publishes its own output.
pub open spec fn rev_fold(p: Seq<Step>, i: int, defined: Seq<Seq<char>>, required: Seq<Seq<char>>)
    -> Seq<Seq<char>>
    decreases p.len() - i,
{
    if !(0 <= i) || i >= p.len() {
        required
    } else {
        let required2 = add_missing(step_required_vars(p[i]), 0, defined, required);
        let defined2 = match step_output(p[i]) {
            Some(n) => defined.push(n),
            None => defined,
        };
        rev_fold(p, i + 1, defined2, required2)
    }
}

/// Whether the list holds the name.
fn contains_name(names: &Vec<String>, name: &str) -> (r: bool)
    ensures
        r == contains_name_spec(crate::template::name_views(names@), name@),
{
    let ghost views = crate::template::name_views(names@);
    let mut i: usize = 0;
    while i < names.len()
        invariant
            i <= names@.len(),
            views == crate::template::name_views(names@),
            forall|k: int| 0 <= k < i ==> views[k] != name@,
        decreases names@.len() - i,
    {
        if crate::text::str_eq(names[i].as_str(), name) {
            proof {
                assert(views[i as int] == name@);
            }
            return true;
        }
        i = i + 1;
    }
    false
}

/// The variables the pipeline's steps publish, in order.
pub fn pipeline_output_variables(p: &Pipeline) -> (out: Vec<String>)
    ensures
        crate::template::name_views(out@) == outputs_from(p@, 0),
{
    let mut out: Vec<String> = Vec::new();
    let mut i: usize = 0;
    while i < p.len()
        invariant
            i <= p@.len(),
            crate::template::name_views(out@) + outputs_from(p@, i as int) == outputs_from(p@, 0),
        decreases p@.len() - i,
    {
        let ghost before = crate::template::name_views(out@);
        match p[i].output_variable() {
            Some(name) => {
                out.push(String::from_str(name));
                proof {
                    assert(crate::template::name_views(out@) =~= before + seq![name@]);
                    assert((before + seq![name@]) + outputs_from(p@, i + 1)
                        =~= before + (seq![name@] + outputs_from(p@, i + 1)));
                }
            },
            None => {
                proof {
                    assert(Seq::<Seq<char>>::empty() + outputs_from(p@, i + 1)
                        =~= outputs_from(p@, i + 1));
                }
            },
        }
        i = i + 1;
    }
    proof {
        assert(crate::template::name_views(out@) + outputs_from(p@, i as int)
            =~= crate::template::name_views(out@));
    }
    out
}

/// The variables the pipeline needs from outside: exactly the names some
/// step's templates reference before any earlier step published them, each
/// kept once, in order of first appearance.
pub fn pipeline_required_external_variables(p: &Pipeline) -> (out: Vec<String>)
    ensures
        crate::template::name_views(out@) == rev_fold(p@, 0,
            Seq::<Seq<char>>::empty(), Seq::<Seq<char>>::empty()),
{
    let mut required: Vec<String> = Vec::new();
    let mut defined: Vec<String> = Vec::new();
    let mut i: usize = 0;
    proof {
        assert(crate::template::name_views(required@) =~= Seq::<Seq<char>>::empty());
        assert(crate::template::name_views(defined@) =~= Seq::<Seq<char>>::empty());
    }
    while i < p.len()
        invariant
            i <= p@.len(),
            rev_fold(p@, i as int, crate::template::name_views(defined@),
                crate::template::name_views(required@))
                == rev_fold(p@, 0, Seq::<Seq<char>>::empty(), Seq::<Seq<char>>::empty()),
        decreases p@.len() - i,
    {
        let wanted = p[i].required_variables();
        let ghost wviews = crate::template::name_views(wanted@);
        let ghost dviews = crate::template::name_views(defined@);
        let ghost r0 = crate::template::name_views(required@);
        let mut k: usize = 0;
        while k < wanted.len()
            invariant
                k <= wanted@.len(),
                i < p@.len(),
                wviews == crate::template::name_views(wanted@),
                wviews == step_required_vars(p@[i as int]),
                dviews == crate::template::name_views(defined@),
                add_missing(wviews, k as int, dviews, crate::template::name_views(required@))
                    == add_missing(wviews, 0, dviews, r0),
            decreases wanted@.len() - k,
        {
            let name = wanted[k].as_str();
            proof {
                assert(wviews[k as int] == name@);
            }
            if !contains_name(&defined, name) && !contains_name(&required, name) {
                let ghost before = crate::template::name_views(required@);
                required.push(String::from_str(name));
                proof {
                    assert(crate::template::name_views(required@) =~= before.push(name@));
                }
            }
            k = k + 1;
        }
        proof {
            assert(crate::template::name_views(required@) == add_missing(wviews, 0, dviews, r0));
            assert(rev_fold(p@, i as int, dviews, r0) == rev_fold(p@, i + 1,
                match step_output(p@[i as int]) {
                    Some(n) => dviews.push(n),
                    None => dviews,
                },
                add_missing(wviews, 0, dviews, r0)));
        }
        match p[i].output_variable() {
            Some(name) => {
                defined.push(String::from_str(name));
                proof {
                    assert(crate::template::name_views(defined@) =~= dviews.push(name@));
                }
            },
            None => (),
        }
        i = i + 1;
    }
    required
}

/// Pipeline-level queries and checks.
pub trait PipelineExt {
    /// Checks every step, wrapping findings with their step position.
    fn validate(&self) -> Result<(), CrawlerError>;

    /// The variables the pipeline's steps publish, in order.
    fn output_variables(&self) -> Vec<String>;

    /// The variables the pipeline needs from outside: those a step's
    /// templates reference before any earlier step has published them.
    fn required_external_variables(&self) -> Vec<String>;
}

/// Checks every step, returning exactly the wrapped findings: success when
/// no step reports anything, one wrapped finding raw, several collected.
pub fn validate_pipeline_steps(p: &Pipeline) -> (r: Result<(), CrawlerError>)
    ensures
        ({
            let found = pipeline_wrapped_findings(p@, 0);
            match r {
                Ok(()) => found.len() == 0,
                Err(e) => found.len() > 0 && (if found.len() == 1 {
                    e@ == found[0]
                } else {
                    e@ == (ErrModel::MultipleErrors { count: found.len() as int, errors: found })
                }),
            }
        }),
{
    let mut errors = ValidationErrors::new();
    let mut i: usize = 0;
    while i < p.len()
        invariant
            i <= p@.len(),
            errors@ + pipeline_wrapped_findings(p@, i as int) == pipeline_wrapped_findings(p@, 0),
        decreases p@.len() - i,
    {
        let mut step_errors = ValidationErrors::new();
        p[i].validate(&mut step_errors);
        let ghost fs = step_check_findings(p@[i as int]);
        let found = step_errors.into_errors();
        proof {
            crate::error::lemma_err_model_seq(found@);
            assert(crate::error::err_model_seq(found@) =~= fs);
        }
        let ghost before = errors@;
        let mut k: usize = 0;
        while k < found.len()
            invariant
                k <= found@.len(),
                i < p@.len(),
                fs == step_check_findings(p@[i as int]),
                crate::error::err_model_seq(found@) == fs,
                fs.len() == found@.len(),
                forall|t: int| 0 <= t < found@.len()
                    ==> #[trigger] found@[t].model() == fs[t],
                errors@ == before + wrap_findings(fs, i as int).take(k as int),
            decreases found@.len() - k,
        {
            errors.push(CrawlerError::PipelineValidation {
                step_index: i,
                message: found[k].message(),
            });
            k = k + 1;
            proof {
                assert(errors@ =~= before + wrap_findings(fs, i as int).take(k as int));
            }
        }
        proof {
            assert(wrap_findings(fs, i as int).take(found@.len() as int) =~= wrap_findings(fs, i as int));
            assert(errors@ == before + wrap_findings(fs, i as int));
            assert(before + (wrap_findings(fs, i as int) + pipeline_wrapped_findings(p@, i + 1))
                =~= (before + wrap_findings(fs, i as int)) + pipeline_wrapped_findings(p@, i + 1));
        }
        i = i + 1;
    }
    proof {
        assert(errors@ + pipeline_wrapped_findings(p@, i as int) =~= errors@);
        assert(errors@ == pipeline_wrapped_findings(p@, 0));
    }
    errors.into_result()
}

impl PipelineExt for Pipeline {
    /// Checks every step, wrapping findings with their step position.
    fn validate(&self) -> Result<(), CrawlerError> {
        validate_pipeline_steps(self)
    }

    /// The variables the pipeline's steps publish, in order.
    fn output_variables(&self) -> Vec<String> {
        pipeline_output_variables(self)
    }

    /// The variables the pipeline needs from outside: the roots a step's
    /// templates reference before any earlier step has published them.
    fn required_external_variables(&self) -> Vec<String> {
        pipeline_required_external_variables(self)
    }
}

} // verus!
