//! The error taxonomy of the rule engine, and the collector the validator
//! uses to report every finding at once.

use vstd::prelude::*;
use crate::text::{int_to_string_spec, nat_digits_chars, chars_to_string};

verus! {

use vstd::string::StringExecFns;

broadcast use vstd::std_specs::vec::group_vec_axioms;

/// An error of the rule engine.
#[derive(Debug, PartialEq)]
pub enum CrawlerError {
    /// A template does not parse.
    TemplateSyntax { message: String },
    /// A template failed to render.
    TemplateRender { message: String },
    /// A template referenced a variable the context does not hold.
    UndefinedVariable { variable: String },
    /// A declared name is not a well-formed identifier.
    InvalidIdentifier { identifier: String, reason: String },
    /// A pipeline calls a component the rule does not define.
    UndefinedComponent { component: String },
    /// A rule names a flow it does not define.
    UndefinedFlow { flow: String },
    /// The component-call graph has a cycle; the path repeats its first node.
    CircularReference { path: String },
    /// A field is mapped onto a model that does not have it.
    InvalidFieldMapping { field: String, model: String },
    /// A step inside a pipeline failed its static check.
    PipelineValidation { step_index: usize, message: String },
    /// A required configuration item is missing.
    MissingConfig { field: String },
    /// A configuration item holds a value it may not.
    InvalidConfigValue { field: String, reason: String },
    /// A script step names a module the rule does not define.
    UndefinedScriptModule { module: String },
    /// A script step names a function its module does not define.
    UndefinedScriptFunction { module: String, function: String },
    /// A runtime resource cap was exceeded.
    ResourceLimitExceeded { limit_type: String, current: usize, max: usize },
    /// Component calls nested deeper than the recursion cap.
    RecursionLimitExceeded { current: usize, max: usize },
    /// An operation ran longer than its time cap.
    ExecutionTimeout { operation: String, elapsed_ms: u64, limit_ms: u64 },
    /// A network request failed.
    HttpRequest(String),
    /// A step could not extract from its input.
    Extraction(String),
    /// Text that should have been JSON did not parse.
    JsonParse(String),
    /// An input or output operation failed.
    Io(String),
    /// More than one validation error was collected.
    MultipleErrors { count: usize, errors: Vec<CrawlerError> },
}

/// The mathematical shape of a `CrawlerError`.
#[verifier::ext_equal]
pub enum ErrModel {
    /// A template does not parse.
    TemplateSyntax { message: Seq<char> },
    /// A template failed to render.
    TemplateRender { message: Seq<char> },
    /// A template referenced an unknown variable.
    UndefinedVariable { variable: Seq<char> },
    /// A declared name is not a well-formed identifier.
    InvalidIdentifier { identifier: Seq<char>, reason: Seq<char> },
    /// A pipeline calls an undefined component.
    UndefinedComponent { component: Seq<char> },
    /// A rule names an undefined flow.
    UndefinedFlow { flow: Seq<char> },
    /// The component-call graph has a cycle.
    CircularReference { path: Seq<char> },
    /// A field is mapped onto a model that does not have it.
    InvalidFieldMapping { field: Seq<char>, model: Seq<char> },
    /// A step failed its static check.
    PipelineValidation { step_index: int, message: Seq<char> },
    /// A required configuration item is missing.
    MissingConfig { field: Seq<char> },
    /// A configuration item holds a value it may not.
    InvalidConfigValue { field: Seq<char>, reason: Seq<char> },
    /// A script step names an undefined module.
    UndefinedScriptModule { module: Seq<char> },
    /// A script step names an undefined function.
    UndefinedScriptFunction { module: Seq<char>, function: Seq<char> },
    /// A runtime resource cap was exceeded.
    ResourceLimitExceeded { limit_type: Seq<char>, current: int, max: int },
    /// Component calls nested deeper than the recursion cap.
    RecursionLimitExceeded { current: int, max: int },
    /// An operation ran longer than its time cap.
    ExecutionTimeout { operation: Seq<char>, elapsed_ms: int, limit_ms: int },
    /// A network request failed.
    HttpRequest(Seq<char>),
    /// A step could not extract from its input.
    Extraction(Seq<char>),
    /// Text that should have been JSON did not parse.
    JsonParse(Seq<char>),
    /// An input or output operation failed.
    Io(Seq<char>),
    /// More than one validation error was collected.
    MultipleErrors { count: int, errors: Seq<ErrModel> },
}

impl CrawlerError {
    /// The mathematical error this one denotes.
    pub open spec fn model(self) -> ErrModel
        decreases self, 1int,
    {
        match self {
            CrawlerError::TemplateSyntax { message } => ErrModel::TemplateSyntax { message: message@ },
            CrawlerError::TemplateRender { message } => ErrModel::TemplateRender { message: message@ },
            CrawlerError::UndefinedVariable { variable } => ErrModel::UndefinedVariable { variable: variable@ },
            CrawlerError::InvalidIdentifier { identifier, reason } => ErrModel::InvalidIdentifier {
                identifier: identifier@,
                reason: reason@,
            },
            CrawlerError::UndefinedComponent { component } => ErrModel::UndefinedComponent { component: component@ },
            CrawlerError::UndefinedFlow { flow } => ErrModel::UndefinedFlow { flow: flow@ },
            CrawlerError::CircularReference { path } => ErrModel::CircularReference { path: path@ },
            CrawlerError::InvalidFieldMapping { field, model } => ErrModel::InvalidFieldMapping {
                field: field@,
                model: model@,
            },
            CrawlerError::PipelineValidation { step_index, message } => ErrModel::PipelineValidation {
                step_index: step_index as int,
                message: message@,
            },
            CrawlerError::MissingConfig { field } => ErrModel::MissingConfig { field: field@ },
            CrawlerError::InvalidConfigValue { field, reason } => ErrModel::InvalidConfigValue {
                field: field@,
                reason: reason@,
            },
            CrawlerError::UndefinedScriptModule { module } => ErrModel::UndefinedScriptModule { module: module@ },
            CrawlerError::UndefinedScriptFunction { module, function } => ErrModel::UndefinedScriptFunction {
                module: module@,
                function: function@,
            },
            CrawlerError::ResourceLimitExceeded { limit_type, current, max } => ErrModel::ResourceLimitExceeded {
                limit_type: limit_type@,
                current: current as int,
                max: max as int,
            },
            CrawlerError::RecursionLimitExceeded { current, max } => ErrModel::RecursionLimitExceeded {
                current: current as int,
                max: max as int,
            },
            CrawlerError::ExecutionTimeout { operation, elapsed_ms, limit_ms } => ErrModel::ExecutionTimeout {
                operation: operation@,
                elapsed_ms: elapsed_ms as int,
                limit_ms: limit_ms as int,
            },
            CrawlerError::HttpRequest(m) => ErrModel::HttpRequest(m@),
            CrawlerError::Extraction(m) => ErrModel::Extraction(m@),
            CrawlerError::JsonParse(m) => ErrModel::JsonParse(m@),
            CrawlerError::Io(m) => ErrModel::Io(m@),
            CrawlerError::MultipleErrors { count, errors } => ErrModel::MultipleErrors {
                count: count as int,
                errors: err_model_seq(errors@),
            },
        }
    }
}

impl View for CrawlerError {
    type V = ErrModel;

    open spec fn view(&self) -> ErrModel {
        self.model()
    }
}

/// The models of a sequence of errors, in order.
pub open spec fn err_model_seq(errors: Seq<CrawlerError>) -> Seq<ErrModel>
    decreases errors, 0int,
{
    if errors.len() == 0 {
        Seq::<ErrModel>::empty()
    } else {
        seq![errors[0].model()] + err_model_seq(errors.skip(1))
    }
}

/// `err_model_seq` maps each error to its model, keeping positions.
pub proof fn lemma_err_model_seq(errors: Seq<CrawlerError>)
    ensures
        err_model_seq(errors).len() == errors.len(),
        forall|i: int| 0 <= i < errors.len() ==> err_model_seq(errors)[i] == errors[i].model(),
    decreases errors.len(),
{
    if errors.len() > 0 {
        lemma_err_model_seq(errors.skip(1));
        assert forall|i: int| 0 <= i < errors.len() implies err_model_seq(errors)[i]
            == errors[i].model() by {
            if i > 0 {
                assert(err_model_seq(errors)[i] == err_model_seq(errors.skip(1))[i - 1]);
                assert(errors.skip(1)[i - 1] == errors[i]);
            }
        }
    }
}

/// Whether `b` carries every error of `a`, in place, with possibly more
/// after them: the only way a collector ever changes.
pub open spec fn errs_extend(a: Seq<ErrModel>, b: Seq<ErrModel>) -> bool {
    a.len() <= b.len() && forall|i: int| 0 <= i < a.len() ==> a[i] == b[i]
}

/// The user-facing description of an error.
pub open spec fn err_message(e: ErrModel) -> Seq<char> {
    match e {
        ErrModel::TemplateSyntax { message } => "模板语法错误: "@ + message,
        ErrModel::TemplateRender { message } => "模板渲染错误: "@ + message,
        ErrModel::UndefinedVariable { variable } => "模板变量 '"@ + variable + "' 未定义"@,
        ErrModel::InvalidIdentifier { identifier, reason } =>
            "无效的标识符 '"@ + identifier + "': "@ + reason,
        ErrModel::UndefinedComponent { component } => "组件 '"@ + component + "' 未定义"@,
        ErrModel::UndefinedFlow { flow } => "流程 '"@ + flow + "' 未定义"@,
        ErrModel::CircularReference { path } => "检测到循环引用: "@ + path,
        ErrModel::InvalidFieldMapping { field, model } =>
            "字段映射错误: 目标字段 '"@ + field + "' 在模型 '"@ + model + "' 中不存在"@,
        ErrModel::PipelineValidation { step_index, message } =>
            "管道验证错误 (步骤 "@ + int_to_string_spec(step_index) + "): "@ + message,
        ErrModel::MissingConfig { field } => "缺少必需的配置项: "@ + field,
        ErrModel::InvalidConfigValue { field, reason } =>
            "配置项 '"@ + field + "' 的值无效: "@ + reason,
        ErrModel::UndefinedScriptModule { module } => "脚本模块 '"@ + module + "' 未定义"@,
        ErrModel::UndefinedScriptFunction { module, function } =>
            "脚本函数 '"@ + module + "."@ + function + "' 未定义"@,
        ErrModel::ResourceLimitExceeded { limit_type, current, max } =>
            "超出资源限制: "@ + limit_type + " (当前: "@ + int_to_string_spec(current)
                + ", 最大: "@ + int_to_string_spec(max) + ")"@,
        ErrModel::RecursionLimitExceeded { current, max } =>
            "递归深度超出限制 (当前: "@ + int_to_string_spec(current) + ", 最大: "@
                + int_to_string_spec(max) + ")"@,
        ErrModel::ExecutionTimeout { operation, elapsed_ms, limit_ms } =>
            "执行超时: "@ + operation + " (耗时: "@ + int_to_string_spec(elapsed_ms) + "ms, 限制: "@
                + int_to_string_spec(limit_ms) + "ms)"@,
        ErrModel::HttpRequest(m) => "HTTP请求错误: "@ + m,
        ErrModel::Extraction(m) => "提取错误: "@ + m,
        ErrModel::JsonParse(m) => "JSON解析错误: "@ + m,
        ErrModel::Io(m) => "IO错误: "@ + m,
        ErrModel::MultipleErrors { count, .. } =>
            "验证发现 "@ + int_to_string_spec(count) + " 个错误"@,
    }
}

fn append_usize(out: &mut String, n: usize)
    ensures
        final(out)@ == old(out)@ + int_to_string_spec(n as int),
{
    let chars = nat_digits_chars(n as u64);
    let part = chars_to_string(&chars);
    out.append(part.as_str());
}

impl CrawlerError {
    /// The user-facing description of this error.
    pub fn message(&self) -> (r: String)
        ensures
            r@ == err_message(self@),
    {
        let mut out = String::new();
        match self {
            CrawlerError::TemplateSyntax { message } => {
                out.append("模板语法错误: ");
                out.append(message.as_str());
            },
            CrawlerError::TemplateRender { message } => {
                out.append("模板渲染错误: ");
                out.append(message.as_str());
            },
            CrawlerError::UndefinedVariable { variable } => {
                out.append("模板变量 '");
                out.append(variable.as_str());
                out.append("' 未定义");
            },
            CrawlerError::InvalidIdentifier { identifier, reason } => {
                out.append("无效的标识符 '");
                out.append(identifier.as_str());
                out.append("': ");
                out.append(reason.as_str());
            },
            CrawlerError::UndefinedComponent { component } => {
                out.append("组件 '");
                out.append(component.as_str());
                out.append("' 未定义");
            },
            CrawlerError::UndefinedFlow { flow } => {
                out.append("流程 '");
                out.append(flow.as_str());
                out.append("' 未定义");
            },
            CrawlerError::CircularReference { path } => {
                out.append("检测到循环引用: ");
                out.append(path.as_str());
            },
            CrawlerError::InvalidFieldMapping { field, model } => {
                out.append("字段映射错误: 目标字段 '");
                out.append(field.as_str());
                out.append("' 在模型 '");
                out.append(model.as_str());
                out.append("' 中不存在");
            },
            CrawlerError::PipelineValidation { step_index, message } => {
                out.append("管道验证错误 (步骤 ");
                append_usize(&mut out, *step_index);
                out.append("): ");
                out.append(message.as_str());
            },
            CrawlerError::MissingConfig { field } => {
                out.append("缺少必需的配置项: ");
                out.append(field.as_str());
            },
            CrawlerError::InvalidConfigValue { field, reason } => {
                out.append("配置项 '");
                out.append(field.as_str());
                out.append("' 的值无效: ");
                out.append(reason.as_str());
            },
            CrawlerError::UndefinedScriptModule { module } => {
                out.append("脚本模块 '");
                out.append(module.as_str());
                out.append("' 未定义");
            },
            CrawlerError::UndefinedScriptFunction { module, function } => {
                out.append("脚本函数 '");
                out.append(module.as_str());
                out.append(".");
                out.append(function.as_str());
                out.append("' 未定义");
            },
            CrawlerError::ResourceLimitExceeded { limit_type, current, max } => {
                out.append("超出资源限制: ");
                out.append(limit_type.as_str());
                out.append(" (当前: ");
                append_usize(&mut out, *current);
                out.append(", 最大: ");
                append_usize(&mut out, *max);
                out.append(")");
            },
            CrawlerError::RecursionLimitExceeded { current, max } => {
                out.append("递归深度超出限制 (当前: ");
                append_usize(&mut out, *current);
                out.append(", 最大: ");
                append_usize(&mut out, *max);
                out.append(")");
            },
            CrawlerError::ExecutionTimeout { operation, elapsed_ms, limit_ms } => {
                out.append("执行超时: ");
                out.append(operation.as_str());
                out.append(" (耗时: ");
                append_u64(&mut out, *elapsed_ms);
                out.append("ms, 限制: ");
                append_u64(&mut out, *limit_ms);
                out.append("ms)");
            },
            CrawlerError::HttpRequest(m) => {
                out.append("HTTP请求错误: ");
                out.append(m.as_str());
            },
            CrawlerError::Extraction(m) => {
                out.append("提取错误: ");
                out.append(m.as_str());
            },
            CrawlerError::JsonParse(m) => {
                out.append("JSON解析错误: ");
                out.append(m.as_str());
            },
            CrawlerError::Io(m) => {
                out.append("IO错误: ");
                out.append(m.as_str());
            },
            CrawlerError::MultipleErrors { count, .. } => {
                out.append("验证发现 ");
                append_usize(&mut out, *count);
                out.append(" 个错误");
            },
        }
        proof {
            assert(out@ =~= err_message(self@));
        }
        out
    }
}

fn append_u64(out: &mut String, n: u64)
    ensures
        final(out)@ == old(out)@ + int_to_string_spec(n as int),
{
    let chars = nat_digits_chars(n);
    let part = chars_to_string(&chars);
    out.append(part.as_str());
}


fn clone_err_items(items: &Vec<CrawlerError>, i: usize) -> (out: Vec<CrawlerError>)
    requires
        i <= items@.len(),
    ensures
        out@.len() == items@.len() - i,
        forall|k: int| 0 <= k < out@.len() ==> #[trigger] out@[k]@ == items@[i + k]@,
    decreases *items, 0int, items@.len() - i,
{
    if i == items.len() {
        Vec::new()
    } else {
        proof {
            assert(decreases_to!(*items => items@[i as int]));
        }
        let mut rest = clone_err_items(items, i + 1);
        rest.insert(0, items[i].clone());
        rest
    }
}

impl Clone for CrawlerError {
    /// A clone denotes the same error.
    fn clone(&self) -> (r: Self)
        ensures
            r@ == self@,
        decreases *self, 1int, 0int,
    {
        match self {
            CrawlerError::TemplateSyntax { message } => CrawlerError::TemplateSyntax { message: message.clone() },
            CrawlerError::TemplateRender { message } => CrawlerError::TemplateRender { message: message.clone() },
            CrawlerError::UndefinedVariable { variable } => CrawlerError::UndefinedVariable {
                variable: variable.clone(),
            },
            CrawlerError::InvalidIdentifier { identifier, reason } => CrawlerError::InvalidIdentifier {
                identifier: identifier.clone(),
                reason: reason.clone(),
            },
            CrawlerError::UndefinedComponent { component } => CrawlerError::UndefinedComponent {
                component: component.clone(),
            },
            CrawlerError::UndefinedFlow { flow } => CrawlerError::UndefinedFlow { flow: flow.clone() },
            CrawlerError::CircularReference { path } => CrawlerError::CircularReference { path: path.clone() },
            CrawlerError::InvalidFieldMapping { field, model } => CrawlerError::InvalidFieldMapping {
                field: field.clone(),
                model: model.clone(),
            },
            CrawlerError::PipelineValidation { step_index, message } => CrawlerError::PipelineValidation {
                step_index: *step_index,
                message: message.clone(),
            },
            CrawlerError::MissingConfig { field } => CrawlerError::MissingConfig { field: field.clone() },
            CrawlerError::InvalidConfigValue { field, reason } => CrawlerError::InvalidConfigValue {
                field: field.clone(),
                reason: reason.clone(),
            },
            CrawlerError::UndefinedScriptModule { module } => CrawlerError::UndefinedScriptModule {
                module: module.clone(),
            },
            CrawlerError::UndefinedScriptFunction { module, function } => CrawlerError::UndefinedScriptFunction {
                module: module.clone(),
                function: function.clone(),
            },
            CrawlerError::ResourceLimitExceeded { limit_type, current, max } => CrawlerError::ResourceLimitExceeded {
                limit_type: limit_type.clone(),
                current: *current,
                max: *max,
            },
            CrawlerError::RecursionLimitExceeded { current, max } => CrawlerError::RecursionLimitExceeded {
                current: *current,
                max: *max,
            },
            CrawlerError::ExecutionTimeout { operation, elapsed_ms, limit_ms } => CrawlerError::ExecutionTimeout {
                operation: operation.clone(),
                elapsed_ms: *elapsed_ms,
                limit_ms: *limit_ms,
            },
            CrawlerError::HttpRequest(m) => CrawlerError::HttpRequest(m.clone()),
            CrawlerError::Extraction(m) => CrawlerError::Extraction(m.clone()),
            CrawlerError::JsonParse(m) => CrawlerError::JsonParse(m.clone()),
            CrawlerError::Io(m) => CrawlerError::Io(m.clone()),
            CrawlerError::MultipleErrors { count, errors } => {
                let out = clone_err_items(errors, 0);
                let r = CrawlerError::MultipleErrors { count: *count, errors: out };
                proof {
                    lemma_err_model_seq(out@);
                    lemma_err_model_seq(errors@);
                    assert forall|k: int| 0 <= k < errors@.len()
                        implies err_model_seq(out@)[k] == err_model_seq(errors@)[k] by {
                        assert(out@[k]@ == errors@[k]@);
                    }
                    assert(err_model_seq(out@) =~= err_model_seq(errors@));
                }
                r
            },
        }
    }
}

/// A result that carries a single engine error on failure.
pub type ValidationResult<T> = Result<T, CrawlerError>;

/// Collects validation errors so a rule is checked in full before any is
/// reported.
#[derive(Debug)]
pub struct ValidationErrors {
    errors: Vec<CrawlerError>,
}

impl View for ValidationErrors {
    type V = Seq<ErrModel>;

    closed spec fn view(&self) -> Seq<ErrModel> {
        err_model_seq(self.errors@)
    }
}

impl ValidationErrors {
    /// An empty collector.
    pub fn new() -> (r: Self)
        ensures
            r@ == Seq::<ErrModel>::empty(),
    {
        ValidationErrors { errors: Vec::new() }
    }

    /// Records one more error.
    pub fn push(&mut self, error: CrawlerError)
        ensures
            final(self)@ == old(self)@.push(error@),
    {
        proof {
            lemma_err_model_seq(self.errors@.push(error));
            lemma_err_model_seq(self.errors@);
        }
        let ghost before = self.errors@;
        self.errors.push(error);
        proof {
            lemma_err_model_seq(self.errors@);
            assert forall|k: int| 0 <= k < self.errors@.len()
                implies err_model_seq(self.errors@)[k] == old(self)@.push(error@)[k] by {
                if k < before.len() {
                    assert(self.errors@[k] == before[k]);
                }
            }
            assert(err_model_seq(self.errors@) =~= old(self)@.push(error@));
        }
    }

    /// Records every error of another collection, in order.
    pub fn extend(&mut self, errors: Vec<CrawlerError>)
        ensures
            final(self)@ == old(self)@ + err_model_seq(errors@),
    {
        let ghost before = self.errors@;
        let ghost more = errors@;
        let mut other = errors;
        self.errors.append(&mut other);
        proof {
            lemma_err_model_seq(self.errors@);
            lemma_err_model_seq(before);
            lemma_err_model_seq(more);
            assert forall|k: int| 0 <= k < self.errors@.len()
                implies err_model_seq(self.errors@)[k]
                    == (err_model_seq(before) + err_model_seq(more))[k] by {
                if k < before.len() {
                    assert(self.errors@[k] == before[k]);
                } else {
                    assert(self.errors@[k] == more[k - before.len()]);
                }
            }
            assert(err_model_seq(self.errors@) =~= err_model_seq(before) + err_model_seq(more));
        }
    }

    /// Whether anything was recorded.
    pub fn has_errors(&self) -> (r: bool)
        ensures
            r == (self@.len() > 0),
    {
        proof {
            lemma_err_model_seq(self.errors@);
        }
        self.errors.len() > 0
    }

    /// How many errors were recorded.
    pub fn len(&self) -> (r: usize)
        ensures
            r == self@.len(),
    {
        proof {
            lemma_err_model_seq(self.errors@);
        }
        self.errors.len()
    }

    /// Whether nothing was recorded.
    pub fn is_empty(&self) -> (r: bool)
        ensures
            r == (self@.len() == 0),
    {
        proof {
            lemma_err_model_seq(self.errors@);
        }
        self.errors.len() == 0
    }

    /// Every recorded error, in order.
    pub fn into_errors(self) -> (r: Vec<CrawlerError>)
        ensures
            err_model_seq(r@) == self@,
    {
        self.errors
    }

    /// The recorded errors, for reading in place.
    pub fn iter(&self) -> (r: &Vec<CrawlerError>)
        ensures
            err_model_seq(r@) == self@,
    {
        &self.errors
    }

    /// Success when nothing was recorded; a single error is returned as it
    /// is, several are wrapped with their count.
    pub fn into_result(self) -> (r: ValidationResult<()>)
        ensures
            match r {
                Ok(()) => self@.len() == 0,
                Err(e) => self@.len() > 0 && (if self@.len() == 1 {
                    e@ == self@[0]
                } else {
                    e@ == ErrModel::MultipleErrors { count: self@.len() as int, errors: self@ }
                }),
            },
    {
        proof {
            lemma_err_model_seq(self.errors@);
        }
        if self.errors.len() == 0 {
            Ok(())
        } else if self.errors.len() == 1 {
            let mut v = self.errors;
            let e = v.remove(0);
            Err(e)
        } else {
            let count = self.errors.len();
            let r = CrawlerError::MultipleErrors { count, errors: self.errors };
            Err(r)
        }
    }
}

impl Default for ValidationErrors {
    /// The default collector is empty.
    fn default() -> (r: Self)
        ensures
            r@ == Seq::<ErrModel>::empty(),
    {
        ValidationErrors::new()
    }
}

impl Clone for ValidationErrors {
    /// A clone holds the same errors.
    fn clone(&self) -> (r: Self)
        ensures
            r@ == self@,
    {
        let out = clone_err_items(&self.errors, 0);
        let r = ValidationErrors { errors: out };
        proof {
            lemma_err_model_seq(out@);
            lemma_err_model_seq(self.errors@);
            assert forall|k: int| 0 <= k < self.errors@.len()
                implies err_model_seq(out@)[k] == err_model_seq(self.errors@)[k] by {
                assert(out@[k]@ == self.errors@[k]@);
            }
            assert(err_model_seq(out@) =~= err_model_seq(self.errors@));
        }
        r
    }
}

} // verus!
