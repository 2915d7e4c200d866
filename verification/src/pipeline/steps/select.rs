//! Requests, selectors and calls.

use vstd::prelude::*;
use crate::jsonval::JsonValue;
use crate::template::Template;
use crate::types::{ExtractType, HttpMethod};

verus! {

/// Issues a network request and publishes the response body.
#[derive(Debug, Clone, PartialEq)]
pub struct StepHttpRequest {
    /// The URL, rendered against the context.
    pub url: Template,
    /// The request method.
    pub method: HttpMethod,
    /// The request body, for methods that carry one.
    pub body: Option<Template>,
    /// The variable the response body is published under.
    pub output: String,
}

/// Selects the first element matching a CSS selector.
#[derive(Debug, Clone, PartialEq)]
pub struct StepSelector {
    /// The HTML to select from, rendered against the context.
    pub input: Template,
    /// The CSS selector.
    pub selector: String,
    /// What to extract from the element.
    pub extract: ExtractType,
    /// The variable the extraction is published under.
    pub output: String,
}

/// Selects every element matching a CSS selector.
#[derive(Debug, Clone, PartialEq)]
pub struct StepSelectorAll {
    /// The HTML to select from, rendered against the context.
    pub input: Template,
    /// The CSS selector.
    pub selector: String,
    /// What to extract from each element.
    pub extract: ExtractType,
    /// The variable the extractions are published under.
    pub output: String,
}

/// Selects within JSON by a path.
#[derive(Debug, Clone, PartialEq)]
pub struct StepJsonPath {
    /// The JSON to select from, rendered against the context.
    pub input: Template,
    /// The path expression.
    pub path: String,
    /// The variable the hits are published under.
    pub output: String,
}

/// Calls a script module function, written `module.function`.
#[derive(Debug, Clone, PartialEq)]
pub struct StepScript {
    /// The `module.function` to call.
    pub call: String,
    /// The input handed to the script, rendered against the context.
    pub input: Option<Template>,
    /// The variable the script's result is published under.
    pub output: String,
}

/// Calls a reusable component.
#[derive(Debug, PartialEq)]
pub struct StepCall {
    /// The component's name.
    pub component: String,
    /// Bindings for the component's inputs.
    pub with: Option<Vec<(String, JsonValue)>>,
    /// The variable the component's result is published under.
    pub output: String,
}

} // verus!
