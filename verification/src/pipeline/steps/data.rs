//! Templates, constants, field mappings and the cache.

use vstd::prelude::*;
use crate::jsonval::JsonValue;
use crate::template::Template;
use crate::types::CacheScope;

verus! {

/// Renders a string template and publishes the result.
#[derive(Debug, Clone, PartialEq)]
pub struct StepStringTemplate {
    /// The template to render.
    pub template: Template,
    /// The variable the rendering is published under.
    pub output: String,
}

/// Publishes a constant.
#[derive(Debug, PartialEq)]
pub struct StepConstant {
    /// The constant's value.
    pub value: JsonValue,
    /// The variable the value is published under.
    pub output: String,
}

/// Maps a parsed field onto the standard model.
#[derive(Debug, Clone, PartialEq)]
pub struct StepMapField {
    /// The parsed field's name.
    pub source: String,
    /// The model field's name.
    pub target: String,
}

/// Reads a cached value.
#[derive(Debug, Clone, PartialEq)]
pub struct StepCacheGet {
    /// Which cache to read.
    pub scope: CacheScope,
    /// The key, rendered against the context.
    pub key: Template,
    /// The variable the value is published under.
    pub output: String,
}

/// Writes a cached value.
#[derive(Debug, Clone, PartialEq)]
pub struct StepCacheSet {
    /// Which cache to write.
    pub scope: CacheScope,
    /// The key, rendered against the context.
    pub key: Template,
    /// The value, rendered against the context.
    pub value: Template,
    /// How long the entry lives, in seconds.
    pub ttl: Option<u32>,
}

} // verus!
