//! Core extraction engine of a declarative, rule-driven web-content scraper.
//!
//! A rule document describes how to locate and shape content on a site; this
//! crate models the rule, validates it before execution, and interprets the
//! extraction pipelines it contains over a tagged intermediate value.

pub mod config;
pub mod detail;
pub mod error;
pub mod extract;
pub mod flow;
pub mod jsonval;
pub mod model;
pub mod pipeline;
pub mod rule;
pub mod script;
pub mod template;
pub mod text;
pub mod types;
pub mod validation;
pub mod value;
pub mod webview;
