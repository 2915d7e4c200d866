//! The extraction core: the step union, the per-invocation context, the
//! filters, the step executors, their static self-check, the field engine
//! and the host-driven chain runner for script steps.

pub mod checks;
pub mod context;
pub mod engine;
pub mod executor;
pub mod filter;
pub mod hosted;
pub mod selector;
pub mod step;
