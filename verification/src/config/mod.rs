//! Configuration: HTTP behaviour, rule metadata, runtime limits, scripting
//! and challenge handling.

pub mod challenge;
pub mod http;
pub mod limits;
pub mod meta;
pub mod script_security;
pub mod scripting;
pub mod traits;
