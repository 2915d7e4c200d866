//! The step payloads of the declarative pipeline.

pub mod control;
pub mod data;
pub mod select;

pub use control::StepLog;
pub use control::StepLoopForEach;
pub use data::StepCacheGet;
pub use data::StepCacheSet;
pub use data::StepConstant;
pub use data::StepMapField;
pub use data::StepStringTemplate;
pub use select::StepCall;
pub use select::StepHttpRequest;
pub use select::StepJsonPath;
pub use select::StepScript;
pub use select::StepSelector;
pub use select::StepSelectorAll;
