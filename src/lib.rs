//! Source-to-source passes over an ECMAScript syntax tree: collection of
//! source ranges for coverage tooling, and annotation of calls to the
//! dynamic-import helper with static loading metadata.

pub mod ast;
pub mod source_index;
pub mod ranges;
pub mod next_dynamic;
pub mod transform;
