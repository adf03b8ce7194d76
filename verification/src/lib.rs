//! Reference discovery for a single parsed JavaScript/TypeScript module.
//!
//! Given the abstract syntax tree of one module, plus plain-value answers
//! from the host (path resolution, webpack runtime detection), the library
//! produces the module's outbound asset references and the diagnostics of
//! the analysis. The analysis is a pure function of its inputs.

pub mod analyze;
pub mod ast;
pub mod builder;
pub mod graph;
pub mod host;
pub mod link;
pub mod lower;
pub mod normalize;
pub mod pattern;
pub mod refs;
pub mod value;

use vstd::prelude::*;

verus! {

} // verus!
