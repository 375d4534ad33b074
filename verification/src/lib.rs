//! Lazy span resolution for a desugared semantic tree.
//!
//! Semantic analysis produces node ids that are decoupled from the syntax
//! tree, and computing a concrete source range for a node is both costly and
//! usually unneeded. This crate therefore builds cheap, immutable span
//! *chains*: a root identifying a semantic node inside its owning container,
//! followed by declarative transitions that narrow the resolved node to a
//! sub-part (a named field, an indexed child, a named token). A chain is only
//! evaluated when a concrete range is finally demanded, against a consistent
//! snapshot of the syntax trees and source maps; evaluation yields either a
//! concrete `{file, start, end}` range or a typed failure.

pub mod laws;
pub mod pat;
pub mod path;
pub mod resolver;
pub mod source_map;
pub mod syntax;
pub mod transition;
