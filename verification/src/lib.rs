//! Semantic analysis engine for xmake build-configuration scripts.
//!
//! The crate maintains a queryable semantic database over a workspace of
//! interdependent script files: declarations with lexical scoping, module
//! export types, include/import relationships, build-scope ranges
//! (target/package/option/rule/task blocks), a deferred-resolution worklist
//! drained to a fixpoint, global-symbol disambiguation and function-overload
//! resolution.  The concrete syntax tree is an external collaborator: the
//! analyzers work on a plain-value model of the tree (`syntax` module) that
//! the surrounding application builds from a parser.

pub mod analysis;
pub mod assoc;
pub mod auto_import;
pub mod builder;
pub mod command;
pub mod db;
pub mod decl;
pub mod decl_analyzer;
pub mod diagnostic;
pub mod env;
pub mod error;
pub mod formatter;
pub mod global;
pub mod ids;
pub mod infer;
pub mod module_analyzer;
pub mod module_index;
pub mod overload;
pub mod property_index;
pub mod strutil;
pub mod syntax;
pub mod type_index;
pub mod types;
pub mod unresolve;
pub mod version;
pub mod workspace;
pub mod wrapper;
pub mod xmake_index;
