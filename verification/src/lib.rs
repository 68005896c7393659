//! Verification of ActionScript 3 and MXML programs: type checking that maps
//! program nodes to entities of a semantic model.
pub mod ast;
pub mod diagnostics;
pub mod semantics;
pub mod function_common;
pub mod subverifier;
pub mod resolution;
pub mod exp;
pub mod exp_ops;
pub mod exp_names;
pub mod exp_access;
pub mod arguments;
pub mod exp_call;
pub mod exp_types;
pub mod assignment_destructuring;
pub mod array;
pub mod object_literal;
pub mod directive;
pub mod function_definition;
pub mod package_directives;
pub mod compiler_options;
pub mod program_verifier;
