//! An evaluation engine for a small Lisp.
//!
//! Symbolic expressions (`sexpr`) are evaluated (`eval`) against an
//! `Environment` of nested scopes and a registry of struct types. Closures
//! are dynamically scoped: a free identifier in a body is resolved in the
//! scopes open when the closure is called. Special forms (`forms`) receive
//! their operands unevaluated; `define-struct` (`structs`) installs new
//! special forms at run time. Intrinsics (`intrinsics`) receive evaluated
//! operands; those that a host program adds are reached through the
//! `Natives` trait. `parser` reads expressions from characters, `render`
//! lays out values, expressions and errors as text, and `laws` states
//! properties that relate these parts.
use vstd::prelude::*;

pub mod sexpr;
pub mod value;
pub mod error;
pub mod environment;
pub mod eval;
pub mod forms;
pub mod structs;
pub mod intrinsics;
pub mod color;
pub mod utils;
pub mod builtins;
pub mod laws;
pub mod parser;
pub mod interpolate;
pub mod render;
pub mod model;

pub use builtins::{eval_all, init_core};
pub use environment::{Environment, FieldIndex, Scope};
pub use error::RLError;
pub use eval::{MAX_DEPTH, Natives, NoNatives, eval_func, evaluate};
pub use sexpr::SExpr;
pub use value::{Form, Intrinsic, Value};

verus! {

} // verus!
