//! A compiler for the eight-symbol esoteric language of tape, cursor and
//! brackets: a recursive-descent parser, a peephole pass that coalesces runs
//! of identical operations — proved to preserve the program's semantics
//! exactly — a reference evaluator for the coalesced form, and a code
//! generator that drives the cranelift backend to a native object file.

pub mod ast;
mod backend;
pub mod emit;
pub mod interp;
pub mod coalesce;
pub mod parser;
pub mod semantics;

pub use crate::ast::Ast;
pub use crate::ast::Ir;
