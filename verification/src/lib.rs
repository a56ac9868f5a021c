//! Passes over a high-level intermediate representation, and the readline interface
//! of the runtime.

pub mod arkts;
pub mod copy;
pub mod hir;
pub mod inline;
pub mod model;
pub mod num;
pub mod num_laws;
pub mod readline;
pub mod rebuild;
pub mod rewrite;
pub mod rewrite_laws;
pub mod rewrite_module;
pub mod shape;
pub mod text;
pub mod text_laws;
pub mod walk;
