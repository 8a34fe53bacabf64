//! A literate-programming notebook kernel.
//!
//! A document of prose and fenced `rust` blocks is cut into cells, the code
//! cells are classified into declarations and top-level forms, accumulated into
//! one growing program, and that program is rendered as source text that
//! prints the value of its last form.

pub mod eval;
pub mod markup;
pub mod syntax;
pub mod kernel;
pub mod program;
pub mod notebook;
pub mod segment;
pub mod segment_laws;
pub mod kernel_laws;
pub mod program_laws;
pub mod eval_laws;
