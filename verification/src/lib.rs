//! Decision logic of a Rust compiler front and back end, with its behaviour
//! stated in contracts and proved: a cursor over source text, the choices of a
//! GCC code generation backend, and impl specialization.
pub mod backend;
pub mod fx;
pub mod lexer;
pub mod specialize;
pub mod text;
