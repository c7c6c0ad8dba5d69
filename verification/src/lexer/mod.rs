//! Reading source text character by character.
pub mod ptr;

pub use ptr::Ptr;
