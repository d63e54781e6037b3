//! A verified core for a star-field renderer: a fixed-column stellar
//! catalogue parser and an exact, integer-scaled projection and colour
//! model. Floating-point conversion and all rendering glue live outside
//! this crate.

pub mod catalogue;
pub mod numeric;
pub mod parser;
pub mod projector;
pub mod record;
pub mod shader;
