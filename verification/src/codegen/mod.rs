//! What the procedural macros decide: the shape of the code they generate,
//! computed from plain descriptions of their input.

pub mod lightweight_module;
pub mod rule;
