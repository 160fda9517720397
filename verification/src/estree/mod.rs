//! ESTree node helpers over JSON trees.

pub mod functions;
pub mod literal;
pub mod location;
pub mod types;
