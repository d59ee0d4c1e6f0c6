//! Code generation helpers.
pub mod intermediate;
pub mod assembly;
pub mod compile;
pub mod declarations;
pub mod error;
pub mod vars;
