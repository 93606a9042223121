//! Post-processing of generated kernel bindings: helper declarations are
//! taken out of the declaration sequence and re-expressed as callable
//! wrappers, and field getters are synthesized for every struct.

pub mod arch;
pub mod bindings;
pub mod emit;
pub mod error;
pub mod expand;
pub mod getters;
pub mod helpers;
pub mod model;
pub mod names;
pub mod syntax;
pub mod text;
