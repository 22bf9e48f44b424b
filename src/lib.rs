//! Synthesis of tag predicates and string conversion for sum types, from a
//! plain description of the type and its variants.

pub mod text;
pub mod casing;
pub mod template;
pub mod variant;
pub mod predicates;
pub mod to_string;
pub mod error;

pub use error::GenError;
