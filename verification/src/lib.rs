//! Declaration-driven generation of capability implementations.
//!
//! Given a plain description of a generic data-type declaration (its name,
//! generic parameters, fields or variants, and any `bounded_to` hints), the
//! crate emits the text of an implementation of one of five capability
//! contracts — duplication, structural printing, default construction,
//! equality, total equality — with a constraint clause that honours the
//! author's hints: a hinted target type carries the capability constraint in
//! place of the generic parameter it projects through, while every parameter
//! that is used in the fields and not covered by a hint keeps the naive
//! per-parameter constraint.

pub mod ident;
pub mod model;
pub mod hint;
pub mod normalize;
pub mod emit;
pub mod gen;
pub mod value;

pub use gen::{clone_bounded, debug_bounded, default_bounded, eq_bounded, partial_eq_bounded};
