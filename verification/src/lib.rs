//! Core of a small dependently typed language: universes, dependent function
//! (Pi) types, lambda abstraction, application and type ascription, with a
//! locally nameless binding representation, a bidirectional type checker and
//! a normalizer.

pub mod context;
pub mod errors;
pub mod laws;
pub mod semantics;
pub mod term;
pub mod var;
