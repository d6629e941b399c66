//! The query grammar: text and array atoms, leaf comparisons, and the
//! parenthesised relations built from them.
pub mod atom;
pub mod comparison;
pub mod relation;
