//! The two back ends that give a parsed query its meaning.
pub mod evaluate;
pub mod sqlite;
