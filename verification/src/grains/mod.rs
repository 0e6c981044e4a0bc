//! Probes ("grains") and the pieces they are built from.

pub mod file;
pub mod record;
pub mod sync;
pub mod table;
pub mod text;
