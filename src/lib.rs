//! A 256-bucket histogram of unsigned integers, after a linear rescaling of
//! the observed value range onto the bucket indices.

pub mod spec;
pub mod lemmas;
pub mod engine;
pub mod laws;
pub mod input;
pub mod text;
