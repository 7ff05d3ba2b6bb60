//! The jobs that a turtle can be given.

pub mod chunk_digger;
pub mod model_builder;
pub mod silly_builder;
