//! A builder that works on its own: it visits the nodes of a layer from
//! nearest to nearest.

pub mod control;
pub mod simple_searcher;
