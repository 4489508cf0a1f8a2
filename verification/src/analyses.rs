//! Analyses of a nest against an architecture.

pub mod mapper;
