//! Normalisation logic of the individual event sources.
pub mod balfolknl;
pub mod plugevents;
pub mod cdss;
pub mod pipeline;
