//! Aggregation of folk and partner-dance event listings: a canonical event
//! model, per-source normalisation, reconciliation of fetched batches against
//! the stored corpus, and the decisions of the event submission workflow.
use vstd::prelude::*;

pub mod text;
pub mod model;
pub mod reconcile;
pub mod submit;
pub mod corpus;
pub mod calendar;
pub mod importers;

verus! {

} // verus!
