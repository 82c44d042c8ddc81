//! The `pipeline.yml` document model of rule-set authors.
pub mod model;
