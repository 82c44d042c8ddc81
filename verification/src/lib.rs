//! Verified core of the belt workflow engine.
pub mod text;
pub mod uri;
pub mod strmap;
pub mod json;
pub mod model;
pub mod error;
pub mod engine;
pub mod gate;
pub mod config;
pub mod view;
pub mod expander;
pub mod lint;
pub mod yaml;
pub mod pipeline;
pub mod resolver;
pub mod agent;
