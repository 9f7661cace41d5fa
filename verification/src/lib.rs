//! A load-generation engine: a concurrent metrics aggregator, the statistics
//! computed from it, and the decisions that drive closed-loop and streaming
//! workers. Beside it stand the rules of the administrative resources that
//! manage applications, keys, repositories and test runs.

pub mod config;
pub mod counting;
pub mod encoding;
pub mod metrics;
pub mod names;
pub mod order;
pub mod paths;
pub mod query;
pub mod report;
pub mod repos;
pub mod resources;
pub mod results;
pub mod runner;
pub mod scenario;
pub mod schema;
pub mod sorting;
pub mod stream;
pub mod summary;
pub mod supervisor;
pub mod text;
