//! Submission of test images to a remote test service: the request that is
//! sent for each image, the decoding of the service's answer, the engine
//! that gathers the answers of a whole run, what the run reports, and the
//! check of the configuration file a run starts from.

pub mod config;
pub mod engine;
pub mod json;
pub mod laws;
pub mod outcome;
pub mod report;
pub mod toml_doc;
pub mod upload;
pub mod validate;
