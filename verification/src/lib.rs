//! Core of a directory-watching media transcoder.
//!
//! The library holds the decision logic of the service: the configuration
//! model and its reference checks, matching of files to input roots, output
//! filename templating, the stability gate that decides when a freshly seen
//! file is fully written, the single-flight job scheduler with its bounded
//! worker slots, construction of the external tool's argument list, the
//! parser for the tool's `key=value` progress stream, and the classification
//! of job outcomes. Everything that touches the outside world (filesystem
//! watching, process spawning, sleeping, configuration files) lives in the
//! surrounding application, which drives these functions with the values it
//! observed.

pub mod config;
pub mod errors;
pub mod events;
pub mod invocation;
pub mod paths;
pub mod presets;
pub mod progress;
pub mod scheduler;
pub mod stability;
pub mod text;
