//! Reading and writing hierarchical configuration parameters, and rendering
//! them as process-environment configuration.

pub mod fetch;
pub mod formatter;
pub mod mfa;
pub mod opt;
pub mod params;
pub mod writer;
