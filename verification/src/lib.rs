//! Deployment pipeline and installation-credential lifecycle for static sites
//! that are published from GitHub repositories.

pub mod assertion;
pub mod credential;
pub mod effects;
pub mod hooks;
pub mod pipeline;
pub mod plan;
pub mod queue;
pub mod records;
pub mod runs;
pub mod service;
pub mod signature;
pub mod status;
pub mod text;
pub mod token;
pub mod tree;
pub mod world;
