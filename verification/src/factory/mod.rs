//! The circle factory's index: the terms it accepts, the salts it deploys
//! circles with, and the listings it keeps and pages through.

pub mod contract;
pub mod laws;
pub mod spec;
pub mod types;

pub use contract::Factory;
pub use types::{Deployment, Error, Listing};
pub mod history;
