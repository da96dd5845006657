//! Builds one policy bundle archive out of many policy resources.
//!
//! The library decides what each reconciliation of a resource does: which
//! directories and files it writes into the staging tree, when it packages the
//! tree into the staging archive, and when it moves that archive into the
//! serving location. The caller performs each step and reports how it went.
pub mod config;
pub mod driver;
pub mod error;
pub mod model;

pub use config::Ctx;

pub use driver::{error_policy, Action, Command, Outcome, PolicyResource, Reconciler, Stage};
pub use error::ControllerError;
