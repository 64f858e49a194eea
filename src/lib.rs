//! A git identity switcher: named profiles of identity and signing settings,
//! applied to a repository's local configuration without leaking the
//! settings of another profile.
//!
//! The library holds every decision the tool makes. A host program performs
//! the requests that a [`session::Session`] issues (running git, inspecting
//! the working directory) and hands the outcomes back.

pub mod strategy;
pub mod text;
pub mod gitconfig;
pub mod policy;
pub mod error;
pub mod paths;
pub mod plan;
pub mod applier;
pub mod laws;
pub mod session;
pub mod profiles;
