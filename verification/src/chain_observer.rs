//! The settings a chain observer is built with: the same as the
//! supervisor's.
pub use crate::supervisor::ChainSettings;
