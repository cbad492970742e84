//! Numbering of the actions for agents that work on fixed-size vectors.

pub mod encoding;

pub use crate::ml::encoding::{ActionSpace, StateEncoder, STATE_FEATURES};
