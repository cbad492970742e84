//! Rule-based agents.

pub mod heuristic_1;
pub mod heuristic_10;
pub mod heuristic_12;
pub mod heuristic_14;
pub mod heuristic_15;
pub mod heuristic_16;
pub mod heuristic_17;
pub mod heuristic_18;
pub mod heuristic_4;
pub mod heuristic_6;
pub mod heuristic_8;
pub mod human;
pub mod planning;
pub mod random;
pub mod registry;

pub use crate::bots::heuristic_1::HeuristicBot;
pub use crate::bots::heuristic_10::Heuristic10Bot;
pub use crate::bots::heuristic_12::Heuristic12Bot;
pub use crate::bots::heuristic_14::Heuristic14Bot;
pub use crate::bots::heuristic_15::Heuristic15Bot;
pub use crate::bots::heuristic_16::Heuristic16Bot;
pub use crate::bots::heuristic_17::Heuristic17Bot;
pub use crate::bots::heuristic_18::Heuristic18Bot;
pub use crate::bots::heuristic_4::Heuristic4Bot;
pub use crate::bots::heuristic_6::Heuristic6Bot;
pub use crate::bots::heuristic_8::Heuristic8Bot;
pub use crate::bots::random::RandomBot;
pub use crate::bots::registry::label_for_spec;
