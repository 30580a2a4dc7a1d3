//! The building blocks of the reverberator.

pub mod delay;
pub mod filters;

pub use crate::instruments::delay::Delay;
pub use crate::instruments::filters::{APF, IIR};
