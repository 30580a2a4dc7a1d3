//! A plate reverberator built from three verified signal-processing
//! primitives: a ring-buffer delay line, a Schroeder all-pass diffuser and an
//! Nth-order recursive filter.
//!
//! Every buffer is borrowed from the caller, so nothing is allocated while
//! samples are processed.

pub mod instruments;
pub mod network;
pub mod sample;

pub use crate::network::{
    Plate, PlateBuffers, PlateParams, DECAY_DIFFUSION_1_1, DECAY_DIFFUSION_1_2,
    DECAY_DIFFUSION_2_1, DECAY_DIFFUSION_2_2, DELAY_1, DELAY_2, DELAY_3, DELAY_4, EXCURSION,
    INPUT_DIFFUSION_1_1, INPUT_DIFFUSION_1_2, INPUT_DIFFUSION_2_1, INPUT_DIFFUSION_2_2,
};
