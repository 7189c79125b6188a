//! Verified integer logic of a neural SDE joint SPX/VIX calibration.
use vstd::prelude::*;

pub mod black_scholes;
pub mod polynomial;
pub mod sampling;
