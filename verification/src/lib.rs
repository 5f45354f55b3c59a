//! Decision core of a fish-shoal simulation in fixed-point arithmetic.
//!
//! Every quantity is an integer count of millionths: angles in microradians,
//! lengths in millionths of a length unit, probabilities and blend factors in
//! parts per million. The modules cover wrapped angle arithmetic, neighbour
//! selection, the per-agent schooling decision, the acceptance test of the
//! gamma sampler that speeds come from, idle drift and the choice of the
//! glyph an agent is drawn with.
//!
//! What needs real numbers stays with the host: measuring distances and
//! bearings, sines and cosines, logarithms, and normal draws. The host
//! hands the results in as millionths.

pub mod angle;
pub mod components;
pub mod entities;
pub mod gamma;
pub mod neighbor;
pub mod pick;
pub mod radius;
pub mod random_behavior;
pub mod ranking;
pub mod schooling;
pub mod source;
