//! The history of the states of an orbit or of a spacecraft, continuous in time.
//!
//! A trajectory keeps the samples of a propagation in the order of their epochs
//! and answers what the state was at any epoch between the first and the last:
//! the stored state where there is one, and else a state rebuilt from the
//! samples around the epoch. On top of that it finds the epochs at which a
//! function of the state is zero, merges two trajectories, and gives a
//! trajectory in another frame.
//!
//! The library holds no floating-point number. The states that it stores, the
//! values of events and the constants of frames are of types that its callers
//! choose; what it needs to know of them, it asks.

pub mod arc;
pub mod dormand;
pub mod errors;
pub mod events;
pub mod formatter;
pub mod frames;
pub mod params;
pub mod residual;
pub mod spacecraft;
pub mod text;
pub mod time;
pub mod trajectory;
