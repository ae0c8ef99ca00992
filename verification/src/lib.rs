//! A discrete-time signal-propagation engine: threshold units joined by
//! weighted connections, advanced in synchronous rounds until no unit fires.

pub mod encoder;
pub mod grid_world;
pub mod ident;
pub mod inbox;
pub mod lake;
pub mod layout;
pub mod neuron;
pub mod scheduler;
pub mod signal;
pub mod snapshot;
pub mod theorems;
