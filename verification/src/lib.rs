//! Verified core of a simulator for multivariate Hawkes processes.
//!
//! The library holds the parts of the simulator whose behaviour is stated over
//! integers, strings and bytes: the names of the sampling methods and of the
//! baseline and kernel families, the shape checks that the simulator makes on
//! its matrices, and the byte layout through which the state of a PCG64 or
//! PCG64-DXSM generator is read out and written back.

pub mod names;
pub mod pcg_state;
pub mod shape;
