//! What holds of the engine as a whole: statements that relate several
//! operations, or that speak of every call.

pub mod authorization;
pub mod conservation;
pub mod gating;
pub mod lifecycle;
