//! What holds of the deletion engine as a whole.

pub mod counting;
pub mod once;
pub mod partition;
pub mod range;
pub mod termination;
