//! Jobs: their phases, what is shown of them, and the queue that runs them.

pub mod history;
pub mod progress;
pub mod queue;
pub mod status;
