//! A minimal task-dispatch core: a scheduler accepts task submissions, keeps a
//! registry of workers, hands pending tasks to workers, and folds the status
//! updates that workers report back into its task registry.
//!
//! The crate holds the coordination logic only: the state machine of a task,
//! the registries, the dispatch pass, and the per-update processing step. The
//! surrounding runtime (channels, the update loop, and the execution of a
//! task's command) drives these functions and performs the sends and receives
//! they decide on.

pub mod scheduler;
pub mod task;
pub mod types;
pub mod worker;
