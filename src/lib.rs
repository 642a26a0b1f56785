//! Live viewer core for agent task lists: decoding of task files, resolution
//! of the task file that belongs to a working directory, coalescing of change
//! signals, and the refresh state machine that ties them together.
pub mod refresh;
pub mod resolve;
pub mod todo;
pub mod watcher;
