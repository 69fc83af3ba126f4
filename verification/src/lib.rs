//! An in-memory todo list: a store of tasks with ids that are never reused,
//! and a dispatcher that turns one command line into a change of the store
//! and the text to show for it.

pub mod dispatch;
pub mod display;
pub mod error;
pub mod id;
pub mod laws;
pub mod model;
pub mod store;
pub mod task;
pub mod text;

pub use dispatch::{is_runnable, run, try_run, Command, Outcome};
pub use error::ErrorKind;
pub use id::ParseFailure;
pub use store::TaskStore;
pub use task::Task;
