//! State of a to-do list window: collections of tasks, the filter that picks
//! which tasks are shown, the current collection, and the records that are
//! saved when the window closes and loaded when it opens.
pub mod task;
pub mod collection;
pub mod filter;
pub mod window;

pub use collection::{Collection, CollectionData};
pub use filter::{FilterSetting, TaskFilter};
pub use task::{Task, TaskData};
pub use window::{Page, TodoWindow};
