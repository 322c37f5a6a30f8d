//! An incremental search-and-select state machine for a terminal picker:
//! keystrokes edit a query, the candidate list is filtered by substring
//! containment, and a highlight tracks the same item across re-filtering.

pub mod filter;
pub mod selection;
pub mod backend;
pub mod app;

pub use app::{App, AppView, KeyCode};
pub use backend::{get_projects, get_sequences};
pub use filter::{contains_query, filter};
pub use selection::{move_highlight, reconcile, Direction};
