//! The state of the interface, and what changes it.
//!
//! Times are in nanoseconds since some start. What the interface asks of the backend and of
//! the window is collected in [`App::commands`] and [`App::window`], for the program around to
//! carry out.
pub mod state;
pub mod catalog;
pub mod sections;
pub mod downloads;
pub mod toolbar;

pub mod apply;
pub mod page;
pub mod requests;
pub mod run;
pub mod events;
pub mod news;
pub mod script;
pub mod frame;
pub mod laws;
pub mod listing;
pub mod pressing;
pub mod showing;
pub mod stepping;
pub mod telling;
