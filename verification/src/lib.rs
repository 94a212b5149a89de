//! The logic of the hks-shell launcher: search, panel state, layout and icons.
pub mod app;
pub mod renderer;
pub mod search;
pub mod single;
pub mod text;
