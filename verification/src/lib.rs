//! A two-pane file manager: directory listings, their ordering, the
//! selection and focus of each pane, and the decisions taken on each
//! user event.
pub mod text;
pub mod paths;
pub mod files;
pub mod state;
pub mod message;
pub mod update;
pub mod table;
pub mod frames;
pub mod laws;
