//! The coding agent: conversation state, prompt building and the tool layer
//! around it.

pub mod app;
pub mod agent;
pub mod tools;
pub mod tui;
pub mod stub;
