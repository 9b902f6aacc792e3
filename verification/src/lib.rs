//! A terminal workbench for several AI conversations at once: each project keeps
//! its own history and its own input line, and switching projects switches
//! context. The library holds the workbench's state and rules; the program
//! around it does the disk, shell and terminal work that the rules ask for.
pub mod app;
pub mod clock;
pub mod config;
pub mod laws;
pub mod project;
pub mod text;
pub mod view;
