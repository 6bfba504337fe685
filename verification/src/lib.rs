//! Core logic of a hide-to-tray desktop shell.
//!
//! A host runtime owns the single main window, the tray icon and the update
//! transport; it dispatches discrete events to this library and performs the
//! actions the library decides on. Two components are modelled:
//!
//! - [`visibility`]: the tray-driven window-visibility controller, which turns
//!   menu selections, tray clicks and close requests into show, hide and quit
//!   actions without ever destroying the window on a close request.
//! - [`update`]: the one-shot update flow, which reacts to the outcome of an
//!   update-source query, notifies the window of an available version, tracks
//!   download progress, and absorbs every failure into a log line.

pub mod update;
pub mod visibility;
