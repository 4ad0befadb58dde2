//! The logic of a small Android front end for an ARM emulator: a bounded log
//! viewer, a directory browser that picks game files, the hand-over of files chosen
//! in the system picker, the choice of sound assets to play, and the text and touch
//! state of the control panel.

pub mod audio;
pub mod file_browser;
pub mod loader;
pub mod log_viewer;
pub mod panel;
pub mod saf;
pub mod text;
