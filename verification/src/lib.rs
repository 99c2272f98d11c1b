//! Decision logic and text layout of a console installer that locates a
//! game directory, downloads a resource archive and unpacks it.

pub mod downloader;
pub mod installer;
pub mod menu;
pub mod progress;
pub mod steam;
pub mod terminal;
pub mod text;
pub mod unzip;
