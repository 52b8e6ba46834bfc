//! Locating an installation of the Cursor application: where its executable and
//! its entry script are, on Windows, macOS and Linux.

pub mod api;
pub mod error;
pub mod fs;
pub mod layout;
pub mod path;
pub mod paths;
pub mod probe;
pub mod scan;
pub mod store;
pub mod survey;
pub mod text;
