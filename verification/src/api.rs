//! What the account service sends and takes.

pub mod types;
