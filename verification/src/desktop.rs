//! What the desktop front end computes without its toolkit.

pub mod logger;
