//! The data that a rune file describes and the command line that selects it.

pub mod runer;
pub mod commandline;
