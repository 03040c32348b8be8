//! Where the program and its files are installed, and what an installation
//! writes into the shell's start file.

pub mod install;
pub mod paths;
pub mod uninstall;
