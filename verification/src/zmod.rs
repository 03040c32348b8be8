//! What the shell module is asked from inside the shell.

pub mod args;
