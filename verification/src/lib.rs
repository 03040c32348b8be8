//! Prompt composition for zsh: styled segments laid out to the width of the
//! terminal, with a background daemon that serves segment requests over a
//! local socket.
//!
//! The library decides and computes; it reads no file, opens no socket and
//! starts no process. What has to be done outside is handed out as plain
//! values (a request, a plan, the next action of an exchange), and what
//! came of it is handed back in (a reply, an event).
//!
//! - [`zsh::prompt`] lays out the rows of the prompt.
//! - [`zsh::theme`] holds the themes, their colours and the colour math.
//! - [`zsh::daemon`] holds the daemon's paths, its wire format, both sides
//!   of an exchange and the plans for starting and stopping it.
//! - [`text`] reads and writes the small texts that all of them need.

pub mod args;
pub mod text;
pub mod utils;
pub mod zmod;
pub mod zsh;
