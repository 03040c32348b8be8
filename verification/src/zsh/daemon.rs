//! The segment daemon: where it lives, how it is spoken to, and how it is
//! started and stopped.

pub mod frame;
pub mod get;
pub mod paths;
pub mod server;
pub mod start;
pub mod stop;

use vstd::prelude::*;

verus! {

/// What can be asked of the daemon's life.
#[derive(Clone, Copy, Debug, PartialEq, Eq)]
pub enum DaemonCommands {
    Start,
    Stop,
    Restart,
}

/// One phase of the daemon's life.
#[derive(Clone, Copy, Debug, PartialEq, Eq)]
pub enum Phase {
    Stop,
    Start,
}

/// The phases that carry out `command`, in order: a restart stops, then
/// starts, and waits for nothing in between.
pub open spec fn phases(command: DaemonCommands) -> Seq<Phase> {
    match command {
        DaemonCommands::Restart => seq![Phase::Stop, Phase::Start],
        DaemonCommands::Start => seq![Phase::Start],
        DaemonCommands::Stop => seq![Phase::Stop],
    }
}

/// Lists the phases that carry out `command`.
pub fn main(command: DaemonCommands) -> (plan: Vec<Phase>)
    ensures
        plan@ == phases(command),
{
    match command {
        DaemonCommands::Restart => vec![Phase::Stop, Phase::Start],
        DaemonCommands::Start => vec![Phase::Start],
        DaemonCommands::Stop => vec![Phase::Stop],
    }
}

} // verus!
