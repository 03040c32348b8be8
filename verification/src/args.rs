//! What the command line can ask for.

use core::cmp::Ordering;
use vstd::prelude::*;
use vstd::std_specs::cmp::PartialOrdSpecImpl;
use crate::zsh::command;
use crate::zsh::daemon::DaemonCommands;

verus! {

/// The arguments of the program.
#[derive(Clone, Debug, PartialEq, Eq)]
pub struct Args {
    /// Whether to say more about what is done.
    pub verbose: bool,
    pub command: Commands,
}

/// What the program is asked to do.
#[derive(Clone, Debug, PartialEq, Eq)]
pub enum Commands {
    /// What the shell asks for.
    Zsh { command: ZshCommands },
    /// Update the program.
    Update,
    /// Install the program and its theme.
    Install,
    /// Remove the program and its theme.
    Uninstall,
    /// Try the theme in a shell of its own.
    Dev,
    /// Choose a theme, or edit the theme where none is named.
    Theme { command: Option<ThemeCommands> },
}

/// What the shell asks for.
#[derive(Clone, Debug, PartialEq, Eq)]
pub enum ZshCommands {
    /// One part of the prompt.
    Prompt { side: PromptType },
    /// The segments of a command, computed in this process.
    BuildIn { segment: command::Commands },
    /// The daemon's life.
    Daemon { command: DaemonCommands },
}

/// The themes that come with the program.
#[derive(Clone, Copy, Debug, PartialEq, Eq)]
pub enum ThemeCommands {
    Default,
    Infinite,
}

/// The part of the prompt that is asked for.
#[derive(Clone, Copy, Debug, PartialEq, Eq)]
pub enum PromptType {
    /// The rows before the command line.
    Left,
    /// The end of the last row.
    Right,
    /// The indicator that stays once a command line was entered.
    Transient { exit_code: Option<i32> },
    /// The blank lines that keep room for the rows.
    Hook,
}

/// The rank of a part: the parts are ordered by it.
pub open spec fn weight_of(prompt_type: PromptType) -> u8 {
    match prompt_type {
        PromptType::Left => 0,
        PromptType::Right => 1,
        PromptType::Transient { .. } => 2,
        PromptType::Hook => 3,
    }
}

/// How the ranks `a` and `b` compare.
pub open spec fn order_of(a: u8, b: u8) -> Ordering {
    if a < b {
        Ordering::Less
    } else if a == b {
        Ordering::Equal
    } else {
        Ordering::Greater
    }
}

impl PromptType {
    /// The rank of this part.
    pub fn weight(&self) -> (weight: u8)
        ensures
            weight == weight_of(*self),
    {
        match self {
            PromptType::Left => 0,
            PromptType::Right => 1,
            PromptType::Transient { .. } => 2,
            PromptType::Hook => 3,
        }
    }

    /// Compares two parts by their ranks.
    pub fn cmp(&self, other: &PromptType) -> (order: Ordering)
        ensures
            order == order_of(weight_of(*self), weight_of(*other)),
    {
        let a: u8 = self.weight();
        let b: u8 = other.weight();
        if a < b {
            Ordering::Less
        } else if a == b {
            Ordering::Equal
        } else {
            Ordering::Greater
        }
    }
}

impl PartialOrdSpecImpl for PromptType {
    open spec fn obeys_partial_cmp_spec() -> bool {
        true
    }

    open spec fn partial_cmp_spec(&self, other: &PromptType) -> Option<Ordering> {
        Some(order_of(weight_of(*self), weight_of(*other)))
    }
}

impl PartialOrd for PromptType {
    fn partial_cmp(&self, other: &PromptType) -> (order: Option<Ordering>) {
        Some(self.cmp(other))
    }
}

} // verus!
