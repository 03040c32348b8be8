//! The commands of the shell module.

use vstd::prelude::*;

verus! {

/// The arguments of the shell module.
#[derive(Clone, Debug, PartialEq, Eq)]
pub struct ZmodArgs {
    pub command: Commands,
}

/// What the shell module is asked to do.
#[derive(Clone, Debug, PartialEq, Eq)]
pub enum Commands {
    /// Print the value kept under `key`.
    Get { key: String },
    /// Keep `value` under `key`.
    Store { key: String, value: String },
    /// The shell is about to draw the prompt.
    Precmd,
    /// The shell has taken a command line.
    LineFinish,
    /// The module is about to be unloaded.
    Cleanup,
}

/// What has to be done outside for a command.
#[derive(Clone, Debug, PartialEq, Eq)]
pub enum ZmodAction {
    /// Nothing is left to do.
    Nothing,
    /// Print this value and a line break.
    Print(String),
    /// Hand the event "before the prompt" to the module in the shell.
    Precmd,
    /// Hand the event "line finished" to the module in the shell.
    LineFinish,
}

/// The mathematical value of a [`ZmodAction`].
pub enum ZmodActionView {
    Nothing,
    Print(Seq<char>),
    Precmd,
    LineFinish,
}

impl View for ZmodAction {
    type V = ZmodActionView;

    open spec fn view(&self) -> ZmodActionView {
        match *self {
            ZmodAction::Nothing => ZmodActionView::Nothing,
            ZmodAction::Print(value) => ZmodActionView::Print(value@),
            ZmodAction::Precmd => ZmodActionView::Precmd,
            ZmodAction::LineFinish => ZmodActionView::LineFinish,
        }
    }
}

impl ZmodArgs {
    /// Carries out the command as far as it needs nothing from outside,
    /// and tells what is left to do. No value is kept, so nothing is ever
    /// printed for `Get`; `Store` and `Cleanup` succeed and leave nothing.
    pub fn run(&self) -> (outcome: Result<ZmodAction, String>)
        ensures
            outcome is Ok,
            outcome->Ok_0@ == match self.command {
                Commands::Precmd => ZmodActionView::Precmd,
                Commands::LineFinish => ZmodActionView::LineFinish,
                _ => ZmodActionView::Nothing,
            },
    {
        match &self.command {
            Commands::Get { key } => {
                if let Some(value) = self.fetch_internal_state(key.as_str()) {
                    return Ok(ZmodAction::Print(value));
                }
                Ok(ZmodAction::Nothing)
            },
            Commands::Store { key, value } => {
                match self.save_internal_state(key.as_str(), value.as_str()) {
                    Ok(()) => Ok(ZmodAction::Nothing),
                    Err(error) => Err(error),
                }
            },
            Commands::Precmd => Ok(ZmodAction::Precmd),
            Commands::LineFinish => Ok(ZmodAction::LineFinish),
            Commands::Cleanup => {
                match self.perform_cleanup() {
                    Ok(()) => Ok(ZmodAction::Nothing),
                    Err(error) => Err(error),
                }
            },
        }
    }

    /// The value kept under `_key`: none is ever kept.
    pub fn fetch_internal_state(&self, _key: &str) -> (value: Option<String>)
        ensures
            value is None,
    {
        None
    }

    /// Keeps `_value` under `_key`: the value is dropped, and that is no error.
    pub fn save_internal_state(&self, _key: &str, _value: &str) -> (done: Result<(), String>)
        ensures
            done is Ok,
    {
        Ok(())
    }

    /// Cleans up: there is nothing to clean.
    pub fn perform_cleanup(&self) -> (done: Result<(), String>)
        ensures
            done is Ok,
    {
        Ok(())
    }
}

} // verus!
