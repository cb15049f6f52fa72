//! What the command line sets.

use crate::display::DisplayMode;
use vstd::prelude::*;

verus! {

/// How the scheduler's commands are run.
#[derive(Clone, Copy, Debug, PartialEq, Eq, Structural)]
pub enum RunMode {
    /// On this machine.
    Slurm,
    /// Not at all: a file of canned output is read in their place.
    FromFile,
    /// On the cluster's login node, over a secure shell.
    Ssh,
}

/// The settings of a session.
#[derive(Debug, PartialEq, Eq)]
pub struct Cli {
    pub from_file: Option<String>,
    pub refresh: bool,
    pub display_mode: DisplayMode,
    pub job_max_display: u16,
    pub run_mode: RunMode,
}

impl Clone for Cli {
    fn clone(&self) -> (r: Self)
        ensures
            r == *self,
    {
        Cli {
            from_file: match &self.from_file {
                Some(path) => Some(path.clone()),
                None => None,
            },
            refresh: self.refresh,
            display_mode: self.display_mode,
            job_max_display: self.job_max_display,
            run_mode: self.run_mode,
        }
    }
}

} // verus!
