//! Command-line argument values shared by the binary and tests.
use vstd::prelude::*;

use crate::config::{OutputMode, PinMode, RelativeDuration, UpdateLevel};

verus! {

/// Positional workflow files or flat directories supplied to a command.
#[derive(Debug, Clone, Default)]
pub struct WorkflowPathArgs {
    /// Workflow file(s) or directory to scan.
    pub paths: Vec<String>,
}

/// Parsed command line for actioneer.
#[derive(Debug, Clone)]
pub struct Cli {
    /// Explicit subcommand, or `None` for the default update command.
    pub command: Option<Command>,
    /// Workflow file(s) or directory to scan.
    pub paths: Vec<String>,
    /// Configuration overrides supplied on the command line.
    pub config: ConfigArgs,
}

/// Commands supported by the actioneer binary.
#[derive(Debug, Clone)]
pub enum Command {
    /// Audit workflow references.
    Audit {
        /// Explicit workflows or directories to audit.
        workflow_paths: WorkflowPathArgs,
    },
    /// Plan, display, or apply workflow-reference updates.
    Update {
        /// Explicit workflows or directories to update.
        workflow_paths: WorkflowPathArgs,
    },
    /// Print the compiled package version.
    Version,
}

/// Command-line overrides for config-file settings.
#[derive(Debug, Clone, Copy, Default, PartialEq, Eq, Structural)]
pub struct ConfigArgs {
    pub pin: Option<PinMode>,
    pub update: Option<UpdateLevel>,
    pub skip_branches: Option<bool>,
    pub min_release_age: Option<RelativeDuration>,
    pub offline: Option<bool>,
    pub no_cache: Option<bool>,
    pub mode: Option<OutputMode>,
    pub apply: Option<bool>,
    pub dry_run: Option<bool>,
}

impl Cli {
    pub open spec fn spec_workflow_paths(&self) -> Seq<String> {
        match self.command {
            Some(Command::Audit { workflow_paths }) => workflow_paths.paths@,
            Some(Command::Update { workflow_paths }) => workflow_paths.paths@,
            Some(Command::Version) => Seq::empty(),
            None => self.paths@,
        }
    }

    /// Resolved workflow targets for the active command.
    pub fn workflow_paths(&self) -> (r: &[String])
        ensures
            r@ == self.spec_workflow_paths(),
    {
        match &self.command {
            Some(Command::Audit { workflow_paths }) => workflow_paths.paths.as_slice(),
            Some(Command::Update { workflow_paths }) => workflow_paths.paths.as_slice(),
            Some(Command::Version) => &[],
            None => self.paths.as_slice(),
        }
    }
}

} // verus!
