//! The command surface, as plain data.
//!
//! The argument parser at the boundary fills these records; the library
//! only reads them.  A workspace selector names exactly one criterion;
//! an output selector names an output by its reported name or by its
//! wire id.

use vstd::prelude::*;

use crate::protocol::Protocol;

verus! {

/// Options that apply to every command.
#[derive(Debug)]
pub struct GlobalOpts {
    /// Force one dialect instead of probing them in order.
    pub protocol_version: Option<Protocol>,
}

/// One criterion picking a workspace, plus an optional output scope.
#[derive(Debug)]
pub struct WorkspaceArgs {
    pub workspace: WorkspaceSelector,
    pub output: Option<OutputSelector>,
}

/// The workspace selection criteria; exactly one is given.
#[derive(Debug)]
pub struct WorkspaceSelector {
    pub active: bool,
    pub index: Option<usize>,
    pub name: Option<String>,
    pub protocol_id: Option<usize>,
    pub coordinates: Option<Vec<u8>>,
}

impl WorkspaceSelector {
    /// How many criteria are given.
    pub open spec fn selection_count(&self) -> int {
        (if self.active {
            1int
        } else {
            0int
        }) + (if self.index is Some {
            1int
        } else {
            0int
        }) + (if self.name is Some {
            1int
        } else {
            0int
        }) + (if self.protocol_id is Some {
            1int
        } else {
            0int
        }) + (if self.coordinates is Some {
            1int
        } else {
            0int
        })
    }

    /// The criteria are mutually exclusive: exactly one is given.
    pub open spec fn is_single(&self) -> bool {
        self.selection_count() == 1
    }
}

/// One criterion picking an output; at most one is given.
#[derive(Debug)]
pub struct OutputSelector {
    pub output_name: Option<String>,
    pub output_protocol_id: Option<usize>,
}

/// The output a workspace is assigned to; exactly one criterion is
/// given.  Distinct from [`OutputSelector`] because the assign command
/// selects an output twice: once as scope, once as target.
#[derive(Debug)]
pub struct TargetOutput {
    pub target_output_name: Option<String>,
    pub target_output_protocol_id: Option<usize>,
}

impl TargetOutput {
    /// The name criterion, as a ghost value.
    pub open spec fn spec_name(&self) -> Option<Seq<char>> {
        match self.target_output_name {
            Some(n) => Some(n@),
            None => None,
        }
    }

    /// The wire-id criterion.
    pub open spec fn spec_pid(&self) -> Option<usize> {
        self.target_output_protocol_id
    }

    /// The same selection, as an output selector.
    pub fn as_output_selection(&self) -> (r: OutputSelector)
        ensures
            match r.output_name {
                Some(n) => match self.target_output_name {
                    Some(m) => n@ == m@,
                    None => false,
                },
                None => self.target_output_name is None,
            },
            r.output_protocol_id == self.target_output_protocol_id,
    {
        OutputSelector {
            output_name: match &self.target_output_name {
                Some(n) => Some(n.clone()),
                None => None,
            },
            output_protocol_id: self.target_output_protocol_id,
        }
    }
}

/// Arguments of the list command.
#[derive(Debug)]
pub struct ListArgs {
    pub output: Option<OutputSelector>,
    pub outputs_only: bool,
    pub json: bool,
}

/// The commands the operator can run.
#[derive(Debug)]
pub enum Commands {
    Activate(WorkspaceArgs),
    Deactivate(WorkspaceArgs),
    Assign { workspace_args: WorkspaceArgs, target: TargetOutput },
    Remove(WorkspaceArgs),
    CreateWorkspace { workspace_name: String, output: OutputSelector },
    List(ListArgs),
    Listen,
}

/// One full invocation: global options plus a command.
#[derive(Debug)]
pub struct Cli {
    pub global_opts: GlobalOpts,
    pub command: Commands,
}

} // verus!
