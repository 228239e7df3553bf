//! The command layer's decisions.
//!
//! Binding picks one dialect from what the server advertises; a command
//! resolves its selectors against the committed snapshot and turns into
//! the wire requests to issue, followed by one commit.  The transport
//! performs the requests; nothing here mutates the engine.

use vstd::prelude::*;

use crate::cli::{Commands, TargetOutput, WorkspaceArgs};
use crate::protocol::{GroupHandle, Protocol, Request, RequestError, WorkspaceHandle};
use crate::resolve::{resolved_group_idx, workspace_resolution_post, SelectorError};
use crate::workspace_state::WorkspaceState;

verus! {

/// Why no workspace manager could be bound.
#[derive(Debug, Clone, Copy, PartialEq, Eq, Structural)]
pub enum BindError {
    ProtocolUnavailable,
}

/// Whether the server advertises the manager global of one dialect.
pub open spec fn dialect_advertised(
    p: Protocol,
    ext_v0: bool,
    ext_v1: bool,
    cosmic: bool,
) -> bool {
    match p {
        Protocol::ExtV0 => ext_v0,
        Protocol::ExtV1 => ext_v1,
        Protocol::CosmicV1 => cosmic,
    }
}

/// Law: which dialect to bind.  A stated preference is tried and
/// nothing else; without one, the advertised dialects are tried in the
/// fixed order ExtV0, ExtV1, CosmicV1.  When nothing suitable is
/// advertised, binding fails.
pub fn choose_protocol(preferred: Option<Protocol>, ext_v0: bool, ext_v1: bool, cosmic: bool) -> (r:
    Result<Protocol, BindError>)
    ensures
        match preferred {
            Some(p) => {
                &&& dialect_advertised(p, ext_v0, ext_v1, cosmic) ==> r == Ok::<
                    Protocol,
                    BindError,
                >(p)
                &&& !dialect_advertised(p, ext_v0, ext_v1, cosmic) ==> r == Err::<
                    Protocol,
                    BindError,
                >(BindError::ProtocolUnavailable)
            },
            None => {
                &&& ext_v0 ==> r == Ok::<Protocol, BindError>(Protocol::ExtV0)
                &&& !ext_v0 && ext_v1 ==> r == Ok::<Protocol, BindError>(Protocol::ExtV1)
                &&& !ext_v0 && !ext_v1 && cosmic ==> r == Ok::<Protocol, BindError>(
                    Protocol::CosmicV1,
                )
                &&& !ext_v0 && !ext_v1 && !cosmic ==> r == Err::<Protocol, BindError>(
                    BindError::ProtocolUnavailable,
                )
            },
        },
{
    match preferred {
        Some(p) => {
            let advertised = match p {
                Protocol::ExtV0 => ext_v0,
                Protocol::ExtV1 => ext_v1,
                Protocol::CosmicV1 => cosmic,
            };
            if advertised {
                Ok(p)
            } else {
                Err(BindError::ProtocolUnavailable)
            }
        },
        None => {
            if ext_v0 {
                Ok(Protocol::ExtV0)
            } else if ext_v1 {
                Ok(Protocol::ExtV1)
            } else if cosmic {
                Ok(Protocol::CosmicV1)
            } else {
                Err(BindError::ProtocolUnavailable)
            }
        },
    }
}

/// Why a command could not be planned.
#[derive(Debug, Clone, Copy, PartialEq, Eq, Structural)]
pub enum CommandError {
    Selector(SelectorError),
    Request(RequestError),
}

impl CommandError {
    /// A short operator-facing description.
    pub fn message(&self) -> (r: &'static str)
        ensures
            match *self {
                CommandError::Selector(_) => true,
                CommandError::Request(_) => r@ == "assign request not supported by the bound protocol"@,
            },
    {
        match self {
            CommandError::Selector(e) => e.message(),
            CommandError::Request(_) => "assign request not supported by the bound protocol",
        }
    }
}

/// The wire requests one command turns into, issued in order and then
/// committed as one operator intent.
#[derive(Debug, PartialEq, Eq)]
pub struct CommandPlan {
    pub requests: Vec<Request>,
    pub commit: bool,
}

/// Whether a command is one that plans requests (rather than listing or
/// watching) and carries a well-formed selector.
pub open spec fn plannable(command: Commands) -> bool {
    match command {
        Commands::Activate(args) => args.workspace.is_single(),
        Commands::Deactivate(args) => args.workspace.is_single(),
        Commands::Remove(args) => args.workspace.is_single(),
        Commands::Assign { workspace_args, .. } => workspace_args.workspace.is_single(),
        Commands::CreateWorkspace { .. } => true,
        Commands::List(_) => false,
        Commands::Listen => false,
    }
}

impl WorkspaceState {
    /// Decide what one command does: resolve its selectors against the
    /// committed snapshot and emit the wire requests to issue.  The
    /// assign request exists only in the ExtV1 dialect; planning it
    /// under any other pairing of handles fails without emitting
    /// anything.
    pub fn plan_command(&self, command: &Commands) -> (r: Result<CommandPlan, CommandError>)
        requires
            plannable(*command),
        ensures
            match *command {
                Commands::Activate(args) => match r {
                    Ok(plan) => {
                        &&& plan.commit
                        &&& exists|i: usize|
                            {
                                &&& #[trigger] workspace_resolution_post(
                                    self.snapshot(),
                                    args.workspace,
                                    args.output,
                                    Ok(i),
                                )
                                &&& i < self.snapshot().workspaces.len()
                                &&& plan.requests@ == seq![
                                    Request::Activate(self.snapshot().workspaces[i as int].handle),
                                ]
                            }
                    },
                    Err(e) => match e {
                        CommandError::Selector(se) => workspace_resolution_post(
                            self.snapshot(),
                            args.workspace,
                            args.output,
                            Err(se),
                        ),
                        CommandError::Request(_) => false,
                    },
                },
                Commands::Deactivate(args) => match r {
                    Ok(plan) => {
                        &&& plan.commit
                        &&& exists|i: usize|
                            {
                                &&& #[trigger] workspace_resolution_post(
                                    self.snapshot(),
                                    args.workspace,
                                    args.output,
                                    Ok(i),
                                )
                                &&& i < self.snapshot().workspaces.len()
                                &&& plan.requests@ == seq![
                                    Request::Deactivate(
                                        self.snapshot().workspaces[i as int].handle,
                                    ),
                                ]
                            }
                    },
                    Err(e) => match e {
                        CommandError::Selector(se) => workspace_resolution_post(
                            self.snapshot(),
                            args.workspace,
                            args.output,
                            Err(se),
                        ),
                        CommandError::Request(_) => false,
                    },
                },
                Commands::Remove(args) => match r {
                    Ok(plan) => {
                        &&& plan.commit
                        &&& exists|i: usize|
                            {
                                &&& #[trigger] workspace_resolution_post(
                                    self.snapshot(),
                                    args.workspace,
                                    args.output,
                                    Ok(i),
                                )
                                &&& i < self.snapshot().workspaces.len()
                                &&& plan.requests@ == seq![
                                    Request::Remove(self.snapshot().workspaces[i as int].handle),
                                    Request::Destroy(self.snapshot().workspaces[i as int].handle),
                                ]
                            }
                    },
                    Err(e) => match e {
                        CommandError::Selector(se) => workspace_resolution_post(
                            self.snapshot(),
                            args.workspace,
                            args.output,
                            Err(se),
                        ),
                        CommandError::Request(_) => false,
                    },
                },
                Commands::Assign { workspace_args, target } => match r {
                    Ok(plan) => {
                        &&& plan.commit
                        &&& exists|i: usize|
                            {
                                &&& #[trigger] workspace_resolution_post(
                                    self.snapshot(),
                                    workspace_args.workspace,
                                    workspace_args.output,
                                    Ok(i),
                                )
                                &&& i < self.snapshot().workspaces.len()
                                &&& ({
                                    let gi = resolved_group_idx(
                                        self.snapshot().groups,
                                        target.spec_name(),
                                        target.spec_pid(),
                                    );
                                    &&& gi >= 0
                                    &&& self.snapshot().workspaces[i as int].handle is ExtV1
                                    &&& self.snapshot().groups[gi].handle is ExtV1
                                    &&& plan.requests@ == seq![
                                        Request::Assign(
                                            self.snapshot().workspaces[i as int].handle,
                                            self.snapshot().groups[gi].handle,
                                        ),
                                    ]
                                })
                            }
                    },
                    Err(e) => match e {
                        CommandError::Selector(se) => workspace_resolution_post(
                            self.snapshot(),
                            workspace_args.workspace,
                            workspace_args.output,
                            Err(se),
                        ) || (resolved_group_idx(
                            self.snapshot().groups,
                            target.spec_name(),
                            target.spec_pid(),
                        ) < 0 && (se == SelectorError::OutputNotFound || se
                            == SelectorError::OutputRequired)),
                        CommandError::Request(re) => {
                            &&& re == RequestError::UnsupportedOperation
                            &&& exists|i: usize|
                                {
                                    &&& #[trigger] workspace_resolution_post(
                                        self.snapshot(),
                                        workspace_args.workspace,
                                        workspace_args.output,
                                        Ok(i),
                                    )
                                    &&& i < self.snapshot().workspaces.len()
                                    &&& ({
                                        let gi = resolved_group_idx(
                                            self.snapshot().groups,
                                            target.spec_name(),
                                            target.spec_pid(),
                                        );
                                        &&& gi >= 0
                                        &&& !(self.snapshot().workspaces[i as int].handle is ExtV1
                                            && self.snapshot().groups[gi].handle is ExtV1)
                                    })
                                }
                        },
                    },
                },
                Commands::CreateWorkspace { workspace_name, output } => match r {
                    Ok(plan) => {
                        &&& plan.commit
                        &&& ({
                            let gi = resolved_group_idx(
                                self.snapshot().groups,
                                output.spec_name(),
                                output.spec_pid(),
                            );
                            &&& gi >= 0
                            &&& plan.requests@.len() == 1
                            &&& plan.requests@[0] is CreateWorkspace
                            &&& plan.requests@[0]->CreateWorkspace_0 == self.snapshot().groups[gi].handle
                            &&& plan.requests@[0]->CreateWorkspace_1@ == workspace_name@
                        })
                    },
                    Err(e) => match e {
                        CommandError::Selector(se) => resolved_group_idx(
                            self.snapshot().groups,
                            output.spec_name(),
                            output.spec_pid(),
                        ) < 0 && (se == SelectorError::OutputNotFound || se
                            == SelectorError::OutputRequired),
                        CommandError::Request(_) => false,
                    },
                },
                Commands::List(_) => true,
                Commands::Listen => true,
            },
    {
        match command {
            Commands::Activate(args) => {
                match self.workspace_from_selection(&args.workspace, args.output.as_ref()) {
                    Ok(i) => {
                        let mut requests: Vec<Request> = Vec::new();
                        requests.push(self.workspaces[i].activate());
                        Ok(CommandPlan { requests, commit: true })
                    },
                    Err(e) => Err(CommandError::Selector(e)),
                }
            },
            Commands::Deactivate(args) => {
                match self.workspace_from_selection(&args.workspace, args.output.as_ref()) {
                    Ok(i) => {
                        let mut requests: Vec<Request> = Vec::new();
                        requests.push(self.workspaces[i].deactivate());
                        Ok(CommandPlan { requests, commit: true })
                    },
                    Err(e) => Err(CommandError::Selector(e)),
                }
            },
            Commands::Remove(args) => {
                match self.workspace_from_selection(&args.workspace, args.output.as_ref()) {
                    Ok(i) => {
                        let mut requests: Vec<Request> = Vec::new();
                        requests.push(self.workspaces[i].remove());
                        requests.push(self.workspaces[i].destroy());
                        Ok(CommandPlan { requests, commit: true })
                    },
                    Err(e) => Err(CommandError::Selector(e)),
                }
            },
            Commands::Assign { workspace_args, target } => {
                let i = match self.workspace_from_selection(
                    &workspace_args.workspace,
                    workspace_args.output.as_ref(),
                ) {
                    Ok(i) => i,
                    Err(e) => {
                        return Err(CommandError::Selector(e));
                    },
                };
                let selection = target.as_output_selection();
                let gi = match self.group_from_output(&selection) {
                    Ok(gi) => gi,
                    Err(e) => {
                        return Err(CommandError::Selector(e));
                    },
                };
                match self.workspaces[i].assign(&self.groups[gi].handle) {
                    Ok(request) => {
                        let mut requests: Vec<Request> = Vec::new();
                        requests.push(request);
                        Ok(CommandPlan { requests, commit: true })
                    },
                    Err(e) => Err(CommandError::Request(e)),
                }
            },
            Commands::CreateWorkspace { workspace_name, output } => {
                match self.group_from_output(output) {
                    Ok(gi) => {
                        let mut requests: Vec<Request> = Vec::new();
                        requests.push(self.groups[gi].create_workspace(workspace_name.clone()));
                        Ok(CommandPlan { requests, commit: true })
                    },
                    Err(e) => Err(CommandError::Selector(e)),
                }
            },
            Commands::List(_) => Ok(CommandPlan { requests: Vec::new(), commit: false }),
            Commands::Listen => Ok(CommandPlan { requests: Vec::new(), commit: false }),
        }
    }
}

} // verus!
