//! Selector resolution, command planning and the binding order.

use workspacectl::{
    choose_protocol, BindError, CommandError, Commands, GroupCapabilities, GroupHandle,
    ManagerHandle, OutputInfoData, OutputRef, OutputSelector, Protocol, Request, RequestError,
    SelectorError, TargetOutput, Workspace, WorkspaceArgs, WorkspaceCapabilities,
    WorkspaceGroup, WorkspaceHandle, WorkspaceSelector, WorkspaceState, WorkspaceStates,
};

fn selector() -> WorkspaceSelector {
    WorkspaceSelector { active: false, index: None, name: None, protocol_id: None, coordinates: None }
}

fn by_name(name: &str) -> WorkspaceSelector {
    WorkspaceSelector { name: Some(name.to_string()), ..selector() }
}

fn by_index(index: usize) -> WorkspaceSelector {
    WorkspaceSelector { index: Some(index), ..selector() }
}

fn by_pid(pid: usize) -> WorkspaceSelector {
    WorkspaceSelector { protocol_id: Some(pid), ..selector() }
}

fn by_active() -> WorkspaceSelector {
    WorkspaceSelector { active: true, ..selector() }
}

fn by_coords(coordinates: Vec<u8>) -> WorkspaceSelector {
    WorkspaceSelector { coordinates: Some(coordinates), ..selector() }
}

fn on_output(name: &str) -> OutputSelector {
    OutputSelector { output_name: Some(name.to_string()), output_protocol_id: None }
}

fn workspace(
    handle: WorkspaceHandle,
    name: &str,
    coordinates: Vec<u8>,
    state: u32,
    group: Option<GroupHandle>,
) -> Workspace {
    Workspace {
        handle,
        name: Some(name.to_string()),
        id: None,
        coordinates,
        state: WorkspaceStates::from_bits_retain(state),
        group,
        tiling_state: None,
        capabilities: WorkspaceCapabilities::empty(),
    }
}

fn group(handle: GroupHandle, output_id: u32, output_name: &str) -> WorkspaceGroup {
    WorkspaceGroup {
        handle,
        output: Some(OutputRef {
            protocol_id: output_id,
            info: Some(OutputInfoData {
                name: Some(output_name.to_string()),
                description: None,
                loc_x: 0,
                loc_y: 0,
                size_w: 1920,
                size_h: 1080,
                global_id: 3,
            }),
        }),
        capabilities: GroupCapabilities::empty(),
    }
}

/// Two groups on two outputs; three workspaces, one active per group.
fn fixture(protocol: Protocol) -> WorkspaceState {
    let (g1, g2, w1, w2, w3, manager) = match protocol {
        Protocol::ExtV1 => (
            GroupHandle::ExtV1(10),
            GroupHandle::ExtV1(20),
            WorkspaceHandle::ExtV1(11),
            WorkspaceHandle::ExtV1(12),
            WorkspaceHandle::ExtV1(21),
            ManagerHandle::ExtV1(1),
        ),
        Protocol::ExtV0 => (
            GroupHandle::ExtV0(10),
            GroupHandle::ExtV0(20),
            WorkspaceHandle::ExtV0(11),
            WorkspaceHandle::ExtV0(12),
            WorkspaceHandle::ExtV0(21),
            ManagerHandle::ExtV0(1),
        ),
        Protocol::CosmicV1 => (
            GroupHandle::CosmicV1(10),
            GroupHandle::CosmicV1(20),
            WorkspaceHandle::CosmicV1(11),
            WorkspaceHandle::CosmicV1(12),
            WorkspaceHandle::CosmicV1(21),
            ManagerHandle::CosmicV1(1),
        ),
    };
    let mut state = WorkspaceState::new(protocol, manager);
    state.groups.push(group(g1, 5, "DP-1"));
    state.groups.push(group(g2, 6, "DP-2"));
    state.workspaces.push(workspace(w1, "one", vec![0, 0], 0x1, Some(g1)));
    state.workspaces.push(workspace(w2, "two", vec![1, 0], 0x0, Some(g1)));
    state.workspaces.push(workspace(w3, "one", vec![0, 0], 0x1, Some(g2)));
    state
}

#[test]
fn group_resolves_by_output_name() {
    let state = fixture(Protocol::ExtV1);
    assert_eq!(state.group_from_output(&on_output("DP-2")), Ok(1));
}

#[test]
fn group_resolves_by_output_protocol_id() {
    let state = fixture(Protocol::ExtV1);
    let sel = OutputSelector { output_name: None, output_protocol_id: Some(5) };
    assert_eq!(state.group_from_output(&sel), Ok(0));
}

#[test]
fn group_resolution_errors() {
    let state = fixture(Protocol::ExtV1);
    assert_eq!(
        state.group_from_output(&on_output("HDMI-1")),
        Err(SelectorError::OutputNotFound)
    );
    let empty = OutputSelector { output_name: None, output_protocol_id: None };
    assert_eq!(state.group_from_output(&empty), Err(SelectorError::OutputRequired));
}

#[test]
fn protocol_id_selector_round_trips() {
    // Selecting by a workspace's own wire id returns that workspace.
    let state = fixture(Protocol::ExtV1);
    for (i, w) in state.workspaces.iter().enumerate() {
        let found = state.workspace_from_selection(&by_pid(w.id() as usize), None);
        assert_eq!(found, Ok(i));
    }
}

#[test]
fn name_selector_returns_smallest_wire_id() {
    // Workspaces 11 and 21 are both named "one"; the record order is
    // ascending by wire id, so the name resolves to wire id 11.
    let state = fixture(Protocol::ExtV1);
    let found = state.workspace_from_selection(&by_name("one"), None).unwrap();
    assert_eq!(state.workspaces[found].id(), 11);
}

#[test]
fn index_selector_counts_in_wire_id_order() {
    let state = fixture(Protocol::ExtV1);
    assert_eq!(state.workspace_from_selection(&by_index(0), None), Ok(0));
    assert_eq!(state.workspace_from_selection(&by_index(2), None), Ok(2));
    assert_eq!(
        state.workspace_from_selection(&by_index(3), None),
        Err(SelectorError::IndexOutOfRange)
    );
}

#[test]
fn index_selector_scoped_to_output() {
    let state = fixture(Protocol::ExtV1);
    let found =
        state.workspace_from_selection(&by_index(0), Some(&on_output("DP-2"))).unwrap();
    assert_eq!(state.workspaces[found].id(), 21);
}

#[test]
fn active_selector_scoped_to_output() {
    let state = fixture(Protocol::ExtV1);
    let found =
        state.workspace_from_selection(&by_active(), Some(&on_output("DP-1"))).unwrap();
    assert_eq!(state.workspaces[found].id(), 11);
}

#[test]
fn active_selector_fails_when_none_is_active() {
    let mut state = fixture(Protocol::ExtV1);
    for w in state.workspaces.iter_mut() {
        w.state = WorkspaceStates::from_bits_retain(0);
    }
    assert_eq!(
        state.workspace_from_selection(&by_active(), None),
        Err(SelectorError::NoActiveWorkspace)
    );
}

#[test]
fn name_selector_errors_when_absent() {
    let state = fixture(Protocol::ExtV1);
    assert_eq!(
        state.workspace_from_selection(&by_name("three"), None),
        Err(SelectorError::NameNotFound)
    );
    assert_eq!(
        state.workspace_from_selection(&by_pid(99), None),
        Err(SelectorError::ProtocolIdNotFound)
    );
}

#[test]
fn empty_candidate_set_is_reported() {
    let mut state = fixture(Protocol::ExtV1);
    state.workspaces.clear();
    assert_eq!(
        state.workspace_from_selection(&by_name("one"), None),
        Err(SelectorError::NoWorkspaces)
    );
}

#[test]
fn coordinate_selector_finds_match() {
    let state = fixture(Protocol::ExtV1);
    let found = state
        .workspace_from_selection(&by_coords(vec![1, 0]), Some(&on_output("DP-1")))
        .unwrap();
    assert_eq!(state.workspaces[found].id(), 12);
}

#[test]
fn coordinate_arity_mismatch_is_reported() {
    // The candidate set's coordinate arity is two; a one-dimensional
    // query fails with the arity mismatch.
    let state = fixture(Protocol::ExtV1);
    assert_eq!(
        state.workspace_from_selection(&by_coords(vec![1]), Some(&on_output("DP-1"))),
        Err(SelectorError::CoordinateArityMismatch)
    );
}

#[test]
fn coordinate_not_found_is_reported() {
    let state = fixture(Protocol::ExtV1);
    assert_eq!(
        state.workspace_from_selection(&by_coords(vec![9, 9]), Some(&on_output("DP-1"))),
        Err(SelectorError::CoordinateNotFound)
    );
}

#[test]
fn binding_order_without_preference() {
    // A single advertised dialect is bound; with several, ExtV0 wins
    // over ExtV1, and ExtV1 over CosmicV1.
    assert_eq!(choose_protocol(None, true, false, false), Ok(Protocol::ExtV0));
    assert_eq!(choose_protocol(None, false, true, false), Ok(Protocol::ExtV1));
    assert_eq!(choose_protocol(None, false, false, true), Ok(Protocol::CosmicV1));
    assert_eq!(choose_protocol(None, true, true, false), Ok(Protocol::ExtV0));
    assert_eq!(choose_protocol(None, false, true, true), Ok(Protocol::ExtV1));
    assert_eq!(choose_protocol(None, true, true, true), Ok(Protocol::ExtV0));
    assert_eq!(
        choose_protocol(None, false, false, false),
        Err(BindError::ProtocolUnavailable)
    );
}

#[test]
fn binding_honours_preference() {
    assert_eq!(
        choose_protocol(Some(Protocol::CosmicV1), true, true, true),
        Ok(Protocol::CosmicV1)
    );
    assert_eq!(
        choose_protocol(Some(Protocol::ExtV1), true, false, true),
        Err(BindError::ProtocolUnavailable)
    );
}

#[test]
fn activate_plan_issues_one_request_and_commits() {
    let state = fixture(Protocol::ExtV1);
    let command = Commands::Activate(WorkspaceArgs {
        workspace: by_index(1),
        output: Some(on_output("DP-1")),
    });
    let plan = state.plan_command(&command).unwrap();
    assert_eq!(plan.requests, vec![Request::Activate(WorkspaceHandle::ExtV1(12))]);
    assert!(plan.commit);
}

#[test]
fn remove_plan_removes_then_destroys() {
    let state = fixture(Protocol::ExtV1);
    let command = Commands::Remove(WorkspaceArgs { workspace: by_pid(21), output: None });
    let plan = state.plan_command(&command).unwrap();
    assert_eq!(
        plan.requests,
        vec![
            Request::Remove(WorkspaceHandle::ExtV1(21)),
            Request::Destroy(WorkspaceHandle::ExtV1(21)),
        ]
    );
}

#[test]
fn assign_plan_on_ext_v1() {
    let state = fixture(Protocol::ExtV1);
    let command = Commands::Assign {
        workspace_args: WorkspaceArgs { workspace: by_pid(11), output: None },
        target: TargetOutput {
            target_output_name: Some("DP-2".to_string()),
            target_output_protocol_id: None,
        },
    };
    let plan = state.plan_command(&command).unwrap();
    assert_eq!(
        plan.requests,
        vec![Request::Assign(WorkspaceHandle::ExtV1(11), GroupHandle::ExtV1(20))]
    );
}

#[test]
fn assign_rejected_on_ext_v0() {
    // The ExtV0 dialect cannot express assign: the command fails before
    // any request is issued.
    let state = fixture(Protocol::ExtV0);
    let command = Commands::Assign {
        workspace_args: WorkspaceArgs { workspace: by_pid(11), output: None },
        target: TargetOutput {
            target_output_name: Some("DP-1".to_string()),
            target_output_protocol_id: None,
        },
    };
    assert_eq!(
        state.plan_command(&command),
        Err(CommandError::Request(RequestError::UnsupportedOperation))
    );
}

#[test]
fn create_workspace_plan_targets_resolved_group() {
    let state = fixture(Protocol::ExtV1);
    let command = Commands::CreateWorkspace {
        workspace_name: "mail".to_string(),
        output: on_output("DP-2"),
    };
    let plan = state.plan_command(&command).unwrap();
    assert_eq!(
        plan.requests,
        vec![Request::CreateWorkspace(GroupHandle::ExtV1(20), "mail".to_string())]
    );
    assert!(plan.commit);
}

#[test]
fn plan_propagates_selector_failures() {
    let state = fixture(Protocol::ExtV1);
    let command = Commands::Activate(WorkspaceArgs {
        workspace: by_name("three"),
        output: None,
    });
    assert_eq!(
        state.plan_command(&command),
        Err(CommandError::Selector(SelectorError::NameNotFound))
    );
}

#[test]
fn request_constructors_are_one_to_one() {
    let state = fixture(Protocol::ExtV1);
    let w = &state.workspaces[0];
    assert_eq!(w.activate(), Request::Activate(WorkspaceHandle::ExtV1(11)));
    assert_eq!(w.deactivate(), Request::Deactivate(WorkspaceHandle::ExtV1(11)));
    assert_eq!(w.remove(), Request::Remove(WorkspaceHandle::ExtV1(11)));
    assert_eq!(w.destroy(), Request::Destroy(WorkspaceHandle::ExtV1(11)));
    assert_eq!(
        w.assign(&GroupHandle::ExtV1(20)),
        Ok(Request::Assign(WorkspaceHandle::ExtV1(11), GroupHandle::ExtV1(20)))
    );
    assert_eq!(state.commit(), Request::Commit(ManagerHandle::ExtV1(1)));
    assert_eq!(
        state.groups[0].create_workspace("mail".to_string()),
        Request::CreateWorkspace(GroupHandle::ExtV1(10), "mail".to_string())
    );
}

#[test]
fn assign_requires_matching_dialects() {
    let state = fixture(Protocol::ExtV1);
    assert_eq!(
        state.workspaces[0].assign(&GroupHandle::CosmicV1(20)),
        Err(RequestError::UnsupportedOperation)
    );
}

#[test]
fn target_output_converts_to_output_selector() {
    let target = TargetOutput {
        target_output_name: Some("DP-1".to_string()),
        target_output_protocol_id: None,
    };
    let sel = target.as_output_selection();
    assert_eq!(sel.output_name, Some("DP-1".to_string()));
    assert_eq!(sel.output_protocol_id, None);
}
