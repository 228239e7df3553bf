//! The event engine driven through the per-dialect dispatchers:
//! transactions, decoding, and the committed-snapshot guarantees.

use workspacectl::{
    CosmicGroupEvent, CosmicManagerEvent, CosmicWorkspaceEvent, ExtV0ManagerEvent,
    ExtV0WorkspaceEvent, ExtV1GroupEvent, ExtV1ManagerEvent, ExtV1WorkspaceEvent, GroupHandle,
    ManagerHandle, OutputInfoData, OutputRef, Protocol, WireEnum, WorkspaceHandle,
    WorkspaceState,
};

fn output_ref(id: u32, name: &str) -> OutputRef {
    OutputRef {
        protocol_id: id,
        info: Some(OutputInfoData {
            name: Some(name.to_string()),
            description: Some(format!("monitor {name}")),
            loc_x: 0,
            loc_y: 0,
            size_w: 1920,
            size_h: 1080,
            global_id: 40 + id,
        }),
    }
}

/// One ExtV1 session: a group on one output, two workspaces with names,
/// states and coordinates, all committed by a single transaction.
fn ext_v1_fixture() -> WorkspaceState {
    let mut state = WorkspaceState::new(Protocol::ExtV1, ManagerHandle::ExtV1(1));
    state.ext_v1_manager_event(ExtV1ManagerEvent::WorkspaceGroup { workspace_group: 10 });
    state.ext_v1_manager_event(ExtV1ManagerEvent::Workspace { workspace: 11 });
    state.ext_v1_manager_event(ExtV1ManagerEvent::Workspace { workspace: 12 });
    state.ext_v1_group_event(10, ExtV1GroupEvent::OutputEnter { output: output_ref(5, "DP-1") });
    state.ext_v1_group_event(10, ExtV1GroupEvent::WorkspaceEnter { workspace: 11 });
    state.ext_v1_group_event(10, ExtV1GroupEvent::WorkspaceEnter { workspace: 12 });
    state.ext_v1_workspace_event(11, ExtV1WorkspaceEvent::Name { name: "one".to_string() });
    state.ext_v1_workspace_event(11, ExtV1WorkspaceEvent::State { state: WireEnum::Value(1) });
    state.ext_v1_workspace_event(11, ExtV1WorkspaceEvent::Coordinates { coordinates: vec![0, 0] });
    state.ext_v1_workspace_event(12, ExtV1WorkspaceEvent::Name { name: "two".to_string() });
    state.ext_v1_workspace_event(12, ExtV1WorkspaceEvent::State { state: WireEnum::Value(0) });
    state.ext_v1_workspace_event(12, ExtV1WorkspaceEvent::Coordinates { coordinates: vec![1, 0] });
    state.ext_v1_manager_event(ExtV1ManagerEvent::Done);
    state
}

#[test]
fn ext_v1_bind_and_list() {
    let state = ext_v1_fixture();
    assert_eq!(state.groups.len(), 1);
    assert_eq!(state.groups[0].handle, GroupHandle::ExtV1(10));
    assert_eq!(state.groups[0].id(), 10);
    assert!(state.groups[0].output.is_some());
    assert_eq!(state.groups[0].get_output_name(), Some("DP-1".to_string()));

    assert_eq!(state.workspaces.len(), 2);
    let w1 = &state.workspaces[0];
    assert_eq!(w1.handle, WorkspaceHandle::ExtV1(11));
    assert_eq!(w1.name, Some("one".to_string()));
    assert!(w1.state.contains(0x1));
    assert_eq!(w1.coordinates, vec![0, 0]);
    assert_eq!(w1.group, Some(GroupHandle::ExtV1(10)));
    let w2 = &state.workspaces[1];
    assert_eq!(w2.handle, WorkspaceHandle::ExtV1(12));
    assert_eq!(w2.name, Some("two".to_string()));
    assert!(!w2.state.contains(0x1));
    assert_eq!(w2.coordinates, vec![1, 0]);
}

#[test]
fn snapshot_stable_across_empty_transaction() {
    let mut state = ext_v1_fixture();
    let groups_before = state.groups.len();
    let names_before: Vec<Option<String>> =
        state.workspaces.iter().map(|w| w.name.clone()).collect();
    // A second transaction boundary with no intervening events.
    state.ext_v1_manager_event(ExtV1ManagerEvent::Done);
    assert_eq!(state.groups.len(), groups_before);
    let names_after: Vec<Option<String>> =
        state.workspaces.iter().map(|w| w.name.clone()).collect();
    assert_eq!(names_before, names_after);
}

#[test]
fn events_buffer_until_done() {
    // Observers between two transactions read the same snapshot however
    // many events have arrived.
    let mut state = WorkspaceState::new(Protocol::ExtV1, ManagerHandle::ExtV1(1));
    state.ext_v1_manager_event(ExtV1ManagerEvent::WorkspaceGroup { workspace_group: 10 });
    state.ext_v1_manager_event(ExtV1ManagerEvent::Workspace { workspace: 11 });
    assert_eq!(state.groups.len(), 0);
    assert_eq!(state.workspaces.len(), 0);
    assert_eq!(state.events.len(), 2);
    state.ext_v1_manager_event(ExtV1ManagerEvent::Done);
    assert_eq!(state.groups.len(), 1);
    assert_eq!(state.workspaces.len(), 1);
    assert_eq!(state.events.len(), 0);
}

#[test]
fn group_removal_clears_references() {
    // Removing a group never leaves a workspace pointing at it.
    let mut state = ext_v1_fixture();
    state.ext_v1_group_event(10, ExtV1GroupEvent::Removed);
    state.ext_v1_manager_event(ExtV1ManagerEvent::Done);
    assert_eq!(state.groups.len(), 0);
    assert_eq!(state.workspaces.len(), 2);
    assert!(state.workspaces.iter().all(|w| w.group.is_none()));
}

#[test]
fn duplicate_records_are_not_created() {
    let mut state = ext_v1_fixture();
    state.ext_v1_manager_event(ExtV1ManagerEvent::WorkspaceGroup { workspace_group: 10 });
    state.ext_v1_manager_event(ExtV1ManagerEvent::Workspace { workspace: 11 });
    state.ext_v1_manager_event(ExtV1ManagerEvent::Done);
    assert_eq!(state.groups.len(), 1);
    assert_eq!(state.workspaces.len(), 2);
}

#[test]
fn workspace_created_in_unknown_group_is_dropped() {
    let mut state = WorkspaceState::new(Protocol::CosmicV1, ManagerHandle::CosmicV1(1));
    state.cosmic_group_event(99, CosmicGroupEvent::Workspace { workspace: 7 });
    state.cosmic_manager_event(CosmicManagerEvent::Done);
    assert_eq!(state.workspaces.len(), 0);
}

#[test]
fn cosmic_state_bits_decode_verbatim() {
    // state = [0x05, 0, 0, 0] little-endian decodes to {active, urgent},
    // with no inversion applied.
    let mut state = WorkspaceState::new(Protocol::CosmicV1, ManagerHandle::CosmicV1(1));
    state.cosmic_manager_event(CosmicManagerEvent::WorkspaceGroup { workspace_group: 10 });
    state.cosmic_group_event(10, CosmicGroupEvent::Workspace { workspace: 11 });
    state.cosmic_workspace_event(
        11,
        CosmicWorkspaceEvent::State { state: vec![0x05, 0x00, 0x00, 0x00] },
    );
    state.cosmic_manager_event(CosmicManagerEvent::Done);
    let w = &state.workspaces[0];
    assert_eq!(w.state.bits, 0x5);
    assert!(w.state.contains(0x1));
    assert!(w.state.contains(0x4));
    assert!(!w.state.contains(0x2));
}

#[test]
fn malformed_state_buffer_is_dropped() {
    let mut state = WorkspaceState::new(Protocol::ExtV0, ManagerHandle::ExtV0(1));
    state.ext_v0_manager_event(ExtV0ManagerEvent::WorkspaceGroup { workspace_group: 10 });
    state.ext_v0_group_event(
        10,
        workspacectl::ExtV0GroupEvent::Workspace { workspace: 11 },
    );
    state.ext_v0_workspace_event(11, ExtV0WorkspaceEvent::State { state: vec![0x01, 0x00] });
    state.ext_v0_manager_event(ExtV0ManagerEvent::Done);
    // The two-byte buffer is not a state word; the event was dropped and
    // the workspace keeps the empty state set.
    assert_eq!(state.workspaces[0].state.bits, 0);
}

#[test]
fn ext_v0_state_bits_are_little_endian() {
    let mut state = WorkspaceState::new(Protocol::ExtV0, ManagerHandle::ExtV0(1));
    state.ext_v0_manager_event(ExtV0ManagerEvent::WorkspaceGroup { workspace_group: 10 });
    state.ext_v0_group_event(
        10,
        workspacectl::ExtV0GroupEvent::Workspace { workspace: 11 },
    );
    state.ext_v0_workspace_event(
        11,
        ExtV0WorkspaceEvent::State { state: vec![0x03, 0x01, 0x00, 0x00] },
    );
    state.ext_v0_manager_event(ExtV0ManagerEvent::Done);
    assert_eq!(state.workspaces[0].state.bits, 0x103);
}

#[test]
fn cosmic_capability_rotation_quirk() {
    // The payload bytes 8 and 16 arrive rotated; they decode to the
    // rename and set-tiling-state bits.
    let mut state = WorkspaceState::new(Protocol::CosmicV1, ManagerHandle::CosmicV1(1));
    state.cosmic_manager_event(CosmicManagerEvent::WorkspaceGroup { workspace_group: 10 });
    state.cosmic_group_event(10, CosmicGroupEvent::Workspace { workspace: 11 });
    state.cosmic_workspace_event(
        11,
        CosmicWorkspaceEvent::Capabilities { capabilities: vec![1, 8, 16] },
    );
    state.cosmic_manager_event(CosmicManagerEvent::Done);
    assert_eq!(state.workspaces[0].capabilities.bits, 0x1 | 0x10 | 0x20);
}

#[test]
fn ext_v1_undeclared_capability_bits_are_dropped() {
    let mut state = ext_v1_fixture();
    state.ext_v1_workspace_event(
        11,
        ExtV1WorkspaceEvent::Capabilities { capabilities: WireEnum::Value(0x40) },
    );
    state.ext_v1_workspace_event(
        12,
        ExtV1WorkspaceEvent::Capabilities { capabilities: WireEnum::Value(0x3) },
    );
    state.ext_v1_manager_event(ExtV1ManagerEvent::Done);
    assert_eq!(state.workspaces[0].capabilities.bits, 0);
    assert_eq!(state.workspaces[1].capabilities.bits, 0x3);
}

#[test]
fn unknown_enum_values_are_dropped() {
    let mut state = ext_v1_fixture();
    state.ext_v1_workspace_event(
        11,
        ExtV1WorkspaceEvent::State { state: WireEnum::Unknown(77) },
    );
    state.ext_v1_manager_event(ExtV1ManagerEvent::Done);
    assert_eq!(state.workspaces[0].state.bits, 0x1);
}

#[test]
fn output_leave_with_stale_output_keeps_recorded_one() {
    let mut state = ext_v1_fixture();
    state.ext_v1_group_event(10, ExtV1GroupEvent::OutputLeave { output: output_ref(6, "DP-2") });
    state.ext_v1_manager_event(ExtV1ManagerEvent::Done);
    let output = state.groups[0].output.as_ref().expect("output still recorded");
    assert_eq!(output.protocol_id, 5);
}

#[test]
fn output_leave_with_matching_output_clears_it() {
    let mut state = ext_v1_fixture();
    state.ext_v1_group_event(10, ExtV1GroupEvent::OutputLeave { output: output_ref(5, "DP-1") });
    state.ext_v1_manager_event(ExtV1ManagerEvent::Done);
    assert!(state.groups[0].output.is_none());
}

#[test]
fn unassigned_workspace_stays_unassigned() {
    let mut state = WorkspaceState::new(Protocol::ExtV1, ManagerHandle::ExtV1(1));
    state.ext_v1_manager_event(ExtV1ManagerEvent::Workspace { workspace: 30 });
    state.ext_v1_manager_event(ExtV1ManagerEvent::Done);
    assert_eq!(state.workspaces.len(), 1);
    assert!(state.workspaces[0].group.is_none());
}

#[test]
fn leave_group_with_wrong_group_is_ignored() {
    let mut state = ext_v1_fixture();
    state.ext_v1_manager_event(ExtV1ManagerEvent::WorkspaceGroup { workspace_group: 20 });
    state.ext_v1_group_event(20, ExtV1GroupEvent::WorkspaceLeave { workspace: 11 });
    state.ext_v1_manager_event(ExtV1ManagerEvent::Done);
    // Workspace 11 is owned by group 10; leaving group 20 is a stale
    // reference and changes nothing.
    assert_eq!(state.workspaces[0].group, Some(GroupHandle::ExtV1(10)));
    state.ext_v1_group_event(10, ExtV1GroupEvent::WorkspaceLeave { workspace: 11 });
    state.ext_v1_manager_event(ExtV1ManagerEvent::Done);
    assert_eq!(state.workspaces[0].group, None);
}

#[test]
fn tiling_state_known_values_only() {
    let mut state = WorkspaceState::new(Protocol::CosmicV1, ManagerHandle::CosmicV1(1));
    state.cosmic_manager_event(CosmicManagerEvent::WorkspaceGroup { workspace_group: 10 });
    state.cosmic_group_event(10, CosmicGroupEvent::Workspace { workspace: 11 });
    state.cosmic_workspace_event(
        11,
        CosmicWorkspaceEvent::TilingState { state: WireEnum::Value(1) },
    );
    state.cosmic_manager_event(CosmicManagerEvent::Done);
    assert_eq!(state.workspaces[0].tiling_state, Some(workspacectl::TilingState::TilingEnabled));
    state.cosmic_workspace_event(
        11,
        CosmicWorkspaceEvent::TilingState { state: WireEnum::Unknown(9) },
    );
    state.cosmic_manager_event(CosmicManagerEvent::Done);
    assert_eq!(state.workspaces[0].tiling_state, Some(workspacectl::TilingState::TilingEnabled));
}

#[test]
fn bitset_insert_and_contains() {
    let mut st = workspacectl::WorkspaceStates::empty();
    st.insert(0x1);
    st.insert(0x4);
    assert_eq!(st.bits, 0x5);
    assert!(st.contains(0x1));
    assert!(!st.contains(0x2));
    let mut caps = workspacectl::WorkspaceCapabilities::empty();
    caps.insert(0x8);
    assert!(caps.contains(0x8));
    let mut group_caps = workspacectl::GroupCapabilities::empty();
    group_caps.insert(0x1);
    assert!(group_caps.contains(0x1));
}

#[test]
fn activation_arrives_as_state_events() {
    // After the server processes an activate request, the induced state
    // events of the next transaction move the active bit.
    let mut state = ext_v1_fixture();
    state.ext_v1_workspace_event(11, ExtV1WorkspaceEvent::State { state: WireEnum::Value(0) });
    state.ext_v1_workspace_event(12, ExtV1WorkspaceEvent::State { state: WireEnum::Value(1) });
    state.ext_v1_manager_event(ExtV1ManagerEvent::Done);
    assert!(!state.workspaces[0].state.contains(0x1));
    assert!(state.workspaces[1].state.contains(0x1));
}
