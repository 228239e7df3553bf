//! The renderer: numbers, flag lists, record lines, the text block,
//! the JSON-ready grouping, and list preparation.

use workspacectl::render::{i32_string, u32_string};
use workspacectl::{
    GroupCapabilities, GroupHandle, ListArgs, ManagerHandle, OutputInfoData, OutputRef,
    OutputSelector, Protocol, TilingState, Workspace, WorkspaceCapabilities, WorkspaceGroup,
    WorkspaceHandle, WorkspaceState, WorkspaceStates,
};

fn plain_workspace(handle: WorkspaceHandle, name: &str, group: Option<GroupHandle>) -> Workspace {
    Workspace {
        handle,
        name: Some(name.to_string()),
        id: None,
        coordinates: Vec::new(),
        state: WorkspaceStates::empty(),
        group,
        tiling_state: None,
        capabilities: WorkspaceCapabilities::empty(),
    }
}

#[test]
fn decimal_rendering() {
    assert_eq!(u32_string(0), "0");
    assert_eq!(u32_string(7), "7");
    assert_eq!(u32_string(42), "42");
    assert_eq!(u32_string(4294967295), "4294967295");
    assert_eq!(i32_string(0), "0");
    assert_eq!(i32_string(-5), "-5");
    assert_eq!(i32_string(-2147483648), "-2147483648");
    assert_eq!(i32_string(1080), "1080");
}

#[test]
fn workspace_line_rendering() {
    let w = Workspace {
        handle: WorkspaceHandle::ExtV1(11),
        name: Some("one".to_string()),
        id: Some("ws-one".to_string()),
        coordinates: vec![1, 2],
        state: WorkspaceStates::from_bits_retain(0x5),
        group: None,
        tiling_state: Some(TilingState::FloatingOnly),
        capabilities: WorkspaceCapabilities::from_bits_retain(0x3),
    };
    assert_eq!(
        w.display_string(),
        "name: \"one\", id: ws-one, coordinates: [1, 2], state: [Active | Urgent], \
         capabilities: [Activate | Deactivate], tiling_state: FloatingOnly"
    );
}

#[test]
fn empty_fields_render_empty() {
    let w = plain_workspace(WorkspaceHandle::ExtV1(11), "", None);
    let mut w = w;
    w.name = None;
    assert_eq!(
        w.display_string(),
        "name: \"\", id: , coordinates: [], state: [], capabilities: []"
    );
}

#[test]
fn group_line_rendering() {
    let g = WorkspaceGroup {
        handle: GroupHandle::ExtV1(10),
        output: Some(OutputRef {
            protocol_id: 5,
            info: Some(OutputInfoData {
                name: Some("DP-1".to_string()),
                description: Some("a monitor".to_string()),
                loc_x: -1920,
                loc_y: 0,
                size_w: 1920,
                size_h: 1080,
                global_id: 43,
            }),
        }),
        capabilities: GroupCapabilities::from_bits_retain(0x1),
    };
    assert_eq!(
        g.display_string(),
        "protocol_id: 5, global_id: 43, name: \"DP-1\", location: (-1920, 0), \
         size: (1920, 1080), description: a monitor, capabilities: [CreateWorkspace]"
    );
}

#[test]
fn group_without_output_renders_marker() {
    let g = WorkspaceGroup {
        handle: GroupHandle::ExtV1(10),
        output: None,
        capabilities: GroupCapabilities::empty(),
    };
    assert_eq!(g.display_string(), "workspace group without assigned output");
}

#[test]
fn state_text_block_shape() {
    let mut state = WorkspaceState::new(Protocol::ExtV1, ManagerHandle::ExtV1(1));
    state.groups.push(WorkspaceGroup {
        handle: GroupHandle::ExtV1(10),
        output: None,
        capabilities: GroupCapabilities::empty(),
    });
    state.workspaces.push(plain_workspace(
        WorkspaceHandle::ExtV1(11),
        "owned",
        Some(GroupHandle::ExtV1(10)),
    ));
    state.workspaces.push(plain_workspace(WorkspaceHandle::ExtV1(12), "loose", None));
    let text = state.display_string();
    // The group has no output: its marker renders with no member lines,
    // and the unassigned workspace lands in the trailing section.
    assert_eq!(
        text,
        "workspace group without assigned output\n\
         workspaces without assigned workspace group\n    \
         name: \"loose\", id: , coordinates: [], state: [], capabilities: []\n"
    );
}

#[test]
fn state_text_lists_members_under_their_group() {
    let mut state = WorkspaceState::new(Protocol::ExtV1, ManagerHandle::ExtV1(1));
    state.groups.push(WorkspaceGroup {
        handle: GroupHandle::ExtV1(10),
        output: Some(OutputRef { protocol_id: 5, info: None }),
        capabilities: GroupCapabilities::empty(),
    });
    state.workspaces.push(plain_workspace(
        WorkspaceHandle::ExtV1(11),
        "one",
        Some(GroupHandle::ExtV1(10)),
    ));
    let text = state.display_string();
    assert_eq!(
        text,
        "protocol_id: 5, global_id: , name: \"\", location: (, ), size: (, ), \
         description: , capabilities: []\n    \
         name: \"one\", id: , coordinates: [], state: [], capabilities: []\n"
    );
}

#[test]
fn render_groups_keeps_order_and_trailing_unassigned() {
    let mut state = WorkspaceState::new(Protocol::ExtV1, ManagerHandle::ExtV1(1));
    state.groups.push(WorkspaceGroup {
        handle: GroupHandle::ExtV1(10),
        output: None,
        capabilities: GroupCapabilities::empty(),
    });
    state.groups.push(WorkspaceGroup {
        handle: GroupHandle::ExtV1(20),
        output: None,
        capabilities: GroupCapabilities::empty(),
    });
    state.workspaces.push(plain_workspace(
        WorkspaceHandle::ExtV1(21),
        "a",
        Some(GroupHandle::ExtV1(20)),
    ));
    state.workspaces.push(plain_workspace(WorkspaceHandle::ExtV1(31), "b", None));
    state.workspaces.push(plain_workspace(
        WorkspaceHandle::ExtV1(22),
        "c",
        Some(GroupHandle::ExtV1(20)),
    ));
    let grouped = state.render_groups();
    // Group 10 owns nothing and is skipped; group 20 lists its members
    // in record order; the unassigned workspace forms the last entry.
    assert_eq!(grouped.len(), 2);
    assert_eq!(grouped[0].group, Some(1));
    assert_eq!(grouped[0].members, vec![0, 2]);
    assert_eq!(grouped[1].group, None);
    assert_eq!(grouped[1].members, vec![1]);
}

#[test]
fn prepare_list_sorts_and_narrows() {
    let mut state = WorkspaceState::new(Protocol::ExtV1, ManagerHandle::ExtV1(1));
    let g1 = GroupHandle::ExtV1(20);
    let g2 = GroupHandle::ExtV1(10);
    state.groups.push(WorkspaceGroup {
        handle: g1,
        output: Some(OutputRef {
            protocol_id: 5,
            info: Some(OutputInfoData {
                name: Some("DP-1".to_string()),
                description: None,
                loc_x: 0,
                loc_y: 0,
                size_w: 1,
                size_h: 1,
                global_id: 9,
            }),
        }),
        capabilities: GroupCapabilities::empty(),
    });
    state.groups.push(WorkspaceGroup { handle: g2, output: None, capabilities: GroupCapabilities::empty() });
    let mut w1 = plain_workspace(WorkspaceHandle::ExtV1(12), "late", Some(g1));
    w1.coordinates = vec![1];
    let mut w2 = plain_workspace(WorkspaceHandle::ExtV1(11), "early", Some(g1));
    w2.coordinates = vec![0];
    let mut w3 = plain_workspace(WorkspaceHandle::ExtV1(13), "other", Some(g2));
    w3.coordinates = vec![2];
    state.workspaces.push(w1);
    state.workspaces.push(w2);
    state.workspaces.push(w3);

    let args = ListArgs {
        output: Some(OutputSelector {
            output_name: Some("DP-1".to_string()),
            output_protocol_id: None,
        }),
        outputs_only: false,
        json: false,
    };
    state.prepare_list(args.output.as_ref()).unwrap();
    assert_eq!(state.groups.len(), 1);
    assert_eq!(state.groups[0].handle, g1);
    assert_eq!(state.workspaces.len(), 2);
    assert_eq!(state.workspaces[0].name, Some("early".to_string()));
    assert_eq!(state.workspaces[1].name, Some("late".to_string()));
}

#[test]
fn prepare_list_without_selector_keeps_everything_sorted() {
    let mut state = WorkspaceState::new(Protocol::ExtV1, ManagerHandle::ExtV1(1));
    state.groups.push(WorkspaceGroup {
        handle: GroupHandle::ExtV1(20),
        output: None,
        capabilities: GroupCapabilities::empty(),
    });
    state.groups.push(WorkspaceGroup {
        handle: GroupHandle::ExtV1(10),
        output: None,
        capabilities: GroupCapabilities::empty(),
    });
    state.prepare_list(None).unwrap();
    assert_eq!(state.groups[0].handle, GroupHandle::ExtV1(10));
    assert_eq!(state.groups[1].handle, GroupHandle::ExtV1(20));
}

#[test]
fn prepare_list_propagates_output_errors() {
    let mut state = WorkspaceState::new(Protocol::ExtV1, ManagerHandle::ExtV1(1));
    let sel = OutputSelector { output_name: Some("DP-9".to_string()), output_protocol_id: None };
    assert_eq!(
        state.prepare_list(Some(&sel)),
        Err(workspacectl::SelectorError::OutputNotFound)
    );
}

#[test]
fn selector_error_messages_name_the_failure() {
    assert_eq!(
        workspacectl::SelectorError::NoActiveWorkspace.message(),
        "unable to find active workspace"
    );
    assert_eq!(
        workspacectl::SelectorError::OutputRequired.message(),
        "an output has to be selected"
    );
}

#[test]
fn handle_lookup_finds_first_match() {
    let mut state = WorkspaceState::new(Protocol::ExtV1, ManagerHandle::ExtV1(1));
    state.workspaces.push(plain_workspace(WorkspaceHandle::ExtV1(11), "one", None));
    state.workspaces.push(plain_workspace(WorkspaceHandle::ExtV1(12), "two", None));
    assert_eq!(state.get_workspace_by_handle(&WorkspaceHandle::ExtV1(12)), Some(1));
    assert_eq!(state.get_workspace_by_handle(&WorkspaceHandle::ExtV1(13)), None);
    assert_eq!(state.get_group_by_handle(&GroupHandle::ExtV1(10)), None);
}

#[test]
fn output_info_reads_back() {
    let g = WorkspaceGroup {
        handle: GroupHandle::ExtV1(10),
        output: Some(OutputRef {
            protocol_id: 5,
            info: Some(OutputInfoData {
                name: Some("DP-1".to_string()),
                description: Some("left".to_string()),
                loc_x: 4,
                loc_y: 5,
                size_w: 6,
                size_h: 7,
                global_id: 8,
            }),
        }),
        capabilities: GroupCapabilities::empty(),
    };
    let info = g.get_output_info().unwrap();
    assert_eq!(info.name, Some("DP-1".to_string()));
    assert_eq!(info.description, Some("left".to_string()));
    assert_eq!((info.loc_x, info.loc_y), (4, 5));
    assert_eq!((info.size_w, info.size_h), (6, 7));
    assert_eq!(info.global_id, 8);
    assert_eq!(g.get_output_name(), Some("DP-1".to_string()));
}
