//! Ghost model of the workspace engine.
//!
//! The executable state views into these ghost types; the transactional
//! semantics of the engine is the spec function [`apply_event`], folded
//! over a queue by [`apply_all`].  The structural invariant [`snap_wf`]
//! (no duplicate handles, every group reference resolves) and the dialect
//! invariant [`snap_dialect_ok`] are preserved by every event; the proofs
//! stand at the end of this module.

use vstd::prelude::*;

use crate::output::OutputModel;
use crate::protocol::{
    GroupCapabilities, GroupHandle, Protocol, TilingState, WorkspaceCapabilities, WorkspaceHandle,
    WorkspaceStates,
};

verus! {

/// Ghost image of one workspace group record.
#[verifier::ext_equal]
pub ghost struct GroupModel {
    pub handle: GroupHandle,
    pub output: Option<OutputModel>,
    pub capabilities: GroupCapabilities,
}

impl GroupModel {
    /// The reported name of this group's output, when one is on record.
    pub open spec fn output_name(self) -> Option<Seq<char>> {
        match self.output {
            Some(o) => match o.info {
                Some(i) => i.name,
                None => None,
            },
            None => None,
        }
    }

    /// The collaborator's report on this group's output, when one is on
    /// record.
    pub open spec fn output_info(self) -> Option<crate::output::OutputInfoModel> {
        match self.output {
            Some(o) => o.info,
            None => None,
        }
    }
}

/// Ghost image of one workspace record.
#[verifier::ext_equal]
pub ghost struct WorkspaceModel {
    pub handle: WorkspaceHandle,
    pub name: Option<Seq<char>>,
    pub id: Option<Seq<char>>,
    pub coordinates: Seq<u8>,
    pub state: WorkspaceStates,
    pub group: Option<GroupHandle>,
    pub tiling_state: Option<TilingState>,
    pub capabilities: WorkspaceCapabilities,
}

/// Ghost image of one queued event.
#[verifier::ext_equal]
pub ghost enum EventModel {
    GroupCreated { group: GroupHandle },
    GroupRemoved { group: GroupHandle },
    GroupCapabilities { group: GroupHandle, capabilities: GroupCapabilities },
    OutputEnter { group: GroupHandle, output: OutputModel },
    OutputLeave { group: GroupHandle, output: OutputModel },
    EnterGroup { workspace: WorkspaceHandle, group: GroupHandle },
    LeaveGroup { workspace: WorkspaceHandle, group: GroupHandle },
    Created { group: Option<GroupHandle>, workspace: WorkspaceHandle },
    Removed { workspace: WorkspaceHandle },
    StateChanged { workspace: WorkspaceHandle, state: WorkspaceStates },
    CapabilitiesChanged { workspace: WorkspaceHandle, capabilities: WorkspaceCapabilities },
    CoordinatesChanged { workspace: WorkspaceHandle, coordinates: Seq<u8> },
    NameChanged { workspace: WorkspaceHandle, name: Seq<char> },
    IdChanged { workspace: WorkspaceHandle, id: Seq<char> },
    TilingChanged { workspace: WorkspaceHandle, tiling_state: TilingState },
    Finished,
}

/// Ghost image of the committed part of the engine state: what observers
/// read between two transactions.
#[verifier::ext_equal]
pub ghost struct SnapshotModel {
    pub groups: Seq<GroupModel>,
    pub workspaces: Seq<WorkspaceModel>,
}

/// Index of the first element satisfying `pred`, or -1.
pub open spec fn first_index_where<A>(s: Seq<A>, pred: spec_fn(A) -> bool) -> int
    decreases s.len(),
{
    if s.len() == 0 {
        -1
    } else if pred(s[0]) {
        0
    } else {
        let r = first_index_where(s.drop_first(), pred);
        if r < 0 {
            -1
        } else {
            r + 1
        }
    }
}

/// Whether a group with the given handle is on record.
pub open spec fn has_group(groups: Seq<GroupModel>, handle: GroupHandle) -> bool {
    exists|i: int| 0 <= i < groups.len() && groups[i].handle == handle
}

/// Whether a workspace with the given handle is on record.
pub open spec fn has_workspace(workspaces: Seq<WorkspaceModel>, handle: WorkspaceHandle) -> bool {
    exists|i: int| 0 <= i < workspaces.len() && workspaces[i].handle == handle
}

/// Update the first group whose handle matches, if any.
pub open spec fn update_first_group(
    groups: Seq<GroupModel>,
    handle: GroupHandle,
    f: spec_fn(GroupModel) -> GroupModel,
) -> Seq<GroupModel> {
    let i = first_index_where(groups, fn_group_is(handle));
    if i < 0 {
        groups
    } else {
        groups.update(i, f(groups[i]))
    }
}

/// Update the first workspace whose handle matches, if any.
pub open spec fn update_first_workspace(
    workspaces: Seq<WorkspaceModel>,
    handle: WorkspaceHandle,
    f: spec_fn(WorkspaceModel) -> WorkspaceModel,
) -> Seq<WorkspaceModel> {
    let i = first_index_where(workspaces, fn_ws_is(handle));
    if i < 0 {
        workspaces
    } else {
        workspaces.update(i, f(workspaces[i]))
    }
}

/// Predicate: the group has this handle.
pub open spec fn fn_group_is(handle: GroupHandle) -> spec_fn(GroupModel) -> bool {
    |g: GroupModel| g.handle == handle
}

/// Predicate: the group does not have this handle.
pub open spec fn fn_group_not(handle: GroupHandle) -> spec_fn(GroupModel) -> bool {
    |g: GroupModel| g.handle != handle
}

/// Predicate: the workspace has this handle.
pub open spec fn fn_ws_is(handle: WorkspaceHandle) -> spec_fn(WorkspaceModel) -> bool {
    |w: WorkspaceModel| w.handle == handle
}

/// Predicate: the workspace does not have this handle.
pub open spec fn fn_ws_not(handle: WorkspaceHandle) -> spec_fn(WorkspaceModel) -> bool {
    |w: WorkspaceModel| w.handle != handle
}

/// Predicate: the workspace belongs to this group.
pub open spec fn fn_ws_of_group(handle: GroupHandle) -> spec_fn(WorkspaceModel) -> bool {
    |w: WorkspaceModel| w.group == Some(handle)
}

/// Update: overwrite the group's capability set.
pub open spec fn fn_set_group_caps(
    capabilities: GroupCapabilities,
) -> spec_fn(GroupModel) -> GroupModel {
    |g: GroupModel| GroupModel { capabilities, ..g }
}

/// Update: record the group's output.
pub open spec fn fn_set_group_output(output: OutputModel) -> spec_fn(GroupModel) -> GroupModel {
    |g: GroupModel| GroupModel { output: Some(output), ..g }
}

/// Update: clear the group's output, but only when the recorded one is
/// the output that left.
pub open spec fn fn_leave_group_output(output: OutputModel) -> spec_fn(GroupModel) -> GroupModel {
    |g: GroupModel|
        match g.output {
            Some(cur) => {
                if cur.protocol_id == output.protocol_id {
                    GroupModel { output: None, ..g }
                } else {
                    g
                }
            },
            None => g,
        }
}

/// Update: set the workspace's owning group.
pub open spec fn fn_set_ws_group(group: GroupHandle) -> spec_fn(WorkspaceModel) -> WorkspaceModel {
    |w: WorkspaceModel| WorkspaceModel { group: Some(group), ..w }
}

/// Update: clear the workspace's owning group, but only when the
/// recorded one is the group that was left.
pub open spec fn fn_clear_ws_group(
    group: GroupHandle,
) -> spec_fn(WorkspaceModel) -> WorkspaceModel {
    |w: WorkspaceModel|
        if w.group == Some(group) {
            WorkspaceModel { group: None, ..w }
        } else {
            w
        }
}

/// Update: overwrite the workspace's state set.
pub open spec fn fn_set_ws_state(
    state: WorkspaceStates,
) -> spec_fn(WorkspaceModel) -> WorkspaceModel {
    |w: WorkspaceModel| WorkspaceModel { state, ..w }
}

/// Update: overwrite the workspace's capability set.
pub open spec fn fn_set_ws_caps(
    capabilities: WorkspaceCapabilities,
) -> spec_fn(WorkspaceModel) -> WorkspaceModel {
    |w: WorkspaceModel| WorkspaceModel { capabilities, ..w }
}

/// Update: overwrite the workspace's coordinate vector.
pub open spec fn fn_set_ws_coords(
    coordinates: Seq<u8>,
) -> spec_fn(WorkspaceModel) -> WorkspaceModel {
    |w: WorkspaceModel| WorkspaceModel { coordinates, ..w }
}

/// Update: overwrite the workspace's name.
pub open spec fn fn_set_ws_name(name: Seq<char>) -> spec_fn(WorkspaceModel) -> WorkspaceModel {
    |w: WorkspaceModel| WorkspaceModel { name: Some(name), ..w }
}

/// Update: overwrite the workspace's protocol-assigned string identity.
pub open spec fn fn_set_ws_id(id: Seq<char>) -> spec_fn(WorkspaceModel) -> WorkspaceModel {
    |w: WorkspaceModel| WorkspaceModel { id: Some(id), ..w }
}

/// Update: overwrite the workspace's tiling state.
pub open spec fn fn_set_ws_tiling(
    tiling_state: TilingState,
) -> spec_fn(WorkspaceModel) -> WorkspaceModel {
    |w: WorkspaceModel| WorkspaceModel { tiling_state: Some(tiling_state), ..w }
}

/// The freshly created group record for `handle`.
pub open spec fn new_group_model(handle: GroupHandle) -> GroupModel {
    GroupModel { handle, output: None, capabilities: GroupCapabilities { bits: 0 } }
}

/// The freshly created workspace record for `handle`, owned by `group`.
pub open spec fn new_workspace_model(
    group: Option<GroupHandle>,
    handle: WorkspaceHandle,
) -> WorkspaceModel {
    WorkspaceModel {
        handle,
        name: None,
        id: None,
        coordinates: Seq::empty(),
        state: WorkspaceStates { bits: 0 },
        group,
        tiling_state: None,
        capabilities: WorkspaceCapabilities { bits: 0 },
    }
}

/// One transactional step: how a single queued event mutates the committed
/// snapshot.  An event that references an unknown handle, or that would
/// duplicate a record, leaves the snapshot unchanged.
pub open spec fn apply_event(s: SnapshotModel, e: EventModel) -> SnapshotModel {
    match e {
        EventModel::GroupCreated { group } => {
            if has_group(s.groups, group) {
                s
            } else {
                SnapshotModel { groups: s.groups.push(new_group_model(group)), ..s }
            }
        },
        EventModel::GroupRemoved { group } => SnapshotModel {
            groups: s.groups.filter(fn_group_not(group)),
            workspaces: s.workspaces.map_values(fn_clear_ws_group(group)),
        },
        EventModel::GroupCapabilities { group, capabilities } => SnapshotModel {
            groups: update_first_group(s.groups, group, fn_set_group_caps(capabilities)),
            ..s
        },
        EventModel::OutputEnter { group, output } => SnapshotModel {
            groups: update_first_group(s.groups, group, fn_set_group_output(output)),
            ..s
        },
        EventModel::OutputLeave { group, output } => SnapshotModel {
            groups: update_first_group(s.groups, group, fn_leave_group_output(output)),
            ..s
        },
        EventModel::EnterGroup { workspace, group } => {
            if has_group(s.groups, group) {
                SnapshotModel {
                    workspaces: update_first_workspace(
                        s.workspaces,
                        workspace,
                        fn_set_ws_group(group),
                    ),
                    ..s
                }
            } else {
                s
            }
        },
        EventModel::LeaveGroup { workspace, group } => SnapshotModel {
            workspaces: update_first_workspace(
                s.workspaces,
                workspace,
                fn_clear_ws_group(group),
            ),
            ..s
        },
        EventModel::Created { group, workspace } => {
            if has_workspace(s.workspaces, workspace) {
                s
            } else if match group {
                Some(g) => !has_group(s.groups, g),
                None => false,
            } {
                s
            } else {
                SnapshotModel {
                    workspaces: s.workspaces.push(new_workspace_model(group, workspace)),
                    ..s
                }
            }
        },
        EventModel::Removed { workspace } => SnapshotModel {
            workspaces: s.workspaces.filter(fn_ws_not(workspace)),
            ..s
        },
        EventModel::StateChanged { workspace, state } => SnapshotModel {
            workspaces: update_first_workspace(s.workspaces, workspace, fn_set_ws_state(state)),
            ..s
        },
        EventModel::CapabilitiesChanged { workspace, capabilities } => SnapshotModel {
            workspaces: update_first_workspace(s.workspaces, workspace, fn_set_ws_caps(capabilities)),
            ..s
        },
        EventModel::CoordinatesChanged { workspace, coordinates } => SnapshotModel {
            workspaces: update_first_workspace(s.workspaces, workspace, fn_set_ws_coords(coordinates)),
            ..s
        },
        EventModel::NameChanged { workspace, name } => SnapshotModel {
            workspaces: update_first_workspace(s.workspaces, workspace, fn_set_ws_name(name)),
            ..s
        },
        EventModel::IdChanged { workspace, id } => SnapshotModel {
            workspaces: update_first_workspace(s.workspaces, workspace, fn_set_ws_id(id)),
            ..s
        },
        EventModel::TilingChanged { workspace, tiling_state } => SnapshotModel {
            workspaces: update_first_workspace(s.workspaces, workspace, fn_set_ws_tiling(tiling_state)),
            ..s
        },
        EventModel::Finished => s,
    }
}

/// The whole transaction: events applied in arrival order.
pub open spec fn apply_all(s: SnapshotModel, q: Seq<EventModel>) -> SnapshotModel
    decreases q.len(),
{
    if q.len() == 0 {
        s
    } else {
        apply_all(apply_event(s, q[0]), q.drop_first())
    }
}

/// Structural invariant of a committed snapshot: no group appears twice,
/// no workspace appears twice, and every workspace's group reference,
/// when present, identifies an existing group.
pub open spec fn snap_wf(s: SnapshotModel) -> bool {
    &&& forall|i: int, j: int|
        0 <= i < j < s.groups.len() ==> s.groups[i].handle != s.groups[j].handle
    &&& forall|i: int, j: int|
        0 <= i < j < s.workspaces.len() ==> s.workspaces[i].handle != s.workspaces[j].handle
    &&& forall|i: int|
        0 <= i < s.workspaces.len() ==> match (#[trigger] s.workspaces[i]).group {
            Some(g) => has_group(s.groups, g),
            None => true,
        }
}

/// Dialect invariant: every handle on record belongs to the bound dialect.
pub open spec fn snap_dialect_ok(s: SnapshotModel, protocol: Protocol) -> bool {
    &&& forall|i: int|
        0 <= i < s.groups.len() ==> (#[trigger] s.groups[i]).handle.spec_protocol() == protocol
    &&& forall|i: int|
        0 <= i < s.workspaces.len() ==> {
            &&& (#[trigger] s.workspaces[i]).handle.spec_protocol() == protocol
            &&& match s.workspaces[i].group {
                Some(g) => g.spec_protocol() == protocol,
                None => true,
            }
        }
}

/// Whether every handle an event carries belongs to the bound dialect.
pub open spec fn event_dialect_ok(e: EventModel, protocol: Protocol) -> bool {
    match e {
        EventModel::GroupCreated { group } => group.spec_protocol() == protocol,
        EventModel::GroupRemoved { group } => group.spec_protocol() == protocol,
        EventModel::GroupCapabilities { group, .. } => group.spec_protocol() == protocol,
        EventModel::OutputEnter { group, .. } => group.spec_protocol() == protocol,
        EventModel::OutputLeave { group, .. } => group.spec_protocol() == protocol,
        EventModel::EnterGroup { workspace, group } => {
            workspace.spec_protocol() == protocol && group.spec_protocol() == protocol
        },
        EventModel::LeaveGroup { workspace, group } => {
            workspace.spec_protocol() == protocol && group.spec_protocol() == protocol
        },
        EventModel::Created { group, workspace } => {
            &&& workspace.spec_protocol() == protocol
            &&& match group {
                Some(g) => g.spec_protocol() == protocol,
                None => true,
            }
        },
        EventModel::Removed { workspace } => workspace.spec_protocol() == protocol,
        EventModel::StateChanged { workspace, .. } => workspace.spec_protocol() == protocol,
        EventModel::CapabilitiesChanged { workspace, .. } => workspace.spec_protocol() == protocol,
        EventModel::CoordinatesChanged { workspace, .. } => workspace.spec_protocol() == protocol,
        EventModel::NameChanged { workspace, .. } => workspace.spec_protocol() == protocol,
        EventModel::IdChanged { workspace, .. } => workspace.spec_protocol() == protocol,
        EventModel::TilingChanged { workspace, .. } => workspace.spec_protocol() == protocol,
        EventModel::Finished => true,
    }
}

/// Whether every event of a queue is tagged with the bound dialect.
pub open spec fn queue_dialect_ok(q: Seq<EventModel>, protocol: Protocol) -> bool {
    forall|i: int| 0 <= i < q.len() ==> event_dialect_ok(#[trigger] q[i], protocol)
}

/// Every index the first-match search returns is a match, and nothing
/// before it matches; -1 means nothing matches at all.
pub proof fn lemma_first_index_where<A>(s: Seq<A>, pred: spec_fn(A) -> bool)
    ensures
        first_index_where(s, pred) >= 0 ==> {
            &&& first_index_where(s, pred) < s.len()
            &&& pred(s[first_index_where(s, pred)])
            &&& forall|j: int| 0 <= j < first_index_where(s, pred) ==> !pred(#[trigger] s[j])
        },
        first_index_where(s, pred) < 0 ==> forall|j: int|
            0 <= j < s.len() ==> !pred(#[trigger] s[j]),
    decreases s.len(),
{
    if s.len() > 0 && !pred(s[0]) {
        lemma_first_index_where(s.drop_first(), pred);
        assert forall|j: int| 1 <= j < s.len() implies s.drop_first()[j - 1] == s[j] by {}
    }
}

/// The first-match search finds a match known to be first.
pub proof fn lemma_first_index_where_found<A>(s: Seq<A>, pred: spec_fn(A) -> bool, i: int)
    requires
        0 <= i < s.len(),
        pred(s[i]),
        forall|j: int| 0 <= j < i ==> !pred(#[trigger] s[j]),
    ensures
        first_index_where(s, pred) == i,
    decreases i,
{
    if i == 0 {
    } else {
        assert(!pred(s[0]));
        lemma_first_index_where_found(s.drop_first(), pred, i - 1);
    }
}

/// Every element of a filtered sequence is an element of the original.
pub proof fn lemma_filter_elem_of<A>(s: Seq<A>, pred: spec_fn(A) -> bool, i: int)
    requires
        0 <= i < s.filter(pred).len(),
    ensures
        exists|j: int| 0 <= j < s.len() && s[j] == s.filter(pred)[i],
    decreases s.len(),
{
    reveal(Seq::filter);
    if s.len() > 0 {
        if i < s.drop_last().filter(pred).len() {
            lemma_filter_elem_of(s.drop_last(), pred, i);
            let j = choose|j: int|
                0 <= j < s.drop_last().len() && s.drop_last()[j] == s.drop_last().filter(pred)[i];
            assert(s[j] == s.filter(pred)[i]);
        } else {
            assert(s[s.len() - 1] == s.filter(pred)[i]);
        }
    }
}

/// Filtering keeps a key-distinct sequence key-distinct.
pub proof fn lemma_filter_distinct_by_key<A, K>(
    s: Seq<A>,
    pred: spec_fn(A) -> bool,
    key: spec_fn(A) -> K,
)
    requires
        forall|i: int, j: int| 0 <= i < j < s.len() ==> key(s[i]) != key(s[j]),
    ensures
        forall|i: int, j: int|
            0 <= i < j < s.filter(pred).len()
                ==> key(s.filter(pred)[i]) != key(s.filter(pred)[j]),
    decreases s.len(),
{
    reveal(Seq::filter);
    if s.len() > 0 {
        lemma_filter_distinct_by_key(s.drop_last(), pred, key);
        let f = s.filter(pred);
        let fd = s.drop_last().filter(pred);
        assert forall|i: int, j: int| 0 <= i < j < f.len() implies key(f[i]) != key(f[j]) by {
            if j < fd.len() {
            } else {
                // j names the appended last element; i stays within the
                // filtered prefix, whose elements all come from drop_last.
                lemma_filter_elem_of(s.drop_last(), pred, i);
                let m = choose|m: int|
                    0 <= m < s.drop_last().len() && s.drop_last()[m] == fd[i];
                assert(key(s[m]) != key(s[s.len() - 1]));
            }
        }
    }
}

/// Filtering after appending one element appends it when it passes.
pub proof fn lemma_filter_push<A>(s: Seq<A>, x: A, pred: spec_fn(A) -> bool)
    ensures
        s.push(x).filter(pred) == if pred(x) {
            s.filter(pred).push(x)
        } else {
            s.filter(pred)
        },
{
    reveal(Seq::filter);
    assert(s.push(x).drop_last() =~= s);
    assert(s.push(x).last() == x);
}

/// A match that survives the predicate survives the filter.
pub proof fn lemma_filter_keeps_match<A>(s: Seq<A>, pred: spec_fn(A) -> bool, i: int)
    requires
        0 <= i < s.len(),
        pred(s[i]),
    ensures
        exists|j: int| 0 <= j < s.filter(pred).len() && s.filter(pred)[j] == s[i],
    decreases s.len(),
{
    reveal(Seq::filter);
    if i == s.len() - 1 {
        assert(s.filter(pred)[s.filter(pred).len() - 1] == s[i]);
    } else {
        lemma_filter_keeps_match(s.drop_last(), pred, i);
        let j = choose|j: int|
            0 <= j < s.drop_last().filter(pred).len() && s.drop_last().filter(pred)[j] == s[i];
        assert(s.filter(pred)[j] == s[i]);
    }
}

/// Updating one group in place preserves both engine invariants: the
/// update may touch any field but the handle.
proof fn lemma_update_first_group_wf(
    s: SnapshotModel,
    handle: GroupHandle,
    f: spec_fn(GroupModel) -> GroupModel,
    protocol: Protocol,
)
    requires
        snap_wf(s),
        forall|g: GroupModel| (#[trigger] f(g)).handle == g.handle,
    ensures
        snap_wf(SnapshotModel { groups: update_first_group(s.groups, handle, f), ..s }),
        snap_dialect_ok(s, protocol) ==> snap_dialect_ok(
            SnapshotModel { groups: update_first_group(s.groups, handle, f), ..s },
            protocol,
        ),
{
    lemma_first_index_where(s.groups, fn_group_is(handle));
    let gs = update_first_group(s.groups, handle, f);
    assert(gs.len() == s.groups.len());
    assert forall|i: int| 0 <= i < gs.len() implies (#[trigger] gs[i]).handle
        == s.groups[i].handle by {}
    assert forall|i: int|
        0 <= i < s.workspaces.len() implies match (#[trigger] s.workspaces[i]).group {
        Some(g) => has_group(gs, g),
        None => true,
    } by {
        match s.workspaces[i].group {
            Some(g) => {
                if has_group(s.groups, g) {
                    let k = choose|k: int| 0 <= k < s.groups.len() && s.groups[k].handle == g;
                    assert(gs[k].handle == g);
                }
            },
            None => {},
        }
    }
}

/// Updating one workspace in place preserves both engine invariants.
/// The update may touch any field but the handle; the group reference
/// may stay, be cleared, or become `newg`, which must be on record.
proof fn lemma_update_first_workspace_wf(
    s: SnapshotModel,
    handle: WorkspaceHandle,
    f: spec_fn(WorkspaceModel) -> WorkspaceModel,
    newg: Option<GroupHandle>,
    protocol: Protocol,
)
    requires
        snap_wf(s),
        forall|w: WorkspaceModel| (#[trigger] f(w)).handle == w.handle,
        forall|w: WorkspaceModel|
            (#[trigger] f(w)).group == w.group || f(w).group is None || f(w).group == newg,
        match newg {
            Some(g) => has_group(s.groups, g),
            None => true,
        },
    ensures
        snap_wf(
            SnapshotModel { workspaces: update_first_workspace(s.workspaces, handle, f), ..s },
        ),
        snap_dialect_ok(s, protocol) && (match newg {
            Some(g) => g.spec_protocol() == protocol,
            None => true,
        }) ==> snap_dialect_ok(
            SnapshotModel { workspaces: update_first_workspace(s.workspaces, handle, f), ..s },
            protocol,
        ),
{
    lemma_first_index_where(s.workspaces, fn_ws_is(handle));
}

/// One event preserves both engine invariants.
pub proof fn lemma_apply_event_wf(s: SnapshotModel, e: EventModel, protocol: Protocol)
    ensures
        snap_wf(s) ==> snap_wf(apply_event(s, e)),
        snap_wf(s) && snap_dialect_ok(s, protocol) && event_dialect_ok(e, protocol)
            ==> snap_dialect_ok(apply_event(s, e), protocol),
{
    if !snap_wf(s) {
        // nothing to show of an ill-formed start
    } else {
    let t = apply_event(s, e);
    match e {
        EventModel::GroupCreated { group } => {
            if !has_group(s.groups, group) {
                assert forall|i: int|
                    0 <= i < t.workspaces.len() implies match (#[trigger] t.workspaces[i]).group {
                    Some(g) => has_group(t.groups, g),
                    None => true,
                } by {
                    match t.workspaces[i].group {
                        Some(g) => {
                            let k = choose|k: int|
                                0 <= k < s.groups.len() && s.groups[k].handle == g;
                            assert(t.groups[k].handle == g);
                        },
                        None => {},
                    }
                }
            }
        },
        EventModel::GroupRemoved { group } => {
            let keep = fn_group_not(group);
            lemma_filter_distinct_by_key(s.groups, keep, |g: GroupModel| g.handle);
            assert forall|i: int|
                0 <= i < t.workspaces.len() implies match (#[trigger] t.workspaces[i]).group {
                Some(g) => has_group(t.groups, g),
                None => true,
            } by {
                match t.workspaces[i].group {
                    Some(g) => {
                        assert(s.workspaces[i].group == Some(g));
                        let k = choose|k: int| 0 <= k < s.groups.len() && s.groups[k].handle == g;
                        lemma_filter_keeps_match(s.groups, keep, k);
                    },
                    None => {},
                }
            }
            if snap_dialect_ok(s, protocol) {
                assert forall|i: int|
                    0 <= i < t.groups.len() implies (#[trigger] t.groups[i]).handle.spec_protocol()
                    == protocol by {
                    lemma_filter_elem_of(s.groups, keep, i);
                }
            }
        },
        EventModel::GroupCapabilities { group, capabilities } => {
            lemma_update_first_group_wf(s, group, fn_set_group_caps(capabilities), protocol);
        },
        EventModel::OutputEnter { group, output } => {
            lemma_update_first_group_wf(s, group, fn_set_group_output(output), protocol);
        },
        EventModel::OutputLeave { group, output } => {
            lemma_update_first_group_wf(s, group, fn_leave_group_output(output), protocol);
        },
        EventModel::EnterGroup { workspace, group } => {
            if has_group(s.groups, group) {
                lemma_update_first_workspace_wf(
                    s,
                    workspace,
                    fn_set_ws_group(group),
                    Some(group),
                    protocol,
                );
            }
        },
        EventModel::LeaveGroup { workspace, group } => {
            lemma_update_first_workspace_wf(s, workspace, fn_clear_ws_group(group), None, protocol);
        },
        EventModel::Created { group, workspace } => {
            let dangling = match group {
                Some(g) => !has_group(s.groups, g),
                None => false,
            };
            if !has_workspace(s.workspaces, workspace) && !dangling {
                assert forall|i: int, j: int|
                    0 <= i < j < t.workspaces.len() implies t.workspaces[i].handle
                    != t.workspaces[j].handle by {
                    if j == t.workspaces.len() - 1 {
                        assert(t.workspaces[i] == s.workspaces[i]);
                    }
                }
                assert forall|i: int|
                    0 <= i < t.workspaces.len() implies match (#[trigger] t.workspaces[i]).group {
                    Some(g) => has_group(t.groups, g),
                    None => true,
                } by {
                    if i < s.workspaces.len() {
                        assert(t.workspaces[i] == s.workspaces[i]);
                    }
                }
            }
        },
        EventModel::Removed { workspace } => {
            let keep = fn_ws_not(workspace);
            lemma_filter_distinct_by_key(s.workspaces, keep, |w: WorkspaceModel| w.handle);
            assert forall|i: int|
                0 <= i < t.workspaces.len() implies match (#[trigger] t.workspaces[i]).group {
                Some(g) => has_group(t.groups, g),
                None => true,
            } by {
                lemma_filter_elem_of(s.workspaces, keep, i);
            }
            if snap_dialect_ok(s, protocol) {
                assert forall|i: int| 0 <= i < t.workspaces.len() implies {
                    &&& (#[trigger] t.workspaces[i]).handle.spec_protocol() == protocol
                    &&& match t.workspaces[i].group {
                        Some(g) => g.spec_protocol() == protocol,
                        None => true,
                    }
                } by {
                    lemma_filter_elem_of(s.workspaces, keep, i);
                }
            }
        },
        EventModel::StateChanged { workspace, state } => {
            lemma_update_first_workspace_wf(s, workspace, fn_set_ws_state(state), None, protocol);
        },
        EventModel::CapabilitiesChanged { workspace, capabilities } => {
            lemma_update_first_workspace_wf(s, workspace, fn_set_ws_caps(capabilities), None, protocol);
        },
        EventModel::CoordinatesChanged { workspace, coordinates } => {
            lemma_update_first_workspace_wf(s, workspace, fn_set_ws_coords(coordinates), None, protocol);
        },
        EventModel::NameChanged { workspace, name } => {
            lemma_update_first_workspace_wf(s, workspace, fn_set_ws_name(name), None, protocol);
        },
        EventModel::IdChanged { workspace, id } => {
            lemma_update_first_workspace_wf(s, workspace, fn_set_ws_id(id), None, protocol);
        },
        EventModel::TilingChanged { workspace, tiling_state } => {
            lemma_update_first_workspace_wf(s, workspace, fn_set_ws_tiling(tiling_state), None, protocol);
        },
        EventModel::Finished => {},
    }
    }
}

/// A whole transaction preserves both engine invariants.
pub proof fn lemma_apply_all_wf(s: SnapshotModel, q: Seq<EventModel>, protocol: Protocol)
    ensures
        snap_wf(s) ==> snap_wf(apply_all(s, q)),
        snap_wf(s) && snap_dialect_ok(s, protocol) && queue_dialect_ok(q, protocol)
            ==> snap_dialect_ok(apply_all(s, q), protocol),
    decreases q.len(),
{
    if q.len() > 0 {
        lemma_apply_event_wf(s, q[0], protocol);
        lemma_apply_all_wf(apply_event(s, q[0]), q.drop_first(), protocol);
        assert(queue_dialect_ok(q, protocol) ==> queue_dialect_ok(q.drop_first(), protocol)) by {
            if queue_dialect_ok(q, protocol) {
                assert forall|i: int|
                    0 <= i < q.drop_first().len() implies event_dialect_ok(
                    #[trigger] q.drop_first()[i],
                    protocol,
                ) by {
                    assert(q.drop_first()[i] == q[i + 1]);
                }
            }
        }
    }
}

/// Law: every committed snapshot resolves its group references.  In any
/// snapshot reached by transactions from a well-formed one, a
/// workspace's group reference, when present, names a group on record.
pub proof fn lemma_group_references_resolve(s: SnapshotModel, q: Seq<EventModel>)
    requires
        snap_wf(s),
    ensures
        forall|i: int|
            0 <= i < apply_all(s, q).workspaces.len() ==> match (#[trigger] apply_all(
                s,
                q,
            ).workspaces[i]).group {
                Some(g) => has_group(apply_all(s, q).groups, g),
                None => true,
            },
{
    lemma_apply_all_wf(s, q, Protocol::ExtV0);
}

/// Law: no workspace or group appears twice.  In any snapshot reached
/// by transactions from a well-formed one, group handles are pairwise
/// distinct and so are workspace handles.
pub proof fn lemma_no_duplicate_records(s: SnapshotModel, q: Seq<EventModel>)
    requires
        snap_wf(s),
    ensures
        forall|i: int, j: int|
            0 <= i < j < apply_all(s, q).groups.len() ==> (#[trigger] apply_all(
                s,
                q,
            ).groups[i]).handle != (#[trigger] apply_all(s, q).groups[j]).handle,
        forall|i: int, j: int|
            0 <= i < j < apply_all(s, q).workspaces.len() ==> (#[trigger] apply_all(
                s,
                q,
            ).workspaces[i]).handle != (#[trigger] apply_all(s, q).workspaces[j]).handle,
{
    lemma_apply_all_wf(s, q, Protocol::ExtV0);
}

/// Appending one event to a transaction applies it after the rest.
pub proof fn lemma_apply_all_push(s: SnapshotModel, q: Seq<EventModel>, e: EventModel)
    ensures
        apply_all(s, q.push(e)) == apply_event(apply_all(s, q), e),
    decreases q.len(),
{
    reveal_with_fuel(apply_all, 3);
    if q.len() == 0 {
        assert(q.push(e).drop_first() =~= Seq::<EventModel>::empty());
        assert(q.push(e)[0] == e);
    } else {
        assert(q.push(e).drop_first() =~= q.drop_first().push(e));
        assert(q.push(e)[0] == q[0]);
        lemma_apply_all_push(apply_event(s, q[0]), q.drop_first(), e);
    }
}

} // verus!
