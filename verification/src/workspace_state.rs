//! The workspace state engine.
//!
//! The engine owns the groups, the workspaces, the bound manager handle
//! and the pending event queue.  Dispatchers enqueue protocol-neutral
//! events; nothing else mutates the committed snapshot.  When the bound
//! dialect signals the end of a transaction, [`WorkspaceState::handle_events`]
//! drains the queue in arrival order and applies every event atomically,
//! so observers never read a partial snapshot.

use vstd::prelude::*;

use crate::model::{
    apply_all, apply_event, event_dialect_ok, first_index_where, fn_clear_ws_group, fn_group_is,
    fn_group_not, fn_leave_group_output, fn_set_group_caps, fn_set_group_output, fn_set_ws_caps,
    fn_set_ws_coords, fn_set_ws_group, fn_set_ws_id, fn_set_ws_name, fn_set_ws_state,
    fn_set_ws_tiling, fn_ws_is, fn_ws_not, has_group, has_workspace, lemma_apply_all_push,
    lemma_apply_all_wf, lemma_filter_push, lemma_first_index_where,
    lemma_first_index_where_found, new_group_model, new_workspace_model, queue_dialect_ok,
    snap_dialect_ok, snap_wf, update_first_group, update_first_workspace, EventModel, GroupModel,
    SnapshotModel, WorkspaceModel,
};
use crate::output::OutputRef;
use crate::protocol::{
    GroupCapabilities, GroupHandle, ManagerHandle, Protocol, Request, RequestError, TilingState,
    WorkspaceCapabilities, WorkspaceHandle, WorkspaceStates,
};

verus! {

/// One workspace group record.
#[derive(Debug)]
pub struct WorkspaceGroup {
    pub output: Option<OutputRef>,
    pub handle: GroupHandle,
    pub capabilities: GroupCapabilities,
}

impl View for WorkspaceGroup {
    type V = GroupModel;

    open spec fn view(&self) -> GroupModel {
        GroupModel {
            handle: self.handle,
            output: match self.output {
                Some(o) => Some(o@),
                None => None,
            },
            capabilities: self.capabilities,
        }
    }
}

/// One workspace record.
#[derive(Debug)]
pub struct Workspace {
    pub handle: WorkspaceHandle,
    pub name: Option<String>,
    pub id: Option<String>,
    pub coordinates: Vec<u8>,
    pub state: WorkspaceStates,
    pub group: Option<GroupHandle>,
    pub tiling_state: Option<TilingState>,
    pub capabilities: WorkspaceCapabilities,
}

impl View for Workspace {
    type V = WorkspaceModel;

    open spec fn view(&self) -> WorkspaceModel {
        WorkspaceModel {
            handle: self.handle,
            name: match self.name {
                Some(n) => Some(n@),
                None => None,
            },
            id: match self.id {
                Some(i) => Some(i@),
                None => None,
            },
            coordinates: self.coordinates@,
            state: self.state,
            group: self.group,
            tiling_state: self.tiling_state,
            capabilities: self.capabilities,
        }
    }
}

/// The protocol-neutral event alphabet.  Per-dialect dispatchers translate
/// raw protocol events into these values and enqueue them on the engine.
#[derive(Debug)]
pub enum WorkspaceEvent {
    WorkspaceGroupCreated(GroupHandle),
    WorkspaceGroupRemoved(GroupHandle),
    WorkspaceGroupCapabilities(GroupHandle, GroupCapabilities),
    OutputEnter(GroupHandle, OutputRef),
    OutputLeave(GroupHandle, OutputRef),
    WorkspaceEnter(WorkspaceHandle, GroupHandle),
    WorkspaceLeave(WorkspaceHandle, GroupHandle),
    WorkspaceCreated(Option<GroupHandle>, WorkspaceHandle),
    WorkspaceRemoved(WorkspaceHandle),
    WorkspaceState(WorkspaceHandle, WorkspaceStates),
    WorkspaceCapabilities(WorkspaceHandle, WorkspaceCapabilities),
    WorkspaceCoord(WorkspaceHandle, Vec<u8>),
    WorkspaceName(WorkspaceHandle, String),
    WorkspaceId(WorkspaceHandle, String),
    WorkspaceTilingState(WorkspaceHandle, TilingState),
    ManagerFinished,
}

impl View for WorkspaceEvent {
    type V = EventModel;

    open spec fn view(&self) -> EventModel {
        match *self {
            WorkspaceEvent::WorkspaceGroupCreated(g) => EventModel::GroupCreated { group: g },
            WorkspaceEvent::WorkspaceGroupRemoved(g) => EventModel::GroupRemoved { group: g },
            WorkspaceEvent::WorkspaceGroupCapabilities(g, c) => EventModel::GroupCapabilities {
                group: g,
                capabilities: c,
            },
            WorkspaceEvent::OutputEnter(g, ref o) => EventModel::OutputEnter {
                group: g,
                output: o@,
            },
            WorkspaceEvent::OutputLeave(g, ref o) => EventModel::OutputLeave {
                group: g,
                output: o@,
            },
            WorkspaceEvent::WorkspaceEnter(w, g) => EventModel::EnterGroup {
                workspace: w,
                group: g,
            },
            WorkspaceEvent::WorkspaceLeave(w, g) => EventModel::LeaveGroup {
                workspace: w,
                group: g,
            },
            WorkspaceEvent::WorkspaceCreated(g, w) => EventModel::Created {
                group: g,
                workspace: w,
            },
            WorkspaceEvent::WorkspaceRemoved(w) => EventModel::Removed { workspace: w },
            WorkspaceEvent::WorkspaceState(w, s) => EventModel::StateChanged {
                workspace: w,
                state: s,
            },
            WorkspaceEvent::WorkspaceCapabilities(w, c) => EventModel::CapabilitiesChanged {
                workspace: w,
                capabilities: c,
            },
            WorkspaceEvent::WorkspaceCoord(w, ref c) => EventModel::CoordinatesChanged {
                workspace: w,
                coordinates: c@,
            },
            WorkspaceEvent::WorkspaceName(w, ref n) => EventModel::NameChanged {
                workspace: w,
                name: n@,
            },
            WorkspaceEvent::WorkspaceId(w, ref i) => EventModel::IdChanged { workspace: w, id: i@ },
            WorkspaceEvent::WorkspaceTilingState(w, t) => EventModel::TilingChanged {
                workspace: w,
                tiling_state: t,
            },
            WorkspaceEvent::ManagerFinished => EventModel::Finished,
        }
    }
}

/// The ghost images of a group vector, in order.
pub open spec fn groups_view(v: Vec<WorkspaceGroup>) -> Seq<GroupModel> {
    v@.map_values(|g: WorkspaceGroup| g@)
}

/// The ghost images of a workspace vector, in order.
pub open spec fn workspaces_view(v: Vec<Workspace>) -> Seq<WorkspaceModel> {
    v@.map_values(|w: Workspace| w@)
}

/// The engine state: committed snapshot, bound manager, pending queue.
pub struct WorkspaceState {
    pub groups: Vec<WorkspaceGroup>,
    pub workspaces: Vec<Workspace>,
    pub manager: ManagerHandle,
    pub events: Vec<WorkspaceEvent>,
    pub protocol: Protocol,
}

impl WorkspaceState {
    /// The committed snapshot observers read.
    pub open spec fn snapshot(&self) -> SnapshotModel {
        SnapshotModel {
            groups: groups_view(self.groups),
            workspaces: workspaces_view(self.workspaces),
        }
    }

    /// The queued events of the open transaction, in arrival order.
    pub open spec fn pending(&self) -> Seq<EventModel> {
        self.events@.map_values(|e: WorkspaceEvent| e@)
    }

    /// Engine invariant: the snapshot is structurally sound and every
    /// handle on record, queued or bound belongs to the bound dialect.
    pub open spec fn wf(&self) -> bool {
        &&& snap_wf(self.snapshot())
        &&& snap_dialect_ok(self.snapshot(), self.protocol)
        &&& queue_dialect_ok(self.pending(), self.protocol)
        &&& self.manager.spec_protocol() == self.protocol
    }

    /// A fresh engine bound to one dialect: no records, no queued events.
    pub fn new(protocol: Protocol, manager: ManagerHandle) -> (r: Self)
        requires
            manager.spec_protocol() == protocol,
        ensures
            r.protocol == protocol,
            r.manager == manager,
            r.snapshot().groups.len() == 0,
            r.snapshot().workspaces.len() == 0,
            r.pending().len() == 0,
            r.wf(),
    {
        let r = WorkspaceState {
            groups: Vec::new(),
            workspaces: Vec::new(),
            manager,
            events: Vec::new(),
            protocol,
        };
        proof {
            assert(r.snapshot().groups =~= Seq::<GroupModel>::empty());
            assert(r.snapshot().workspaces =~= Seq::<WorkspaceModel>::empty());
            assert(r.pending() =~= Seq::<EventModel>::empty());
        }
        r
    }

    /// The request that flushes the accumulated request set as one
    /// operator intent.
    pub fn commit(&self) -> (r: Request)
        ensures
            r == Request::Commit(self.manager),
    {
        Request::Commit(self.manager)
    }

    /// Buffer one event for the open transaction.  The committed snapshot
    /// is untouched: observers between two transactions read the same
    /// state however many events have arrived.
    pub fn push_event(&mut self, event: WorkspaceEvent)
        ensures
            final(self).snapshot() == old(self).snapshot(),
            final(self).manager == old(self).manager,
            final(self).protocol == old(self).protocol,
            final(self).pending() == old(self).pending().push(event@),
            old(self).wf() && event_dialect_ok(event@, old(self).protocol) ==> final(self).wf(),
    {
        let ghost ev = event@;
        self.events.push(event);
        proof {
            assert(self.pending() =~= old(self).pending().push(ev));
            if old(self).wf() && event_dialect_ok(ev, old(self).protocol) {
                assert forall|i: int|
                    0 <= i < self.pending().len() implies event_dialect_ok(
                    #[trigger] self.pending()[i],
                    self.protocol,
                ) by {
                    if i < old(self).pending().len() {
                        assert(self.pending()[i] == old(self).pending()[i]);
                    }
                }
            }
        }
    }
}

/// First index of the group with this handle, if any.
fn find_group_index(groups: &Vec<WorkspaceGroup>, handle: GroupHandle) -> (r: Option<usize>)
    ensures
        match r {
            Some(i) => {
                &&& (i as int) < groups_view(*groups).len()
                &&& groups_view(*groups)[i as int].handle == handle
                &&& first_index_where(groups_view(*groups), fn_group_is(handle)) == i as int
            },
            None => {
                &&& first_index_where(groups_view(*groups), fn_group_is(handle)) == -1
                &&& !has_group(groups_view(*groups), handle)
            },
        },
{
    let n = groups.len();
    let mut i: usize = 0;
    while i < n
        invariant
            n == groups.len(),
            i <= n,
            forall|j: int| 0 <= j < i ==> groups_view(*groups)[j].handle != handle,
        decreases n - i,
    {
        if groups[i].handle == handle {
            proof {
                lemma_first_index_where_found(
                    groups_view(*groups),
                    fn_group_is(handle),
                    i as int,
                );
            }
            return Some(i);
        }
        i += 1;
    }
    proof {
        lemma_first_index_where(groups_view(*groups), fn_group_is(handle));
        assert(!has_group(groups_view(*groups), handle)) by {
            if has_group(groups_view(*groups), handle) {
                let k = choose|k: int|
                    0 <= k < groups_view(*groups).len() && groups_view(*groups)[k].handle
                        == handle;
                assert(groups_view(*groups)[k].handle != handle);
            }
        }
    }
    None
}

/// First index of the workspace with this handle, if any.
fn find_workspace_index(workspaces: &Vec<Workspace>, handle: WorkspaceHandle) -> (r: Option<
    usize,
>)
    ensures
        match r {
            Some(i) => {
                &&& (i as int) < workspaces_view(*workspaces).len()
                &&& workspaces_view(*workspaces)[i as int].handle == handle
                &&& first_index_where(workspaces_view(*workspaces), fn_ws_is(handle)) == i as int
            },
            None => {
                &&& first_index_where(workspaces_view(*workspaces), fn_ws_is(handle)) == -1
                &&& !has_workspace(workspaces_view(*workspaces), handle)
            },
        },
{
    let n = workspaces.len();
    let mut i: usize = 0;
    while i < n
        invariant
            n == workspaces.len(),
            i <= n,
            forall|j: int| 0 <= j < i ==> workspaces_view(*workspaces)[j].handle != handle,
        decreases n - i,
    {
        if workspaces[i].handle == handle {
            proof {
                lemma_first_index_where_found(
                    workspaces_view(*workspaces),
                    fn_ws_is(handle),
                    i as int,
                );
            }
            return Some(i);
        }
        i += 1;
    }
    proof {
        lemma_first_index_where(workspaces_view(*workspaces), fn_ws_is(handle));
        assert(!has_workspace(workspaces_view(*workspaces), handle)) by {
            if has_workspace(workspaces_view(*workspaces), handle) {
                let k = choose|k: int|
                    0 <= k < workspaces_view(*workspaces).len() && workspaces_view(
                        *workspaces,
                    )[k].handle == handle;
                assert(workspaces_view(*workspaces)[k].handle != handle);
            }
        }
    }
    None
}

/// Drop every group whose handle matches.
fn remove_groups_with_handle(groups: &mut Vec<WorkspaceGroup>, handle: GroupHandle)
    ensures
        groups_view(*final(groups)) == groups_view(*old(groups)).filter(fn_group_not(handle)),
{
    let ghost orig = groups_view(*groups);
    let mut kept: Vec<WorkspaceGroup> = Vec::new();
    let ghost mut done: int = 0;
    proof {
        assert(orig.take(0).filter(fn_group_not(handle)) =~= Seq::<GroupModel>::empty());
        assert(groups_view(kept) =~= Seq::<GroupModel>::empty());
        assert(groups_view(*groups) =~= orig.skip(0));
    }
    while groups.len() > 0
        invariant
            0 <= done <= orig.len(),
            orig == groups_view(*old(groups)),
            done + groups@.len() == orig.len(),
            groups_view(*groups) == orig.skip(done),
            groups_view(kept) == orig.take(done).filter(fn_group_not(handle)),
        decreases groups@.len(),
    {
        let ghost vec_before = groups@;
        let ghost view_before = groups_view(*groups);
        let g = groups.remove(0);
        proof {
            assert(view_before[0] == g@);
            assert(orig.skip(done)[0] == g@);
            assert(orig.take(done + 1) =~= orig.take(done).push(orig[done]));
            lemma_filter_push(orig.take(done), orig[done], fn_group_not(handle));
        }
        if g.handle != handle {
            kept.push(g);
            proof {
                assert(groups_view(kept) =~= orig.take(done + 1).filter(fn_group_not(handle)));
            }
        } else {
            proof {
                assert(groups_view(kept) =~= orig.take(done + 1).filter(fn_group_not(handle)));
            }
        }
        proof {
            done = done + 1;
            assert forall|k: int| 0 <= k < groups@.len() implies groups_view(*groups)[k]
                == orig.skip(done)[k] by {
                assert(groups@[k] == vec_before[k + 1]);
                assert(view_before[k + 1] == vec_before[k + 1]@);
                assert(view_before[k + 1] == orig.skip(done - 1)[k + 1]);
            }
            assert(groups_view(*groups) =~= orig.skip(done));
        }
    }
    proof {
        assert(orig.take(done) =~= orig);
    }
    *groups = kept;
}

/// Drop every workspace whose handle matches.
fn remove_workspaces_with_handle(workspaces: &mut Vec<Workspace>, handle: WorkspaceHandle)
    ensures
        workspaces_view(*final(workspaces)) == workspaces_view(*old(workspaces)).filter(
            fn_ws_not(handle),
        ),
{
    let ghost orig = workspaces_view(*workspaces);
    let mut kept: Vec<Workspace> = Vec::new();
    let ghost mut done: int = 0;
    proof {
        assert(orig.take(0).filter(fn_ws_not(handle)) =~= Seq::<WorkspaceModel>::empty());
        assert(workspaces_view(kept) =~= Seq::<WorkspaceModel>::empty());
        assert(workspaces_view(*workspaces) =~= orig.skip(0));
    }
    while workspaces.len() > 0
        invariant
            0 <= done <= orig.len(),
            orig == workspaces_view(*old(workspaces)),
            done + workspaces@.len() == orig.len(),
            workspaces_view(*workspaces) == orig.skip(done),
            workspaces_view(kept) == orig.take(done).filter(fn_ws_not(handle)),
        decreases workspaces@.len(),
    {
        let ghost vec_before = workspaces@;
        let ghost view_before = workspaces_view(*workspaces);
        let w = workspaces.remove(0);
        proof {
            assert(view_before[0] == w@);
            assert(orig.skip(done)[0] == w@);
            assert(orig.take(done + 1) =~= orig.take(done).push(orig[done]));
            lemma_filter_push(orig.take(done), orig[done], fn_ws_not(handle));
        }
        if w.handle != handle {
            kept.push(w);
            proof {
                assert(workspaces_view(kept) =~= orig.take(done + 1).filter(fn_ws_not(handle)));
            }
        } else {
            proof {
                assert(workspaces_view(kept) =~= orig.take(done + 1).filter(fn_ws_not(handle)));
            }
        }
        proof {
            done = done + 1;
            assert forall|k: int| 0 <= k < workspaces@.len() implies workspaces_view(
                *workspaces,
            )[k] == orig.skip(done)[k] by {
                assert(workspaces@[k] == vec_before[k + 1]);
                assert(view_before[k + 1] == vec_before[k + 1]@);
                assert(view_before[k + 1] == orig.skip(done - 1)[k + 1]);
            }
            assert(workspaces_view(*workspaces) =~= orig.skip(done));
        }
    }
    proof {
        assert(orig.take(done) =~= orig);
    }
    *workspaces = kept;
}

/// Clear the group reference of every workspace that pointed at the
/// removed group.
fn clear_group_refs(workspaces: &mut Vec<Workspace>, handle: GroupHandle)
    ensures
        workspaces_view(*final(workspaces)) == workspaces_view(*old(workspaces)).map_values(
            fn_clear_ws_group(handle),
        ),
{
    let ghost orig = workspaces_view(*workspaces);
    let n = workspaces.len();
    let mut i: usize = 0;
    while i < n
        invariant
            n == workspaces.len(),
            i <= n,
            orig == workspaces_view(*old(workspaces)),
            orig.len() == n,
            forall|j: int| i <= j < n ==> workspaces_view(*workspaces)[j] == orig[j],
            forall|j: int|
                0 <= j < i ==> workspaces_view(*workspaces)[j] == fn_clear_ws_group(handle)(
                    orig[j],
                ),
        decreases n - i,
    {
        let ghost vec_before = workspaces@;
        let ghost view_before = workspaces_view(*workspaces);
        let clear = match workspaces[i].group {
            Some(g) => g == handle,
            None => false,
        };
        if clear {
            let w = &mut workspaces[i];
            w.group = None;
        }
        proof {
            assert forall|j: int|
                0 <= j < i + 1 implies workspaces_view(*workspaces)[j] == fn_clear_ws_group(
                handle,
            )(orig[j]) by {
                if j < i {
                    assert(workspaces@[j] == vec_before[j]);
                    assert(view_before[j] == fn_clear_ws_group(handle)(orig[j]));
                } else {
                    assert(workspaces_view(*workspaces)[i as int] == fn_clear_ws_group(handle)(
                        orig[i as int],
                    ));
                }
            }
            assert forall|j: int|
                i + 1 <= j < n implies workspaces_view(*workspaces)[j] == orig[j] by {
                assert(workspaces@[j] == vec_before[j]);
                assert(view_before[j] == orig[j]);
            }
        }
        i += 1;
    }
    proof {
        assert(workspaces_view(*workspaces) =~= orig.map_values(fn_clear_ws_group(handle)));
    }
}

impl WorkspaceState {
    /// Apply one queued event to the committed snapshot, exactly as the
    /// ghost step function says.
    fn apply_one(&mut self, event: WorkspaceEvent)
        ensures
            final(self).snapshot() == apply_event(old(self).snapshot(), event@),
            final(self).events == old(self).events,
            final(self).manager == old(self).manager,
            final(self).protocol == old(self).protocol,
    {
        let ghost pre = self.snapshot();
        let ghost ev = event@;
        match event {
            WorkspaceEvent::WorkspaceGroupCreated(h) => {
                match find_group_index(&self.groups, h) {
                    Some(_) => {
                        proof {
                            assert(self.snapshot() =~= apply_event(pre, ev));
                        }
                    },
                    None => {
                        self.groups.push(
                            WorkspaceGroup {
                                handle: h,
                                output: None,
                                capabilities: GroupCapabilities::empty(),
                            },
                        );
                        proof {
                            assert(groups_view(self.groups) =~= pre.groups.push(
                                new_group_model(h),
                            ));
                            assert(self.snapshot() =~= apply_event(pre, ev));
                        }
                    },
                }
            },
            WorkspaceEvent::WorkspaceGroupRemoved(h) => {
                remove_groups_with_handle(&mut self.groups, h);
                clear_group_refs(&mut self.workspaces, h);
                proof {
                    assert(self.snapshot() =~= apply_event(pre, ev));
                }
            },
            WorkspaceEvent::WorkspaceGroupCapabilities(h, caps) => {
                match find_group_index(&self.groups, h) {
                    Some(i) => {
                        let g = &mut self.groups[i];
                        g.capabilities = caps;
                        proof {
                            assert(groups_view(self.groups) =~= update_first_group(
                                pre.groups,
                                h,
                                fn_set_group_caps(caps),
                            ));
                            assert(self.snapshot() =~= apply_event(pre, ev));
                        }
                    },
                    None => {
                        proof {
                            assert(self.snapshot() =~= apply_event(pre, ev));
                        }
                    },
                }
            },
            WorkspaceEvent::OutputEnter(h, o) => {
                let ghost ov = o@;
                match find_group_index(&self.groups, h) {
                    Some(i) => {
                        let g = &mut self.groups[i];
                        g.output = Some(o);
                        proof {
                            assert(groups_view(self.groups) =~= update_first_group(
                                pre.groups,
                                h,
                                fn_set_group_output(ov),
                            ));
                            assert(self.snapshot() =~= apply_event(pre, ev));
                        }
                    },
                    None => {
                        proof {
                            assert(self.snapshot() =~= apply_event(pre, ev));
                        }
                    },
                }
            },
            WorkspaceEvent::OutputLeave(h, o) => {
                let ghost ov = o@;
                match find_group_index(&self.groups, h) {
                    Some(i) => {
                        let same = match &self.groups[i].output {
                            Some(cur) => cur.protocol_id == o.protocol_id,
                            None => false,
                        };
                        if same {
                            let g = &mut self.groups[i];
                            g.output = None;
                        }
                        proof {
                            assert(groups_view(self.groups) =~= update_first_group(
                                pre.groups,
                                h,
                                fn_leave_group_output(ov),
                            ));
                            assert(self.snapshot() =~= apply_event(pre, ev));
                        }
                    },
                    None => {
                        proof {
                            assert(self.snapshot() =~= apply_event(pre, ev));
                        }
                    },
                }
            },
            WorkspaceEvent::WorkspaceEnter(wh, gh) => {
                match find_group_index(&self.groups, gh) {
                    Some(_) => {
                        match find_workspace_index(&self.workspaces, wh) {
                            Some(i) => {
                                let w = &mut self.workspaces[i];
                                w.group = Some(gh);
                                proof {
                                    assert(workspaces_view(self.workspaces)
                                        =~= update_first_workspace(
                                        pre.workspaces,
                                        wh,
                                        fn_set_ws_group(gh),
                                    ));
                                    assert(self.snapshot() =~= apply_event(pre, ev));
                                }
                            },
                            None => {
                                proof {
                                    assert(self.snapshot() =~= apply_event(pre, ev));
                                }
                            },
                        }
                    },
                    None => {
                        proof {
                            assert(self.snapshot() =~= apply_event(pre, ev));
                        }
                    },
                }
            },
            WorkspaceEvent::WorkspaceLeave(wh, gh) => {
                match find_workspace_index(&self.workspaces, wh) {
                    Some(i) => {
                        let same = match workspaces_group_at(&self.workspaces, i) {
                            Some(g) => g == gh,
                            None => false,
                        };
                        if same {
                            let w = &mut self.workspaces[i];
                            w.group = None;
                        }
                        proof {
                            assert(workspaces_view(self.workspaces) =~= update_first_workspace(
                                pre.workspaces,
                                wh,
                                fn_clear_ws_group(gh),
                            ));
                            assert(self.snapshot() =~= apply_event(pre, ev));
                        }
                    },
                    None => {
                        proof {
                            assert(self.snapshot() =~= apply_event(pre, ev));
                        }
                    },
                }
            },
            WorkspaceEvent::WorkspaceCreated(gopt, wh) => {
                match find_workspace_index(&self.workspaces, wh) {
                    Some(_) => {
                        proof {
                            assert(self.snapshot() =~= apply_event(pre, ev));
                        }
                    },
                    None => {
                        let group_ok = match &gopt {
                            Some(g) => match find_group_index(&self.groups, *g) {
                                Some(_) => true,
                                None => false,
                            },
                            None => true,
                        };
                        if group_ok {
                            self.workspaces.push(
                                Workspace {
                                    handle: wh,
                                    name: None,
                                    id: None,
                                    coordinates: Vec::new(),
                                    state: WorkspaceStates::empty(),
                                    group: gopt,
                                    tiling_state: None,
                                    capabilities: WorkspaceCapabilities::empty(),
                                },
                            );
                            proof {
                                assert(workspaces_view(self.workspaces) =~= pre.workspaces.push(
                                    new_workspace_model(gopt, wh),
                                ));
                                assert(self.snapshot() =~= apply_event(pre, ev));
                            }
                        } else {
                            proof {
                                assert(self.snapshot() =~= apply_event(pre, ev));
                            }
                        }
                    },
                }
            },
            WorkspaceEvent::WorkspaceRemoved(wh) => {
                remove_workspaces_with_handle(&mut self.workspaces, wh);
                proof {
                    assert(self.snapshot() =~= apply_event(pre, ev));
                }
            },
            WorkspaceEvent::WorkspaceState(wh, st) => {
                match find_workspace_index(&self.workspaces, wh) {
                    Some(i) => {
                        let w = &mut self.workspaces[i];
                        w.state = st;
                        proof {
                            assert(workspaces_view(self.workspaces) =~= update_first_workspace(
                                pre.workspaces,
                                wh,
                                fn_set_ws_state(st),
                            ));
                            assert(self.snapshot() =~= apply_event(pre, ev));
                        }
                    },
                    None => {
                        proof {
                            assert(self.snapshot() =~= apply_event(pre, ev));
                        }
                    },
                }
            },
            WorkspaceEvent::WorkspaceCapabilities(wh, caps) => {
                match find_workspace_index(&self.workspaces, wh) {
                    Some(i) => {
                        let w = &mut self.workspaces[i];
                        w.capabilities = caps;
                        proof {
                            assert(workspaces_view(self.workspaces) =~= update_first_workspace(
                                pre.workspaces,
                                wh,
                                fn_set_ws_caps(caps),
                            ));
                            assert(self.snapshot() =~= apply_event(pre, ev));
                        }
                    },
                    None => {
                        proof {
                            assert(self.snapshot() =~= apply_event(pre, ev));
                        }
                    },
                }
            },
            WorkspaceEvent::WorkspaceCoord(wh, coords) => {
                let ghost cv = coords@;
                match find_workspace_index(&self.workspaces, wh) {
                    Some(i) => {
                        let w = &mut self.workspaces[i];
                        w.coordinates = coords;
                        proof {
                            assert(workspaces_view(self.workspaces) =~= update_first_workspace(
                                pre.workspaces,
                                wh,
                                fn_set_ws_coords(cv),
                            ));
                            assert(self.snapshot() =~= apply_event(pre, ev));
                        }
                    },
                    None => {
                        proof {
                            assert(self.snapshot() =~= apply_event(pre, ev));
                        }
                    },
                }
            },
            WorkspaceEvent::WorkspaceName(wh, name) => {
                let ghost nv = name@;
                match find_workspace_index(&self.workspaces, wh) {
                    Some(i) => {
                        let w = &mut self.workspaces[i];
                        w.name = Some(name);
                        proof {
                            assert(workspaces_view(self.workspaces) =~= update_first_workspace(
                                pre.workspaces,
                                wh,
                                fn_set_ws_name(nv),
                            ));
                            assert(self.snapshot() =~= apply_event(pre, ev));
                        }
                    },
                    None => {
                        proof {
                            assert(self.snapshot() =~= apply_event(pre, ev));
                        }
                    },
                }
            },
            WorkspaceEvent::WorkspaceId(wh, id) => {
                let ghost iv = id@;
                match find_workspace_index(&self.workspaces, wh) {
                    Some(i) => {
                        let w = &mut self.workspaces[i];
                        w.id = Some(id);
                        proof {
                            assert(workspaces_view(self.workspaces) =~= update_first_workspace(
                                pre.workspaces,
                                wh,
                                fn_set_ws_id(iv),
                            ));
                            assert(self.snapshot() =~= apply_event(pre, ev));
                        }
                    },
                    None => {
                        proof {
                            assert(self.snapshot() =~= apply_event(pre, ev));
                        }
                    },
                }
            },
            WorkspaceEvent::WorkspaceTilingState(wh, t) => {
                match find_workspace_index(&self.workspaces, wh) {
                    Some(i) => {
                        let w = &mut self.workspaces[i];
                        w.tiling_state = Some(t);
                        proof {
                            assert(workspaces_view(self.workspaces) =~= update_first_workspace(
                                pre.workspaces,
                                wh,
                                fn_set_ws_tiling(t),
                            ));
                            assert(self.snapshot() =~= apply_event(pre, ev));
                        }
                    },
                    None => {
                        proof {
                            assert(self.snapshot() =~= apply_event(pre, ev));
                        }
                    },
                }
            },
            WorkspaceEvent::ManagerFinished => {
                proof {
                    assert(self.snapshot() =~= apply_event(pre, ev));
                }
            },
        }
    }

    /// Close the open transaction: drain the queue in arrival order and
    /// apply every event.  Observers that read between two calls of this
    /// routine always see a fully applied snapshot.
    pub fn handle_events(&mut self)
        ensures
            final(self).manager == old(self).manager,
            final(self).protocol == old(self).protocol,
            final(self).pending().len() == 0,
            final(self).snapshot() == apply_all(old(self).snapshot(), old(self).pending()),
            old(self).wf() ==> final(self).wf(),
    {
        let ghost s0 = self.snapshot();
        let ghost q0 = self.pending();
        let ghost mut done: Seq<EventModel> = Seq::empty();
        proof {
            assert(done + self.pending() =~= q0);
        }
        while self.events.len() > 0
            invariant
                self.manager == old(self).manager,
                self.protocol == old(self).protocol,
                s0 == old(self).snapshot(),
                q0 == old(self).pending(),
                q0 == done + self.pending(),
                self.snapshot() == apply_all(s0, done),
            decreases self.events@.len(),
        {
            let ghost p_before = self.pending();
            let e = self.events.remove(0);
            let ghost ev = e@;
            proof {
                assert(self.pending() =~= p_before.drop_first());
                assert(ev == p_before[0]);
            }
            self.apply_one(e);
            proof {
                lemma_apply_all_push(s0, done, ev);
                done = done.push(ev);
                assert(q0 =~= done + self.pending());
            }
        }
        proof {
            assert(self.pending() =~= Seq::<EventModel>::empty());
            assert(q0 =~= done);
            if old(self).wf() {
                lemma_apply_all_wf(s0, q0, self.protocol);
            }
        }
    }

    /// First index of the workspace with this handle, if any.
    pub fn get_workspace_by_handle(&self, handle: &WorkspaceHandle) -> (r: Option<usize>)
        ensures
            match r {
                Some(i) => {
                    &&& (i as int) < self.snapshot().workspaces.len()
                    &&& self.snapshot().workspaces[i as int].handle == *handle
                    &&& first_index_where(self.snapshot().workspaces, fn_ws_is(*handle))
                        == i as int
                },
                None => !has_workspace(self.snapshot().workspaces, *handle),
            },
    {
        find_workspace_index(&self.workspaces, *handle)
    }

    /// First index of the group with this handle, if any.
    pub fn get_group_by_handle(&self, handle: &GroupHandle) -> (r: Option<usize>)
        ensures
            match r {
                Some(i) => {
                    &&& (i as int) < self.snapshot().groups.len()
                    &&& self.snapshot().groups[i as int].handle == *handle
                    &&& first_index_where(self.snapshot().groups, fn_group_is(*handle))
                        == i as int
                },
                None => !has_group(self.snapshot().groups, *handle),
            },
    {
        find_group_index(&self.groups, *handle)
    }
}

/// The group reference of the workspace at one index.
fn workspaces_group_at(workspaces: &Vec<Workspace>, i: usize) -> (r: Option<GroupHandle>)
    requires
        i < workspaces@.len(),
    ensures
        r == workspaces@[i as int].group,
{
    workspaces[i].group
}

impl Workspace {
    /// The server-assigned wire id of this workspace.
    pub fn id(&self) -> (r: u32)
        ensures
            r == self.handle.spec_protocol_id(),
    {
        self.handle.protocol_id()
    }

    /// The wire request that activates this workspace.
    pub fn activate(&self) -> (r: Request)
        ensures
            r == Request::Activate(self.handle),
    {
        Request::Activate(self.handle)
    }

    /// The wire request that deactivates this workspace.
    pub fn deactivate(&self) -> (r: Request)
        ensures
            r == Request::Deactivate(self.handle),
    {
        Request::Deactivate(self.handle)
    }

    /// The wire request that drops the client-side handle.
    pub fn destroy(&self) -> (r: Request)
        ensures
            r == Request::Destroy(self.handle),
    {
        Request::Destroy(self.handle)
    }

    /// The wire request that asks the server to remove this workspace.
    pub fn remove(&self) -> (r: Request)
        ensures
            r == Request::Remove(self.handle),
    {
        Request::Remove(self.handle)
    }

    /// The wire request that assigns this workspace to `group`.  Only the
    /// ExtV1 dialect can express it, and only towards an ExtV1 group;
    /// any other pairing is refused without issuing anything.
    pub fn assign(&self, group: &GroupHandle) -> (r: Result<Request, RequestError>)
        ensures
            self.handle is ExtV1 && *group is ExtV1 ==> r == Ok::<Request, RequestError>(
                Request::Assign(self.handle, *group),
            ),
            !(self.handle is ExtV1 && *group is ExtV1) ==> r == Err::<Request, RequestError>(
                RequestError::UnsupportedOperation,
            ),
    {
        match (&self.handle, group) {
            (WorkspaceHandle::ExtV1(_), GroupHandle::ExtV1(_)) => {
                Ok(Request::Assign(self.handle, *group))
            },
            _ => Err(RequestError::UnsupportedOperation),
        }
    }
}

impl WorkspaceGroup {
    /// The server-assigned wire id of this group.
    pub fn id(&self) -> (r: u32)
        ensures
            r == self.handle.spec_protocol_id(),
    {
        self.handle.protocol_id()
    }

    /// The wire request that creates a workspace named `name` in this
    /// group.
    pub fn create_workspace(&self, name: String) -> (r: Request)
        ensures
            r is CreateWorkspace,
            r->CreateWorkspace_0 == self.handle,
            r->CreateWorkspace_1@ == name@,
    {
        Request::CreateWorkspace(self.handle, name)
    }

    /// The name the output collaborator reported for this group's output.
    pub fn get_output_name(&self) -> (r: Option<String>)
        ensures
            match r {
                Some(n) => self@.output_name() == Some(n@),
                None => self@.output_name() is None,
            },
    {
        match &self.output {
            Some(o) => match &o.info {
                Some(info) => match &info.name {
                    Some(n) => Some(n.clone()),
                    None => None,
                },
                None => None,
            },
            None => None,
        }
    }

    /// The output collaborator's report on this group's output.
    pub fn get_output_info(&self) -> (r: Option<crate::output::OutputInfoData>)
        ensures
            match r {
                Some(info) => self@.output_info() == Some(info@),
                None => self@.output_info() is None,
            },
    {
        match &self.output {
            Some(o) => match &o.info {
                Some(info) => Some(info.clone()),
                None => None,
            },
            None => None,
        }
    }
}

} // verus!
