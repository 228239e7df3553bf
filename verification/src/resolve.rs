//! The selector resolver.
//!
//! The operator names a workspace by one of: the active state, an index
//! in protocol-id order, a name, a wire id, or a coordinate vector; the
//! candidate set is every workspace, or the workspaces of one group when
//! an output selector narrows the scope.  Resolution returns the index
//! of the chosen workspace record, or says exactly why none was chosen.

use vstd::prelude::*;

use crate::cli::{OutputSelector, WorkspaceSelector};
use crate::model::{
    first_index_where, lemma_first_index_where, lemma_first_index_where_found, snap_dialect_ok,
    snap_wf, GroupModel, SnapshotModel, WorkspaceModel,
};
use crate::protocol::{GroupHandle, Protocol, WorkspaceHandle, STATE_ACTIVE};
use crate::workspace_state::{
    groups_view, workspaces_view, Workspace, WorkspaceGroup, WorkspaceState,
};

verus! {

/// Why a selector failed to resolve.
#[derive(Debug, Clone, Copy, PartialEq, Eq, Structural)]
pub enum SelectorError {
    OutputNotFound,
    NoWorkspaces,
    NoActiveWorkspace,
    IndexOutOfRange,
    NameNotFound,
    ProtocolIdNotFound,
    CoordinateArityMismatch,
    CoordinateNotFound,
    OutputRequired,
}

impl SelectorError {
    /// A short operator-facing description.
    pub fn message(&self) -> (r: &'static str)
        ensures
            match *self {
                SelectorError::OutputNotFound => r@ == "unable to find output for the provided selection"@,
                SelectorError::NoWorkspaces => r@ == "no workspaces (on selected output)"@,
                SelectorError::NoActiveWorkspace => r@ == "unable to find active workspace"@,
                SelectorError::IndexOutOfRange => r@ == "unable to find workspace with provided index"@,
                SelectorError::NameNotFound => r@ == "unable to find workspace with provided name"@,
                SelectorError::ProtocolIdNotFound => r@ == "unable to find workspace with provided protocol id"@,
                SelectorError::CoordinateArityMismatch => r@ == "wrong coordinate length/number of axes"@,
                SelectorError::CoordinateNotFound => r@ == "unable to find workspace with provided coordinates"@,
                SelectorError::OutputRequired => r@ == "an output has to be selected"@,
            },
    {
        match self {
            SelectorError::OutputNotFound => "unable to find output for the provided selection",
            SelectorError::NoWorkspaces => "no workspaces (on selected output)",
            SelectorError::NoActiveWorkspace => "unable to find active workspace",
            SelectorError::IndexOutOfRange => "unable to find workspace with provided index",
            SelectorError::NameNotFound => "unable to find workspace with provided name",
            SelectorError::ProtocolIdNotFound => "unable to find workspace with provided protocol id",
            SelectorError::CoordinateArityMismatch => "wrong coordinate length/number of axes",
            SelectorError::CoordinateNotFound => "unable to find workspace with provided coordinates",
            SelectorError::OutputRequired => "an output has to be selected",
        }
    }
}

impl OutputSelector {
    /// The name criterion, as a ghost value.
    pub open spec fn spec_name(&self) -> Option<Seq<char>> {
        match self.output_name {
            Some(n) => Some(n@),
            None => None,
        }
    }

    /// The wire-id criterion.
    pub open spec fn spec_pid(&self) -> Option<usize> {
        self.output_protocol_id
    }
}

/// Predicate: the group's output was reported under this name.
pub open spec fn fn_group_output_name_is(name: Seq<char>) -> spec_fn(GroupModel) -> bool {
    |g: GroupModel| g.output_name() == Some(name)
}

/// Predicate: the group's output has this wire id (truncated to the
/// 32-bit id space, as the wire carries it).
pub open spec fn fn_group_output_pid_is(pid: usize) -> spec_fn(GroupModel) -> bool {
    |g: GroupModel|
        match g.output {
            Some(o) => o.protocol_id == pid as u32,
            None => false,
        }
}

/// Whether a workspace belongs to the candidate set of a scope.
pub open spec fn ws_in_scope(w: WorkspaceModel, scope: Option<GroupHandle>) -> bool {
    match scope {
        None => true,
        Some(g) => w.group == Some(g),
    }
}

/// Predicate form of [`ws_in_scope`].
pub open spec fn fn_in_scope(scope: Option<GroupHandle>) -> spec_fn(WorkspaceModel) -> bool {
    |w: WorkspaceModel| ws_in_scope(w, scope)
}

/// Predicate: in scope and carrying this name.
pub open spec fn fn_in_scope_named(
    scope: Option<GroupHandle>,
    name: Seq<char>,
) -> spec_fn(WorkspaceModel) -> bool {
    |w: WorkspaceModel| ws_in_scope(w, scope) && w.name == Some(name)
}

/// Predicate: in scope and carrying this wire id (truncated to the
/// 32-bit id space, as the wire carries it).
pub open spec fn fn_in_scope_pid(
    scope: Option<GroupHandle>,
    pid: usize,
) -> spec_fn(WorkspaceModel) -> bool {
    |w: WorkspaceModel| ws_in_scope(w, scope) && w.handle.spec_protocol_id() == pid as u32
}

/// Predicate: in scope and sitting at these coordinates.
pub open spec fn fn_in_scope_coords(
    scope: Option<GroupHandle>,
    coordinates: Seq<u8>,
) -> spec_fn(WorkspaceModel) -> bool {
    |w: WorkspaceModel| ws_in_scope(w, scope) && w.coordinates == coordinates
}

/// Whether the workspace's state bitset contains the active bit.
pub open spec fn ws_active(w: WorkspaceModel) -> bool {
    w.state.bits & STATE_ACTIVE == STATE_ACTIVE
}

/// Index of the in-scope active workspace with the smallest wire id;
/// the earliest such index on a tie; -1 when none is active.
pub open spec fn min_active_idx(ws: Seq<WorkspaceModel>, scope: Option<GroupHandle>) -> int
    decreases ws.len(),
{
    if ws.len() == 0 {
        -1
    } else {
        let rest = min_active_idx(ws.drop_last(), scope);
        let last = ws.len() - 1;
        if !(ws_in_scope(ws[last], scope) && ws_active(ws[last])) {
            rest
        } else if rest < 0 {
            last
        } else if ws[rest].handle.spec_protocol_id() <= ws[last].handle.spec_protocol_id() {
            rest
        } else {
            last
        }
    }
}

/// How many in-scope workspaces carry a wire id below `pid`: the rank
/// of `pid` in the candidate set's protocol-id order.
pub open spec fn count_in_scope_below(
    ws: Seq<WorkspaceModel>,
    scope: Option<GroupHandle>,
    pid: u32,
) -> int
    decreases ws.len(),
{
    if ws.len() == 0 {
        0
    } else {
        count_in_scope_below(ws.drop_last(), scope, pid) + if ws_in_scope(ws.last(), scope)
            && ws.last().handle.spec_protocol_id() < pid {
            1int
        } else {
            0int
        }
    }
}

/// The index the resolved output selector names: the first group that
/// matches its criterion, -1 when none does, -2 when it has no
/// criterion.
pub open spec fn resolved_group_idx(
    groups: Seq<GroupModel>,
    name: Option<Seq<char>>,
    pid: Option<usize>,
) -> int {
    match name {
        Some(n) => first_index_where(groups, fn_group_output_name_is(n)),
        None => match pid {
            Some(p) => first_index_where(groups, fn_group_output_pid_is(p)),
            None => -2,
        },
    }
}

/// What the whole resolution returns: the output selector narrows the
/// scope to one group, and the workspace criterion picks within it.
pub open spec fn workspace_resolution_post(
    snap: SnapshotModel,
    selector: WorkspaceSelector,
    output: Option<OutputSelector>,
    r: Result<usize, SelectorError>,
) -> bool {
    match output {
        Some(o) => {
            let gi = resolved_group_idx(snap.groups, o.spec_name(), o.spec_pid());
            if gi == -2 {
                r == Err::<usize, SelectorError>(SelectorError::OutputRequired)
            } else if gi == -1 {
                r == Err::<usize, SelectorError>(SelectorError::OutputNotFound)
            } else {
                selection_post(snap.workspaces, selector, Some(snap.groups[gi].handle), r)
            }
        },
        None => selection_post(snap.workspaces, selector, None, r),
    }
}

/// What workspace selection returns for one criterion within one scope.
pub open spec fn selection_post(
    ws: Seq<WorkspaceModel>,
    selector: WorkspaceSelector,
    scope: Option<GroupHandle>,
    r: Result<usize, SelectorError>,
) -> bool {
    if first_index_where(ws, fn_in_scope(scope)) < 0 {
        r == Err::<usize, SelectorError>(SelectorError::NoWorkspaces)
    } else if selector.active {
        let m = min_active_idx(ws, scope);
        match r {
            Ok(i) => i as int == m,
            Err(e) => m < 0 && e == SelectorError::NoActiveWorkspace,
        }
    } else if selector.index is Some {
        match selector.index {
            Some(k) => match r {
                Ok(i) => {
                    &&& 0 <= i < ws.len()
                    &&& ws_in_scope(ws[i as int], scope)
                    &&& count_in_scope_below(ws, scope, ws[i as int].handle.spec_protocol_id())
                        == k as int
                    &&& forall|j: int|
                        0 <= j < i ==> !(ws_in_scope(#[trigger] ws[j], scope)
                            && count_in_scope_below(ws, scope, ws[j].handle.spec_protocol_id())
                            == k as int)
                },
                Err(e) => {
                    &&& e == SelectorError::IndexOutOfRange
                    &&& forall|j: int|
                        0 <= j < ws.len() ==> !(ws_in_scope(#[trigger] ws[j], scope)
                            && count_in_scope_below(ws, scope, ws[j].handle.spec_protocol_id())
                            == k as int)
                },
            },
            None => false,
        }
    } else if selector.name is Some {
        match selector.name {
            Some(n) => {
                let f = first_index_where(ws, fn_in_scope_named(scope, n@));
                match r {
                    Ok(i) => i as int == f,
                    Err(e) => f < 0 && e == SelectorError::NameNotFound,
                }
            },
            None => false,
        }
    } else if selector.protocol_id is Some {
        match selector.protocol_id {
            Some(p) => {
                let f = first_index_where(ws, fn_in_scope_pid(scope, p));
                match r {
                    Ok(i) => i as int == f,
                    Err(e) => f < 0 && e == SelectorError::ProtocolIdNotFound,
                }
            },
            None => false,
        }
    } else if selector.coordinates is Some {
        match selector.coordinates {
            Some(c) => {
                if exists|j: int|
                    0 <= j < ws.len() && ws_in_scope(#[trigger] ws[j], scope)
                        && ws[j].coordinates.len() != c@.len() {
                    r == Err::<usize, SelectorError>(SelectorError::CoordinateArityMismatch)
                } else {
                    let f = first_index_where(ws, fn_in_scope_coords(scope, c@));
                    match r {
                        Ok(i) => i as int == f,
                        Err(e) => f < 0 && e == SelectorError::CoordinateNotFound,
                    }
                }
            },
            None => false,
        }
    } else {
        false
    }
}

/// Whether two byte vectors hold the same bytes.
fn bytes_equal(a: &Vec<u8>, b: &Vec<u8>) -> (r: bool)
    ensures
        r == (a@ == b@),
{
    if a.len() != b.len() {
        proof {
            if a@ == b@ {
                assert(a@.len() == b@.len());
            }
        }
        return false;
    }
    let n = a.len();
    let mut i: usize = 0;
    while i < n
        invariant
            n == a@.len(),
            b@.len() == n,
            i <= n,
            forall|j: int| 0 <= j < i ==> a@[j] == b@[j],
        decreases n - i,
    {
        if a[i] != b[i] {
            proof {
                if a@ == b@ {
                    assert(a@[i as int] == b@[i as int]);
                }
            }
            return false;
        }
        i += 1;
    }
    proof {
        assert(a@ =~= b@);
    }
    true
}

/// Whether the workspace belongs to the candidate set.
fn in_scope_exec(w: &Workspace, scope: Option<GroupHandle>) -> (r: bool)
    ensures
        r == ws_in_scope(w@, scope),
{
    match scope {
        None => true,
        Some(g) => match w.group {
            Some(h) => h == g,
            None => false,
        },
    }
}

/// Whether the group's output was reported under this name.
fn group_output_name_matches(g: &WorkspaceGroup, name: &String) -> (r: bool)
    ensures
        r == fn_group_output_name_is(name@)(g@),
{
    match &g.output {
        Some(o) => match &o.info {
            Some(info) => match &info.name {
                Some(n) => *n == *name,
                None => false,
            },
            None => false,
        },
        None => false,
    }
}

/// Whether the group's output carries this wire id.
fn group_output_pid_matches(g: &WorkspaceGroup, pid: usize) -> (r: bool)
    ensures
        r == fn_group_output_pid_is(pid)(g@),
{
    let wire: u32 = #[verifier::truncate] (pid as u32);
    match &g.output {
        Some(o) => o.protocol_id == wire,
        None => false,
    }
}

/// The rank of a wire id within the candidate set.
fn count_below_exec(workspaces: &Vec<Workspace>, scope: Option<GroupHandle>, pid: u32) -> (r:
    usize)
    ensures
        r as int == count_in_scope_below(workspaces_view(*workspaces), scope, pid),
{
    let n = workspaces.len();
    let mut count: usize = 0;
    let mut i: usize = 0;
    while i < n
        invariant
            n == workspaces@.len(),
            i <= n,
            count <= i,
            count as int == count_in_scope_below(
                workspaces_view(*workspaces).take(i as int),
                scope,
                pid,
            ),
        decreases n - i,
    {
        let below = in_scope_exec(&workspaces[i], scope) && workspaces[i].handle.protocol_id()
            < pid;
        if below {
            count += 1;
        }
        proof {
            let v = workspaces_view(*workspaces);
            assert(v.take(i + 1).drop_last() =~= v.take(i as int));
            assert(v.take(i + 1).last() == v[i as int]);
        }
        i += 1;
    }
    proof {
        assert(workspaces_view(*workspaces).take(n as int) =~= workspaces_view(*workspaces));
    }
    count
}

impl WorkspaceState {
    /// Resolve an output selector to the group shown on that output:
    /// the first group whose output was reported under the selector's
    /// name, or carries the selector's wire id.
    #[verifier::loop_isolation(false)]
    pub fn group_from_output(&self, output: &OutputSelector) -> (r: Result<usize, SelectorError>)
        ensures
            match r {
                Ok(i) => {
                    &&& 0 <= i < self.snapshot().groups.len()
                    &&& resolved_group_idx(
                        self.snapshot().groups,
                        output.spec_name(),
                        output.spec_pid(),
                    ) == i as int
                },
                Err(e) => match output.output_name {
                    Some(_) => e == SelectorError::OutputNotFound && resolved_group_idx(
                        self.snapshot().groups,
                        output.spec_name(),
                        output.spec_pid(),
                    ) == -1,
                    None => match output.output_protocol_id {
                        Some(_) => e == SelectorError::OutputNotFound && resolved_group_idx(
                            self.snapshot().groups,
                            output.spec_name(),
                            output.spec_pid(),
                        ) == -1,
                        None => e == SelectorError::OutputRequired,
                    },
                },
            },
    {
        let n = self.groups.len();
        match &output.output_name {
            Some(name) => {
                let mut i: usize = 0;
                while i < n
                    invariant
                        n == self.groups@.len(),
                        i <= n,
                        forall|j: int|
                            0 <= j < i ==> !fn_group_output_name_is(name@)(
                                #[trigger] groups_view(self.groups)[j],
                            ),
                    decreases n - i,
                {
                    if group_output_name_matches(&self.groups[i], name) {
                        proof {
                            lemma_first_index_where_found(
                                groups_view(self.groups),
                                fn_group_output_name_is(name@),
                                i as int,
                            );
                        }
                        return Ok(i);
                    }
                    i += 1;
                }
                proof {
                    lemma_first_index_where(
                        groups_view(self.groups),
                        fn_group_output_name_is(name@),
                    );
                }
                Err(SelectorError::OutputNotFound)
            },
            None => match output.output_protocol_id {
                Some(pid) => {
                    let mut i: usize = 0;
                    while i < n
                        invariant
                            n == self.groups@.len(),
                            i <= n,
                            forall|j: int|
                                0 <= j < i ==> !fn_group_output_pid_is(pid)(
                                    #[trigger] groups_view(self.groups)[j],
                                ),
                        decreases n - i,
                    {
                        if group_output_pid_matches(&self.groups[i], pid) {
                            proof {
                                lemma_first_index_where_found(
                                    groups_view(self.groups),
                                    fn_group_output_pid_is(pid),
                                    i as int,
                                );
                            }
                            return Ok(i);
                        }
                        i += 1;
                    }
                    proof {
                        lemma_first_index_where(
                            groups_view(self.groups),
                            fn_group_output_pid_is(pid),
                        );
                    }
                    Err(SelectorError::OutputNotFound)
                },
                None => Err(SelectorError::OutputRequired),
            },
        }
    }

    /// Resolve a workspace selector, optionally scoped to one output's
    /// group, to the index of the chosen workspace record.
    #[verifier::loop_isolation(false)]
    pub fn workspace_from_selection(
        &self,
        selector: &WorkspaceSelector,
        output: Option<&OutputSelector>,
    ) -> (r: Result<usize, SelectorError>)
        requires
            selector.is_single(),
        ensures
            workspace_resolution_post(
                self.snapshot(),
                *selector,
                match output {
                    Some(o) => Some(*o),
                    None => None,
                },
                r,
            ),
            match r {
                Ok(i) => 0 <= i < self.snapshot().workspaces.len(),
                Err(_) => true,
            },
    {
        let scope: Option<GroupHandle> = match output {
            Some(o) => match self.group_from_output(o) {
                Ok(gi) => Some(self.groups[gi].handle),
                Err(e) => {
                    return Err(e);
                },
            },
            None => None,
        };
        let n = self.workspaces.len();

        // An empty candidate set fails every criterion the same way.
        let mut any: bool = false;
        let mut i: usize = 0;
        while i < n
            invariant
                n == self.workspaces@.len(),
                i <= n,
                !any ==> forall|j: int|
                    0 <= j < i ==> !fn_in_scope(scope)(
                        #[trigger] workspaces_view(self.workspaces)[j],
                    ),
                any ==> first_index_where(workspaces_view(self.workspaces), fn_in_scope(scope))
                    >= 0,
            decreases n - i,
        {
            if in_scope_exec(&self.workspaces[i], scope) {
                proof {
                    assert(fn_in_scope(scope)(workspaces_view(self.workspaces)[i as int]));
                    if first_index_where(workspaces_view(self.workspaces), fn_in_scope(scope))
                        < 0 {
                        lemma_first_index_where(
                            workspaces_view(self.workspaces),
                            fn_in_scope(scope),
                        );
                        assert(false);
                    }
                }
                any = true;
            }
            i += 1;
        }
        if !any {
            proof {
                lemma_first_index_where(workspaces_view(self.workspaces), fn_in_scope(scope));
            }
            return Err(SelectorError::NoWorkspaces);
        }

        if selector.active {
            let mut best: Option<usize> = None;
            let mut i: usize = 0;
            while i < n
                invariant
                    n == self.workspaces@.len(),
                    i <= n,
                    match best {
                        Some(b) => b < i && b as int == min_active_idx(
                            workspaces_view(self.workspaces).take(i as int),
                            scope,
                        ),
                        None => min_active_idx(
                            workspaces_view(self.workspaces).take(i as int),
                            scope,
                        ) < 0,
                    },
                decreases n - i,
            {
                let cand = in_scope_exec(&self.workspaces[i], scope)
                    && self.workspaces[i].state.contains(STATE_ACTIVE);
                proof {
                    let v = workspaces_view(self.workspaces);
                    assert(v.take(i + 1).drop_last() =~= v.take(i as int));
                    assert(v.take(i + 1).last() == v[i as int]);
                }
                if cand {
                    match best {
                        None => {
                            best = Some(i);
                        },
                        Some(b) => {
                            if self.workspaces[i].handle.protocol_id()
                                < self.workspaces[b].handle.protocol_id() {
                                best = Some(i);
                            }
                        },
                    }
                }
                i += 1;
            }
            proof {
                let v = workspaces_view(self.workspaces);
                assert(v.take(n as int) =~= v);
            }
            return match best {
                Some(b) => Ok(b),
                None => Err(SelectorError::NoActiveWorkspace),
            };
        }

        match &selector.index {
            Some(k) => {
                let k = *k;
                let mut i: usize = 0;
                while i < n
                    invariant
                        n == self.workspaces@.len(),
                        i <= n,
                        forall|j: int|
                            0 <= j < i ==> !(ws_in_scope(
                                #[trigger] workspaces_view(self.workspaces)[j],
                                scope,
                            ) && count_in_scope_below(
                                workspaces_view(self.workspaces),
                                scope,
                                workspaces_view(self.workspaces)[j].handle.spec_protocol_id(),
                            ) == k as int),
                    decreases n - i,
                {
                    if in_scope_exec(&self.workspaces[i], scope) {
                        let rank = count_below_exec(
                            &self.workspaces,
                            scope,
                            self.workspaces[i].handle.protocol_id(),
                        );
                        if rank == k {
                            return Ok(i);
                        }
                    }
                    i += 1;
                }
                return Err(SelectorError::IndexOutOfRange);
            },
            None => {},
        }

        match &selector.name {
            Some(name) => {
                let mut i: usize = 0;
                while i < n
                    invariant
                        n == self.workspaces@.len(),
                        i <= n,
                        forall|j: int|
                            0 <= j < i ==> !fn_in_scope_named(scope, name@)(
                                #[trigger] workspaces_view(self.workspaces)[j],
                            ),
                    decreases n - i,
                {
                    let hit = in_scope_exec(&self.workspaces[i], scope) && match &self
                        .workspaces[i].name {
                        Some(m) => *m == *name,
                        None => false,
                    };
                    if hit {
                        proof {
                            lemma_first_index_where_found(
                                workspaces_view(self.workspaces),
                                fn_in_scope_named(scope, name@),
                                i as int,
                            );
                        }
                        return Ok(i);
                    }
                    i += 1;
                }
                proof {
                    lemma_first_index_where(
                        workspaces_view(self.workspaces),
                        fn_in_scope_named(scope, name@),
                    );
                }
                return Err(SelectorError::NameNotFound);
            },
            None => {},
        }

        match &selector.protocol_id {
            Some(pid) => {
                let pid = *pid;
                let wire: u32 = #[verifier::truncate] (pid as u32);
                let mut i: usize = 0;
                while i < n
                    invariant
                        n == self.workspaces@.len(),
                        i <= n,
                        forall|j: int|
                            0 <= j < i ==> !fn_in_scope_pid(scope, pid)(
                                #[trigger] workspaces_view(self.workspaces)[j],
                            ),
                    decreases n - i,
                {
                    let hit = in_scope_exec(&self.workspaces[i], scope)
                        && self.workspaces[i].handle.protocol_id() == wire;
                    if hit {
                        proof {
                            lemma_first_index_where_found(
                                workspaces_view(self.workspaces),
                                fn_in_scope_pid(scope, pid),
                                i as int,
                            );
                        }
                        return Ok(i);
                    }
                    i += 1;
                }
                proof {
                    lemma_first_index_where(
                        workspaces_view(self.workspaces),
                        fn_in_scope_pid(scope, pid),
                    );
                }
                return Err(SelectorError::ProtocolIdNotFound);
            },
            None => {},
        }

        match &selector.coordinates {
            Some(coordinates) => {
                let mut i: usize = 0;
                while i < n
                    invariant
                        n == self.workspaces@.len(),
                        i <= n,
                        forall|j: int|
                            0 <= j < i ==> !(ws_in_scope(
                                #[trigger] workspaces_view(self.workspaces)[j],
                                scope,
                            ) && workspaces_view(self.workspaces)[j].coordinates.len()
                                != coordinates@.len()),
                    decreases n - i,
                {
                    let mismatch = in_scope_exec(&self.workspaces[i], scope) && self
                        .workspaces[i].coordinates.len() != coordinates.len();
                    if mismatch {
                        proof {
                            assert(ws_in_scope(
                                workspaces_view(self.workspaces)[i as int],
                                scope,
                            ) && workspaces_view(self.workspaces)[i as int].coordinates.len()
                                != coordinates@.len());
                        }
                        return Err(SelectorError::CoordinateArityMismatch);
                    }
                    i += 1;
                }
                let mut i: usize = 0;
                while i < n
                    invariant
                        n == self.workspaces@.len(),
                        i <= n,
                        forall|j: int|
                            0 <= j < i ==> !fn_in_scope_coords(scope, coordinates@)(
                                #[trigger] workspaces_view(self.workspaces)[j],
                            ),
                    decreases n - i,
                {
                    let hit = in_scope_exec(&self.workspaces[i], scope) && bytes_equal(
                        &self.workspaces[i].coordinates,
                        coordinates,
                    );
                    if hit {
                        proof {
                            lemma_first_index_where_found(
                                workspaces_view(self.workspaces),
                                fn_in_scope_coords(scope, coordinates@),
                                i as int,
                            );
                        }
                        return Ok(i);
                    }
                    i += 1;
                }
                proof {
                    lemma_first_index_where(
                        workspaces_view(self.workspaces),
                        fn_in_scope_coords(scope, coordinates@),
                    );
                }
                return Err(SelectorError::CoordinateNotFound);
            },
            None => {},
        }

        // Unreachable: exactly one criterion is given.
        proof {
            assert(false);
        }
        Err(SelectorError::NoWorkspaces)
    }
}

/// Two handles of the same dialect with the same wire id are the same
/// handle.
pub proof fn lemma_workspace_handle_id_injective(a: WorkspaceHandle, b: WorkspaceHandle)
    requires
        a.spec_protocol() == b.spec_protocol(),
        a.spec_protocol_id() == b.spec_protocol_id(),
    ensures
        a == b,
{
    match a {
        WorkspaceHandle::ExtV0(_) => {},
        WorkspaceHandle::ExtV1(_) => {},
        WorkspaceHandle::CosmicV1(_) => {},
    }
}

/// Law: selecting by a workspace's own wire id resolves to that very
/// workspace.  In a well-formed single-dialect snapshot, wire ids are
/// unique, so the first match of the protocol-id criterion is the
/// workspace itself.
pub proof fn lemma_protocol_id_round_trip(s: SnapshotModel, protocol: Protocol, i: int)
    requires
        snap_wf(s),
        snap_dialect_ok(s, protocol),
        0 <= i < s.workspaces.len(),
    ensures
        first_index_where(
            s.workspaces,
            fn_in_scope_pid(None, s.workspaces[i].handle.spec_protocol_id() as usize),
        ) == i,
{
    let pid = s.workspaces[i].handle.spec_protocol_id() as usize;
    assert(pid as u32 == s.workspaces[i].handle.spec_protocol_id());
    assert forall|j: int| 0 <= j < i implies !fn_in_scope_pid(None, pid)(
        #[trigger] s.workspaces[j],
    ) by {
        if s.workspaces[j].handle.spec_protocol_id() == pid as u32 {
            lemma_workspace_handle_id_injective(s.workspaces[j].handle, s.workspaces[i].handle);
        }
    }
    lemma_first_index_where_found(s.workspaces, fn_in_scope_pid(None, pid), i);
}

/// Whether the workspaces stand in ascending wire-id order.
pub open spec fn sorted_by_protocol_id(ws: Seq<WorkspaceModel>) -> bool {
    forall|i: int, j: int|
        0 <= i <= j < ws.len() ==> (#[trigger] ws[i]).handle.spec_protocol_id()
            <= (#[trigger] ws[j]).handle.spec_protocol_id()
}

/// Law: when the workspaces stand in wire-id order, selecting by name
/// returns the workspace whose wire id is smallest among those carrying
/// that name.
pub proof fn lemma_name_selector_minimal(ws: Seq<WorkspaceModel>, name: Seq<char>)
    requires
        sorted_by_protocol_id(ws),
        exists|j: int| 0 <= j < ws.len() && (#[trigger] ws[j]).name == Some(name),
    ensures
        ({
            let f = first_index_where(ws, fn_in_scope_named(None, name));
            &&& 0 <= f < ws.len()
            &&& ws[f].name == Some(name)
            &&& forall|j: int|
                0 <= j < ws.len() && (#[trigger] ws[j]).name == Some(name)
                    ==> ws[f].handle.spec_protocol_id() <= ws[j].handle.spec_protocol_id()
        }),
{
    let pred = fn_in_scope_named(None, name);
    lemma_first_index_where(ws, pred);
    let f = first_index_where(ws, pred);
    let w = choose|j: int| 0 <= j < ws.len() && (#[trigger] ws[j]).name == Some(name);
    assert(pred(ws[w]));
    if f < 0 {
        assert(!pred(ws[w]));
        assert(false);
    }
    assert forall|j: int|
        0 <= j < ws.len() && (#[trigger] ws[j]).name == Some(name) implies ws[f].handle.spec_protocol_id()
        <= ws[j].handle.spec_protocol_id() by {
        assert(pred(ws[j]));
        if j < f {
            assert(!pred(ws[j]));
        }
    }
}

/// Law: when the first candidate's coordinate arity differs from the
/// queried vector's, the coordinate criterion fails with the arity
/// mismatch: that candidate itself witnesses the mismatch the contract
/// speaks of.
pub proof fn lemma_coordinate_arity_guard(
    ws: Seq<WorkspaceModel>,
    scope: Option<GroupHandle>,
    len: int,
)
    requires
        ({
            let f = first_index_where(ws, fn_in_scope(scope));
            0 <= f < ws.len() && ws[f].coordinates.len() != len
        }),
    ensures
        exists|j: int|
            0 <= j < ws.len() && ws_in_scope(#[trigger] ws[j], scope) && ws[j].coordinates.len()
                != len,
{
    let f = first_index_where(ws, fn_in_scope(scope));
    lemma_first_index_where(ws, fn_in_scope(scope));
    assert(ws_in_scope(ws[f], scope) && ws[f].coordinates.len() != len);
}

} // verus!
