//! Sorting utilities of the engine.
//!
//! Listing shows groups and workspaces in a stable order: ascending by
//! wire id, and workspaces optionally by their coordinate vectors in
//! lexicographic order.  Each sort rearranges the records and nothing
//! else: the result is a permutation of the input.

use vstd::prelude::*;

use vstd::seq_lib::{group_to_multiset_ensures, to_multiset_build, to_multiset_contains,
    to_multiset_remove};

use crate::model::{GroupModel, WorkspaceModel};
use crate::resolve::sorted_by_protocol_id;
use crate::workspace_state::{
    groups_view, workspaces_view, Workspace, WorkspaceGroup, WorkspaceState,
};

verus! {

/// Lexicographic order on byte vectors: the empty vector first, then by
/// the first differing byte, a prefix before its extensions.
pub open spec fn lex_le(a: Seq<u8>, b: Seq<u8>) -> bool
    decreases a.len(),
{
    if a.len() == 0 {
        true
    } else if b.len() == 0 {
        false
    } else if a[0] < b[0] {
        true
    } else if a[0] > b[0] {
        false
    } else {
        lex_le(a.drop_first(), b.drop_first())
    }
}

/// The lexicographic order is total.
pub proof fn lemma_lex_total(a: Seq<u8>, b: Seq<u8>)
    ensures
        lex_le(a, b) || lex_le(b, a),
    decreases a.len(),
{
    if a.len() > 0 && b.len() > 0 && a[0] == b[0] {
        lemma_lex_total(a.drop_first(), b.drop_first());
    }
}

/// The lexicographic order is reflexive.
pub proof fn lemma_lex_refl(a: Seq<u8>)
    ensures
        lex_le(a, a),
    decreases a.len(),
{
    if a.len() > 0 {
        lemma_lex_refl(a.drop_first());
    }
}

/// Comparing two suffixes that agree at the front reduces to the next
/// suffix pair.
proof fn lemma_lex_skip_step(a: Seq<u8>, b: Seq<u8>, i: int)
    requires
        0 <= i < a.len(),
        i < b.len(),
        a[i] == b[i],
    ensures
        lex_le(a.skip(i), b.skip(i)) == lex_le(a.skip(i + 1), b.skip(i + 1)),
{
    assert(a.skip(i).drop_first() =~= a.skip(i + 1));
    assert(b.skip(i).drop_first() =~= b.skip(i + 1));
    assert(a.skip(i)[0] == a[i]);
    assert(b.skip(i)[0] == b[i]);
}

/// Whether `a` comes before `b` (or equals it) in lexicographic order.
fn lex_le_exec(a: &Vec<u8>, b: &Vec<u8>) -> (r: bool)
    ensures
        r == lex_le(a@, b@),
{
    proof {
        assert(a@.skip(0) =~= a@);
        assert(b@.skip(0) =~= b@);
    }
    let mut i: usize = 0;
    loop
        invariant
            i <= a@.len(),
            i <= b@.len(),
            lex_le(a@, b@) == lex_le(a@.skip(i as int), b@.skip(i as int)),
        decreases a@.len() - i,
    {
        if i == a.len() {
            return true;
        }
        if i == b.len() {
            return false;
        }
        let x = a[i];
        let y = b[i];
        if x < y {
            proof {
                assert(a@.skip(i as int)[0] == a@[i as int]);
                assert(b@.skip(i as int)[0] == b@[i as int]);
            }
            return true;
        }
        if x > y {
            proof {
                assert(a@.skip(i as int)[0] == a@[i as int]);
                assert(b@.skip(i as int)[0] == b@[i as int]);
            }
            return false;
        }
        proof {
            lemma_lex_skip_step(a@, b@, i as int);
        }
        i += 1;
    }
}

/// Whether the workspaces stand in ascending coordinate order.
pub open spec fn sorted_by_coords(ws: Seq<WorkspaceModel>) -> bool {
    forall|i: int, j: int|
        0 <= i <= j < ws.len() ==> lex_le(
            (#[trigger] ws[i]).coordinates,
            (#[trigger] ws[j]).coordinates,
        )
}

/// Whether the groups stand in ascending wire-id order.
pub open spec fn groups_sorted_by_protocol_id(gs: Seq<GroupModel>) -> bool {
    forall|i: int, j: int|
        0 <= i <= j < gs.len() ==> (#[trigger] gs[i]).handle.spec_protocol_id()
            <= (#[trigger] gs[j]).handle.spec_protocol_id()
}

/// Index of a workspace with minimal wire id.
fn min_ws_id_index(v: &Vec<Workspace>) -> (r: usize)
    requires
        v@.len() > 0,
    ensures
        r < v@.len(),
        forall|j: int|
            0 <= j < v@.len() ==> workspaces_view(*v)[r as int].handle.spec_protocol_id()
                <= (#[trigger] workspaces_view(*v)[j]).handle.spec_protocol_id(),
{
    let n = v.len();
    let mut best: usize = 0;
    let mut i: usize = 1;
    while i < n
        invariant
            n == v@.len(),
            best < i <= n || (best == 0 && i <= n),
            best < n,
            forall|j: int|
                0 <= j < i ==> workspaces_view(*v)[best as int].handle.spec_protocol_id()
                    <= (#[trigger] workspaces_view(*v)[j]).handle.spec_protocol_id(),
        decreases n - i,
    {
        if v[i].handle.protocol_id() < v[best].handle.protocol_id() {
            best = i;
        }
        i += 1;
    }
    best
}

/// Index of a workspace with lexicographically minimal coordinates.
fn min_ws_coords_index(v: &Vec<Workspace>) -> (r: usize)
    requires
        v@.len() > 0,
    ensures
        r < v@.len(),
        forall|j: int|
            0 <= j < v@.len() ==> lex_le(
                workspaces_view(*v)[r as int].coordinates,
                (#[trigger] workspaces_view(*v)[j]).coordinates,
            ),
{
    let n = v.len();
    let mut best: usize = 0;
    let mut i: usize = 1;
    proof {
        lemma_lex_refl(workspaces_view(*v)[0].coordinates);
    }
    while i < n
        invariant
            n == v@.len(),
            best < n,
            i <= n,
            forall|j: int|
                0 <= j < i ==> lex_le(
                    workspaces_view(*v)[best as int].coordinates,
                    (#[trigger] workspaces_view(*v)[j]).coordinates,
                ),
        decreases n - i,
    {
        proof {
            lemma_lex_refl(workspaces_view(*v)[i as int].coordinates);
        }
        if !lex_le_exec(&v[best].coordinates, &v[i].coordinates) {
            proof {
                lemma_lex_total(
                    workspaces_view(*v)[best as int].coordinates,
                    workspaces_view(*v)[i as int].coordinates,
                );
                assert forall|j: int|
                    0 <= j < i implies lex_le(
                    workspaces_view(*v)[i as int].coordinates,
                    (#[trigger] workspaces_view(*v)[j]).coordinates,
                ) by {
                    lemma_lex_trans(
                        workspaces_view(*v)[i as int].coordinates,
                        workspaces_view(*v)[best as int].coordinates,
                        workspaces_view(*v)[j].coordinates,
                    );
                }
            }
            best = i;
        }
        i += 1;
    }
    best
}

/// The lexicographic order is transitive.
pub proof fn lemma_lex_trans(a: Seq<u8>, b: Seq<u8>, c: Seq<u8>)
    requires
        lex_le(a, b),
        lex_le(b, c),
    ensures
        lex_le(a, c),
    decreases a.len(),
{
    if a.len() > 0 && b.len() > 0 && c.len() > 0 {
        if a[0] == b[0] && b[0] == c[0] {
            lemma_lex_trans(a.drop_first(), b.drop_first(), c.drop_first());
        }
    }
}

/// Index of a group with minimal wire id.
fn min_group_id_index(v: &Vec<WorkspaceGroup>) -> (r: usize)
    requires
        v@.len() > 0,
    ensures
        r < v@.len(),
        forall|j: int|
            0 <= j < v@.len() ==> groups_view(*v)[r as int].handle.spec_protocol_id()
                <= (#[trigger] groups_view(*v)[j]).handle.spec_protocol_id(),
{
    let n = v.len();
    let mut best: usize = 0;
    let mut i: usize = 1;
    while i < n
        invariant
            n == v@.len(),
            best < n,
            i <= n,
            forall|j: int|
                0 <= j < i ==> groups_view(*v)[best as int].handle.spec_protocol_id()
                    <= (#[trigger] groups_view(*v)[j]).handle.spec_protocol_id(),
        decreases n - i,
    {
        if v[i].handle.protocol_id() < v[best].handle.protocol_id() {
            best = i;
        }
        i += 1;
    }
    best
}

impl WorkspaceState {
    /// Rearrange the workspaces in ascending wire-id order.
    pub fn sort_workspaces_by_id(&mut self)
        ensures
            final(self).groups == old(self).groups,
            final(self).events == old(self).events,
            final(self).manager == old(self).manager,
            final(self).protocol == old(self).protocol,
            workspaces_view(final(self).workspaces).to_multiset() == workspaces_view(
                old(self).workspaces,
            ).to_multiset(),
            sorted_by_protocol_id(workspaces_view(final(self).workspaces)),
    {
        broadcast use group_to_multiset_ensures;

        let ghost orig = workspaces_view(self.workspaces);
        let mut rest: Vec<Workspace> = Vec::new();
        core::mem::swap(&mut rest, &mut self.workspaces);
        let mut out: Vec<Workspace> = Vec::new();
        proof {
            assert(workspaces_view(out) =~= Seq::<WorkspaceModel>::empty());
            assert(workspaces_view(out).to_multiset().add(
                workspaces_view(rest).to_multiset(),
            ) =~= orig.to_multiset());
        }
        while rest.len() > 0
            invariant
                workspaces_view(out).to_multiset().add(workspaces_view(rest).to_multiset())
                    == orig.to_multiset(),
                sorted_by_protocol_id(workspaces_view(out)),
                forall|i: int, j: int|
                    0 <= i < workspaces_view(out).len() && 0 <= j < workspaces_view(rest).len()
                        ==> (#[trigger] workspaces_view(out)[i]).handle.spec_protocol_id()
                        <= (#[trigger] workspaces_view(rest)[j]).handle.spec_protocol_id(),
            decreases rest@.len(),
        {
            let m = min_ws_id_index(&rest);
            let ghost rest_before = workspaces_view(rest);
            let ghost out_before = workspaces_view(out);
            let w = rest.remove(m);
            out.push(w);
            proof {
                let x = rest_before[m as int];
                assert(workspaces_view(rest) =~= rest_before.remove(m as int));
                assert(workspaces_view(out) =~= out_before.push(x));
                to_multiset_build(out_before, x);
                to_multiset_remove(rest_before, m as int);
                to_multiset_contains(rest_before, x);
                assert(rest_before.contains(x));
                assert(rest_before.to_multiset().count(x) > 0);
                assert(workspaces_view(out).to_multiset().add(workspaces_view(rest).to_multiset())
                    =~= out_before.to_multiset().add(rest_before.to_multiset()));
            }
        }
        core::mem::swap(&mut out, &mut self.workspaces);
        proof {
            assert(workspaces_view(rest) =~= Seq::<WorkspaceModel>::empty());
            assert(workspaces_view(self.workspaces).to_multiset() =~= orig.to_multiset());
        }
    }

    /// Rearrange the workspaces in ascending lexicographic coordinate
    /// order.
    pub fn sort_workspaces_by_coords(&mut self)
        ensures
            final(self).groups == old(self).groups,
            final(self).events == old(self).events,
            final(self).manager == old(self).manager,
            final(self).protocol == old(self).protocol,
            workspaces_view(final(self).workspaces).to_multiset() == workspaces_view(
                old(self).workspaces,
            ).to_multiset(),
            sorted_by_coords(workspaces_view(final(self).workspaces)),
    {
        broadcast use group_to_multiset_ensures;

        let ghost orig = workspaces_view(self.workspaces);
        let mut rest: Vec<Workspace> = Vec::new();
        core::mem::swap(&mut rest, &mut self.workspaces);
        let mut out: Vec<Workspace> = Vec::new();
        proof {
            assert(workspaces_view(out) =~= Seq::<WorkspaceModel>::empty());
            assert(workspaces_view(out).to_multiset().add(
                workspaces_view(rest).to_multiset(),
            ) =~= orig.to_multiset());
        }
        while rest.len() > 0
            invariant
                workspaces_view(out).to_multiset().add(workspaces_view(rest).to_multiset())
                    == orig.to_multiset(),
                sorted_by_coords(workspaces_view(out)),
                forall|i: int, j: int|
                    0 <= i < workspaces_view(out).len() && 0 <= j < workspaces_view(rest).len()
                        ==> lex_le(
                        (#[trigger] workspaces_view(out)[i]).coordinates,
                        (#[trigger] workspaces_view(rest)[j]).coordinates,
                    ),
            decreases rest@.len(),
        {
            let m = min_ws_coords_index(&rest);
            let ghost rest_before = workspaces_view(rest);
            let ghost out_before = workspaces_view(out);
            let w = rest.remove(m);
            out.push(w);
            proof {
                let x = rest_before[m as int];
                assert(workspaces_view(rest) =~= rest_before.remove(m as int));
                assert(workspaces_view(out) =~= out_before.push(x));
                to_multiset_build(out_before, x);
                to_multiset_remove(rest_before, m as int);
                to_multiset_contains(rest_before, x);
                assert(rest_before.contains(x));
                assert(rest_before.to_multiset().count(x) > 0);
                assert(workspaces_view(out).to_multiset().add(workspaces_view(rest).to_multiset())
                    =~= out_before.to_multiset().add(rest_before.to_multiset()));
            }
        }
        core::mem::swap(&mut out, &mut self.workspaces);
        proof {
            assert(workspaces_view(rest) =~= Seq::<WorkspaceModel>::empty());
            assert(workspaces_view(self.workspaces).to_multiset() =~= orig.to_multiset());
        }
    }

    /// Rearrange the groups in ascending wire-id order.
    pub fn sort_groups_by_id(&mut self)
        ensures
            final(self).workspaces == old(self).workspaces,
            final(self).events == old(self).events,
            final(self).manager == old(self).manager,
            final(self).protocol == old(self).protocol,
            groups_view(final(self).groups).to_multiset() == groups_view(
                old(self).groups,
            ).to_multiset(),
            groups_sorted_by_protocol_id(groups_view(final(self).groups)),
    {
        broadcast use group_to_multiset_ensures;

        let ghost orig = groups_view(self.groups);
        let mut rest: Vec<WorkspaceGroup> = Vec::new();
        core::mem::swap(&mut rest, &mut self.groups);
        let mut out: Vec<WorkspaceGroup> = Vec::new();
        proof {
            assert(groups_view(out) =~= Seq::<GroupModel>::empty());
            assert(groups_view(out).to_multiset().add(groups_view(rest).to_multiset())
                =~= orig.to_multiset());
        }
        while rest.len() > 0
            invariant
                groups_view(out).to_multiset().add(groups_view(rest).to_multiset())
                    == orig.to_multiset(),
                groups_sorted_by_protocol_id(groups_view(out)),
                forall|i: int, j: int|
                    0 <= i < groups_view(out).len() && 0 <= j < groups_view(rest).len()
                        ==> (#[trigger] groups_view(out)[i]).handle.spec_protocol_id()
                        <= (#[trigger] groups_view(rest)[j]).handle.spec_protocol_id(),
            decreases rest@.len(),
        {
            let m = min_group_id_index(&rest);
            let ghost rest_before = groups_view(rest);
            let ghost out_before = groups_view(out);
            let g = rest.remove(m);
            out.push(g);
            proof {
                let x = rest_before[m as int];
                assert(groups_view(rest) =~= rest_before.remove(m as int));
                assert(groups_view(out) =~= out_before.push(x));
                to_multiset_build(out_before, x);
                to_multiset_remove(rest_before, m as int);
                to_multiset_contains(rest_before, x);
                assert(rest_before.contains(x));
                assert(rest_before.to_multiset().count(x) > 0);
                assert(groups_view(out).to_multiset().add(groups_view(rest).to_multiset())
                    =~= out_before.to_multiset().add(rest_before.to_multiset()));
            }
        }
        core::mem::swap(&mut out, &mut self.groups);
        proof {
            assert(groups_view(rest) =~= Seq::<GroupModel>::empty());
            assert(groups_view(self.groups).to_multiset() =~= orig.to_multiset());
        }
    }
}

} // verus!
