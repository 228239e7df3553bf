//! The renderer.
//!
//! The state is shown either as a human-readable block of text or as a
//! JSON-ready grouping of record indices.  Every piece of text is
//! specified character for character: a record renders to exactly the
//! sequence its ghost image dictates.

use vstd::prelude::*;

use crate::cli::OutputSelector;
use crate::model::{
    fn_group_is, fn_ws_of_group, lemma_filter_push, GroupModel, SnapshotModel, WorkspaceModel,
};
use crate::protocol::{
    TilingState, WorkspaceStates, GROUP_CAP_CREATE_WORKSPACE, STATE_ACTIVE, STATE_HIDDEN,
    STATE_URGENT, WS_CAP_ACTIVATE, WS_CAP_ASSIGN, WS_CAP_DEACTIVATE, WS_CAP_REMOVE,
    WS_CAP_RENAME, WS_CAP_SET_TILING_STATE,
};
use crate::protocol::GroupHandle;
use crate::resolve::{resolved_group_idx, SelectorError};
use crate::sorting::{groups_sorted_by_protocol_id, sorted_by_coords};
use crate::workspace_state::{
    groups_view, workspaces_view, Workspace, WorkspaceGroup, WorkspaceState,
};

verus! {

/// The character of one decimal digit.
pub open spec fn digit_char(d: nat) -> char {
    if d == 0 {
        '0'
    } else if d == 1 {
        '1'
    } else if d == 2 {
        '2'
    } else if d == 3 {
        '3'
    } else if d == 4 {
        '4'
    } else if d == 5 {
        '5'
    } else if d == 6 {
        '6'
    } else if d == 7 {
        '7'
    } else if d == 8 {
        '8'
    } else {
        '9'
    }
}

/// Decimal text of an unsigned number.
pub open spec fn dec_rep(n: nat) -> Seq<char>
    decreases n,
{
    if n < 10 {
        seq![digit_char(n)]
    } else {
        dec_rep(n / 10).push(digit_char(n % 10))
    }
}

/// Decimal text of a signed number.
pub open spec fn int_rep(n: int) -> Seq<char> {
    if n < 0 {
        seq!['-'] + dec_rep((-n) as nat)
    } else {
        dec_rep(n as nat)
    }
}

/// The one-character text of a decimal digit.
fn digit_str(d: u32) -> (r: &'static str)
    requires
        d < 10,
    ensures
        r@ == seq![digit_char(d as nat)],
{
    if d == 0 {
        proof {
            reveal_strlit("0");
            assert("0"@ =~= seq![digit_char(0)]);
        }
        "0"
    } else if d == 1 {
        proof {
            reveal_strlit("1");
            assert("1"@ =~= seq![digit_char(1)]);
        }
        "1"
    } else if d == 2 {
        proof {
            reveal_strlit("2");
            assert("2"@ =~= seq![digit_char(2)]);
        }
        "2"
    } else if d == 3 {
        proof {
            reveal_strlit("3");
            assert("3"@ =~= seq![digit_char(3)]);
        }
        "3"
    } else if d == 4 {
        proof {
            reveal_strlit("4");
            assert("4"@ =~= seq![digit_char(4)]);
        }
        "4"
    } else if d == 5 {
        proof {
            reveal_strlit("5");
            assert("5"@ =~= seq![digit_char(5)]);
        }
        "5"
    } else if d == 6 {
        proof {
            reveal_strlit("6");
            assert("6"@ =~= seq![digit_char(6)]);
        }
        "6"
    } else if d == 7 {
        proof {
            reveal_strlit("7");
            assert("7"@ =~= seq![digit_char(7)]);
        }
        "7"
    } else if d == 8 {
        proof {
            reveal_strlit("8");
            assert("8"@ =~= seq![digit_char(8)]);
        }
        "8"
    } else {
        proof {
            reveal_strlit("9");
            assert("9"@ =~= seq![digit_char(9)]);
        }
        "9"
    }
}

/// Decimal text of an unsigned number.
pub fn u32_string(n: u32) -> (s: String)
    ensures
        s@ == dec_rep(n as nat),
    decreases n,
{
    if n < 10 {
        let mut s = String::new();
        s.append(digit_str(n));
        proof {
            assert(s@ =~= dec_rep(n as nat));
        }
        s
    } else {
        let mut s = u32_string(n / 10);
        s.append(digit_str(n % 10));
        proof {
            assert(s@ =~= dec_rep(n as nat));
        }
        s
    }
}

/// Decimal text of a signed number.
pub fn i32_string(n: i32) -> (s: String)
    ensures
        s@ == int_rep(n as int),
{
    if n >= 0 {
        u32_string(n as u32)
    } else {
        let wide: i64 = n as i64;
        let mag: u32 = (-wide) as u32;
        proof {
            assert(-wide <= 0x8000_0000i64);
            assert(mag as int == -(n as int));
        }
        let digits = u32_string(mag);
        let mut s = String::from_str("-");
        s.append(digits.as_str());
        proof {
            reveal_strlit("-");
            assert(s@ =~= int_rep(n as int));
        }
        s
    }
}

/// Glue one more named flag onto a flag list.
pub open spec fn sep_append(acc: Seq<char>, part: Seq<char>) -> Seq<char> {
    if acc.len() == 0 {
        part
    } else {
        acc + " | "@ + part
    }
}

/// The named flags of a workspace state set, in declaration order.
pub open spec fn states_text(bits: u32) -> Seq<char> {
    let s0 = Seq::<char>::empty();
    let s1 = if bits & STATE_ACTIVE == STATE_ACTIVE {
        sep_append(s0, "Active"@)
    } else {
        s0
    };
    let s2 = if bits & STATE_HIDDEN == STATE_HIDDEN {
        sep_append(s1, "Hidden"@)
    } else {
        s1
    };
    if bits & STATE_URGENT == STATE_URGENT {
        sep_append(s2, "Urgent"@)
    } else {
        s2
    }
}

/// The named flags of a workspace capability set, in declaration order.
pub open spec fn ws_caps_text(bits: u32) -> Seq<char> {
    let s0 = Seq::<char>::empty();
    let s1 = if bits & WS_CAP_ACTIVATE == WS_CAP_ACTIVATE {
        sep_append(s0, "Activate"@)
    } else {
        s0
    };
    let s2 = if bits & WS_CAP_DEACTIVATE == WS_CAP_DEACTIVATE {
        sep_append(s1, "Deactivate"@)
    } else {
        s1
    };
    let s3 = if bits & WS_CAP_REMOVE == WS_CAP_REMOVE {
        sep_append(s2, "Remove"@)
    } else {
        s2
    };
    let s4 = if bits & WS_CAP_ASSIGN == WS_CAP_ASSIGN {
        sep_append(s3, "Assign"@)
    } else {
        s3
    };
    let s5 = if bits & WS_CAP_RENAME == WS_CAP_RENAME {
        sep_append(s4, "Rename"@)
    } else {
        s4
    };
    if bits & WS_CAP_SET_TILING_STATE == WS_CAP_SET_TILING_STATE {
        sep_append(s5, "SetTilingState"@)
    } else {
        s5
    }
}

/// The named flags of a group capability set.
pub open spec fn group_caps_text(bits: u32) -> Seq<char> {
    if bits & GROUP_CAP_CREATE_WORKSPACE == GROUP_CAP_CREATE_WORKSPACE {
        "CreateWorkspace"@
    } else {
        Seq::<char>::empty()
    }
}

/// Append one named flag, separated from what is already there.
fn push_flag(s: &mut String, any: bool, name: &str)
    requires
        any == (old(s)@.len() != 0),
    ensures
        final(s)@ == sep_append(old(s)@, name@),
{
    if any {
        s.append(" | ");
    }
    s.append(name);
}

/// The text of a workspace state set.
pub fn states_string(st: &WorkspaceStates) -> (s: String)
    ensures
        s@ == states_text(st.bits),
{
    proof {
        reveal_strlit("Active");
        reveal_strlit("Hidden");
        reveal_strlit("Urgent");
        reveal_strlit(" | ");
    }
    let mut s = String::new();
    let mut any = false;
    if st.contains(STATE_ACTIVE) {
        push_flag(&mut s, any, "Active");
        any = true;
    }
    if st.contains(STATE_HIDDEN) {
        push_flag(&mut s, any, "Hidden");
        any = true;
    }
    if st.contains(STATE_URGENT) {
        push_flag(&mut s, any, "Urgent");
        any = true;
    }
    proof {
        assert(s@ =~= states_text(st.bits));
    }
    s
}

/// The text of a workspace capability set.
pub fn ws_caps_string(caps: &crate::protocol::WorkspaceCapabilities) -> (s: String)
    ensures
        s@ == ws_caps_text(caps.bits),
{
    proof {
        reveal_strlit("Activate");
        reveal_strlit("Deactivate");
        reveal_strlit("Remove");
        reveal_strlit("Assign");
        reveal_strlit("Rename");
        reveal_strlit("SetTilingState");
        reveal_strlit(" | ");
    }
    let mut s = String::new();
    let mut any = false;
    if caps.contains(WS_CAP_ACTIVATE) {
        push_flag(&mut s, any, "Activate");
        any = true;
    }
    if caps.contains(WS_CAP_DEACTIVATE) {
        push_flag(&mut s, any, "Deactivate");
        any = true;
    }
    if caps.contains(WS_CAP_REMOVE) {
        push_flag(&mut s, any, "Remove");
        any = true;
    }
    if caps.contains(WS_CAP_ASSIGN) {
        push_flag(&mut s, any, "Assign");
        any = true;
    }
    if caps.contains(WS_CAP_RENAME) {
        push_flag(&mut s, any, "Rename");
        any = true;
    }
    if caps.contains(WS_CAP_SET_TILING_STATE) {
        push_flag(&mut s, any, "SetTilingState");
        any = true;
    }
    proof {
        assert(s@ =~= ws_caps_text(caps.bits));
    }
    s
}

/// The text of a group capability set.
pub fn group_caps_string(caps: &crate::protocol::GroupCapabilities) -> (s: String)
    ensures
        s@ == group_caps_text(caps.bits),
{
    proof {
        reveal_strlit("CreateWorkspace");
    }
    let mut s = String::new();
    if caps.contains(GROUP_CAP_CREATE_WORKSPACE) {
        s.append("CreateWorkspace");
    }
    proof {
        assert(s@ =~= group_caps_text(caps.bits));
    }
    s
}

/// The inner text of a coordinate vector: its bytes, comma-separated.
pub open spec fn coords_inner_text(s: Seq<u8>) -> Seq<char>
    decreases s.len(),
{
    if s.len() == 0 {
        Seq::<char>::empty()
    } else if s.len() == 1 {
        dec_rep(s[0] as nat)
    } else {
        coords_inner_text(s.drop_last()) + ", "@ + dec_rep(s.last() as nat)
    }
}

/// The text of a coordinate vector, bracketed.
pub open spec fn coords_text(s: Seq<u8>) -> Seq<char> {
    "["@ + coords_inner_text(s) + "]"@
}

/// The text of a coordinate vector.
pub fn coords_string(v: &Vec<u8>) -> (s: String)
    ensures
        s@ == coords_text(v@),
{
    proof {
        reveal_strlit("[");
        reveal_strlit("]");
        reveal_strlit(", ");
    }
    let mut s = String::from_str("[");
    let n = v.len();
    let mut i: usize = 0;
    while i < n
        invariant
            n == v@.len(),
            i <= n,
            s@ == "["@ + coords_inner_text(v@.take(i as int)),
        decreases n - i,
    {
        if i > 0 {
            s.append(", ");
        }
        let d = u32_string(v[i] as u32);
        s.append(d.as_str());
        proof {
            assert(v@.take(i + 1).drop_last() =~= v@.take(i as int));
            assert(v@.take(i + 1).last() == v@[i as int]);
            assert(s@ =~= "["@ + coords_inner_text(v@.take(i + 1)));
        }
        i += 1;
    }
    s.append("]");
    proof {
        assert(v@.take(n as int) =~= v@);
        assert(s@ =~= coords_text(v@));
    }
    s
}

/// The text of an optional label: the label, or nothing.
pub open spec fn opt_text(o: Option<Seq<char>>) -> Seq<char> {
    match o {
        Some(t) => t,
        None => Seq::<char>::empty(),
    }
}

/// The trailing tiling-state note of a workspace line.
pub open spec fn tiling_text(o: Option<TilingState>) -> Seq<char> {
    match o {
        Some(TilingState::FloatingOnly) => ", tiling_state: FloatingOnly"@,
        Some(TilingState::TilingEnabled) => ", tiling_state: TilingEnabled"@,
        None => Seq::<char>::empty(),
    }
}

/// The one-line text of a workspace record.
pub open spec fn ws_line_text(w: WorkspaceModel) -> Seq<char> {
    "name: \""@ + opt_text(w.name) + "\", id: "@ + opt_text(w.id) + ", coordinates: "@
        + coords_text(w.coordinates) + ", state: ["@ + states_text(w.state.bits)
        + "], capabilities: ["@ + ws_caps_text(w.capabilities.bits) + "]"@ + tiling_text(
        w.tiling_state,
    )
}

impl Workspace {
    /// This record as one line of text: name, id, coordinates, state,
    /// capabilities, and the tiling note when one is on record.
    pub fn display_string(&self) -> (s: String)
        ensures
            s@ == ws_line_text(self@),
    {
        proof {
            reveal_strlit("name: \"");
            reveal_strlit("\", id: ");
            reveal_strlit(", coordinates: ");
            reveal_strlit(", state: [");
            reveal_strlit("], capabilities: [");
            reveal_strlit("]");
            reveal_strlit(", tiling_state: FloatingOnly");
            reveal_strlit(", tiling_state: TilingEnabled");
        }
        let mut s = String::from_str("name: \"");
        match &self.name {
            Some(n) => {
                s.append(n.as_str());
            },
            None => {},
        }
        s.append("\", id: ");
        match &self.id {
            Some(i) => {
                s.append(i.as_str());
            },
            None => {},
        }
        s.append(", coordinates: ");
        let coords = coords_string(&self.coordinates);
        s.append(coords.as_str());
        s.append(", state: [");
        let st = states_string(&self.state);
        s.append(st.as_str());
        s.append("], capabilities: [");
        let caps = ws_caps_string(&self.capabilities);
        s.append(caps.as_str());
        s.append("]");
        match self.tiling_state {
            Some(TilingState::FloatingOnly) => {
                s.append(", tiling_state: FloatingOnly");
            },
            Some(TilingState::TilingEnabled) => {
                s.append(", tiling_state: TilingEnabled");
            },
            None => {},
        }
        proof {
            assert(s@ =~= ws_line_text(self@));
        }
        s
    }
}

/// The text of an output's location or size pair.
pub open spec fn pair_text(a: int, b: int) -> Seq<char> {
    "("@ + int_rep(a) + ", "@ + int_rep(b) + ")"@
}

/// The one-line text of a group record: the output's wire id and
/// global id, its name, location, size and description, and the group
/// capabilities; a group without an assigned output renders as a fixed
/// marker.
pub open spec fn group_line_text(g: GroupModel) -> Seq<char> {
    match g.output {
        None => "workspace group without assigned output"@,
        Some(o) => {
            let global = match o.info {
                Some(i) => dec_rep(i.global_id as nat),
                None => Seq::<char>::empty(),
            };
            let loc = match o.info {
                Some(i) => pair_text(i.loc_x as int, i.loc_y as int),
                None => "(, )"@,
            };
            let size = match o.info {
                Some(i) => pair_text(i.size_w as int, i.size_h as int),
                None => "(, )"@,
            };
            let desc = match o.info {
                Some(i) => opt_text(i.description),
                None => Seq::<char>::empty(),
            };
            "protocol_id: "@ + dec_rep(o.protocol_id as nat) + ", global_id: "@ + global
                + ", name: \""@ + opt_text(g.output_name()) + "\", location: "@ + loc
                + ", size: "@ + size + ", description: "@ + desc + ", capabilities: ["@
                + group_caps_text(g.capabilities.bits) + "]"@
        },
    }
}

impl WorkspaceGroup {
    /// This record as one line of text.
    pub fn display_string(&self) -> (s: String)
        ensures
            s@ == group_line_text(self@),
    {
        proof {
            reveal_strlit("workspace group without assigned output");
            reveal_strlit("protocol_id: ");
            reveal_strlit(", global_id: ");
            reveal_strlit(", name: \"");
            reveal_strlit("\", location: ");
            reveal_strlit(", size: ");
            reveal_strlit(", description: ");
            reveal_strlit(", capabilities: [");
            reveal_strlit("]");
            reveal_strlit("(, )");
        }
        match &self.output {
            None => {
                let s = String::from_str("workspace group without assigned output");
                proof {
                    assert(s@ =~= group_line_text(self@));
                }
                s
            },
            Some(o) => {
                let mut s = String::from_str("protocol_id: ");
                let pid = u32_string(o.protocol_id);
                s.append(pid.as_str());
                s.append(", global_id: ");
                match &o.info {
                    Some(info) => {
                        let gid = u32_string(info.global_id);
                        s.append(gid.as_str());
                    },
                    None => {},
                }
                s.append(", name: \"");
                match &o.info {
                    Some(info) => match &info.name {
                        Some(n) => {
                            s.append(n.as_str());
                        },
                        None => {},
                    },
                    None => {},
                }
                s.append("\", location: ");
                match &o.info {
                    Some(info) => {
                        let p = pair_string(info.loc_x, info.loc_y);
                        s.append(p.as_str());
                    },
                    None => {
                        s.append("(, )");
                    },
                }
                s.append(", size: ");
                match &o.info {
                    Some(info) => {
                        let p = pair_string(info.size_w, info.size_h);
                        s.append(p.as_str());
                    },
                    None => {
                        s.append("(, )");
                    },
                }
                s.append(", description: ");
                match &o.info {
                    Some(info) => match &info.description {
                        Some(d) => {
                            s.append(d.as_str());
                        },
                        None => {},
                    },
                    None => {},
                }
                s.append(", capabilities: [");
                let caps = group_caps_string(&self.capabilities);
                s.append(caps.as_str());
                s.append("]");
                proof {
                    assert(s@ =~= group_line_text(self@));
                }
                s
            },
        }
    }
}

/// The text of a pair of signed numbers.
fn pair_string(a: i32, b: i32) -> (s: String)
    ensures
        s@ == pair_text(a as int, b as int),
{
    proof {
        reveal_strlit("(");
        reveal_strlit(", ");
        reveal_strlit(")");
    }
    let mut s = String::from_str("(");
    let av = i32_string(a);
    s.append(av.as_str());
    s.append(", ");
    let bv = i32_string(b);
    s.append(bv.as_str());
    s.append(")");
    proof {
        assert(s@ =~= pair_text(a as int, b as int));
    }
    s
}

/// The member lines of one group: every workspace it owns, indented,
/// one per line, in record order.
pub open spec fn members_text(ws: Seq<WorkspaceModel>, h: GroupHandle) -> Seq<char>
    decreases ws.len(),
{
    if ws.len() == 0 {
        Seq::<char>::empty()
    } else {
        members_text(ws.drop_last(), h) + if ws.last().group == Some(h) {
            "    "@ + ws_line_text(ws.last()) + "\n"@
        } else {
            Seq::<char>::empty()
        }
    }
}

/// One group's section: its line, then its member lines when it has an
/// assigned output and nothing more when it has none.
pub open spec fn section_text(g: GroupModel, ws: Seq<WorkspaceModel>) -> Seq<char> {
    group_line_text(g) + "\n"@ + (match g.output {
        Some(_) => members_text(ws, g.handle),
        None => Seq::<char>::empty(),
    })
}

/// The sections of every group, in record order.
pub open spec fn sections_text(groups: Seq<GroupModel>, ws: Seq<WorkspaceModel>) -> Seq<char>
    decreases groups.len(),
{
    if groups.len() == 0 {
        Seq::<char>::empty()
    } else {
        sections_text(groups.drop_last(), ws) + section_text(groups.last(), ws)
    }
}

/// The indented lines of the workspaces owned by no group.
pub open spec fn unassigned_lines_text(ws: Seq<WorkspaceModel>) -> Seq<char>
    decreases ws.len(),
{
    if ws.len() == 0 {
        Seq::<char>::empty()
    } else {
        unassigned_lines_text(ws.drop_last()) + if ws.last().group is None {
            "    "@ + ws_line_text(ws.last()) + "\n"@
        } else {
            Seq::<char>::empty()
        }
    }
}

/// The whole text block: each group's section, then, when unassigned
/// workspaces exist, a marker line and their lines.
pub open spec fn state_text(snap: SnapshotModel) -> Seq<char> {
    sections_text(snap.groups, snap.workspaces) + if exists|j: int|
        0 <= j < snap.workspaces.len() && (#[trigger] snap.workspaces[j]).group is None {
        "workspaces without assigned workspace group\n"@ + unassigned_lines_text(snap.workspaces)
    } else {
        Seq::<char>::empty()
    }
}

/// One entry of the JSON-ready grouping: the index of the group it
/// describes (none for the trailing unassigned entry) and the indices
/// of its workspaces.
#[derive(Debug)]
pub struct RenderGroup {
    pub group: Option<usize>,
    pub members: Vec<usize>,
}

impl View for RenderGroup {
    type V = (Option<int>, Seq<int>);

    open spec fn view(&self) -> (Option<int>, Seq<int>) {
        (
            match self.group {
                Some(g) => Some(g as int),
                None => None,
            },
            self.members@.map_values(|u: usize| u as int),
        )
    }
}

/// Indices of the workspaces one group owns, ascending.
pub open spec fn member_indices_spec(ws: Seq<WorkspaceModel>, h: GroupHandle) -> Seq<int>
    decreases ws.len(),
{
    if ws.len() == 0 {
        Seq::<int>::empty()
    } else {
        let rest = member_indices_spec(ws.drop_last(), h);
        if ws.last().group == Some(h) {
            rest.push(ws.len() - 1)
        } else {
            rest
        }
    }
}

/// Indices of the workspaces owned by no group, ascending.
pub open spec fn unassigned_indices_spec(ws: Seq<WorkspaceModel>) -> Seq<int>
    decreases ws.len(),
{
    if ws.len() == 0 {
        Seq::<int>::empty()
    } else {
        let rest = unassigned_indices_spec(ws.drop_last());
        if ws.last().group is None {
            rest.push(ws.len() - 1)
        } else {
            rest
        }
    }
}

/// The entries of every group that owns at least one workspace, in
/// group order.
pub open spec fn group_entries_spec(
    groups: Seq<GroupModel>,
    ws: Seq<WorkspaceModel>,
) -> Seq<(Option<int>, Seq<int>)>
    decreases groups.len(),
{
    if groups.len() == 0 {
        Seq::<(Option<int>, Seq<int>)>::empty()
    } else {
        let rest = group_entries_spec(groups.drop_last(), ws);
        let m = member_indices_spec(ws, groups.last().handle);
        if m.len() > 0 {
            rest.push((Some(groups.len() - 1), m))
        } else {
            rest
        }
    }
}

/// The JSON-ready grouping: group entries, then the unassigned entry
/// when unassigned workspaces exist.
pub open spec fn render_groups_spec(snap: SnapshotModel) -> Seq<(Option<int>, Seq<int>)> {
    let base = group_entries_spec(snap.groups, snap.workspaces);
    let u = unassigned_indices_spec(snap.workspaces);
    if u.len() > 0 {
        base.push((None, u))
    } else {
        base
    }
}

impl WorkspaceState {
    /// Indices of the workspaces one group owns, ascending.
    pub fn member_indices(&self, handle: &GroupHandle) -> (r: Vec<usize>)
        ensures
            r@.map_values(|u: usize| u as int) == member_indices_spec(
                self.snapshot().workspaces,
                *handle,
            ),
    {
        let n = self.workspaces.len();
        let mut r: Vec<usize> = Vec::new();
        proof {
            assert(r@.map_values(|u: usize| u as int) =~= member_indices_spec(
                workspaces_view(self.workspaces).take(0),
                *handle,
            ));
        }
        let mut i: usize = 0;
        while i < n
            invariant
                n == self.workspaces@.len(),
                i <= n,
                r@.map_values(|u: usize| u as int) == member_indices_spec(
                    workspaces_view(self.workspaces).take(i as int),
                    *handle,
                ),
            decreases n - i,
        {
            let member = match self.workspaces[i].group {
                Some(g) => g == *handle,
                None => false,
            };
            proof {
                let v = workspaces_view(self.workspaces);
                assert(v.take(i + 1).drop_last() =~= v.take(i as int));
                assert(v.take(i + 1).last() == v[i as int]);
            }
            if member {
                r.push(i);
                proof {
                    assert(r@.map_values(|u: usize| u as int) =~= member_indices_spec(
                        workspaces_view(self.workspaces).take(i + 1),
                        *handle,
                    ));
                }
            }
            i += 1;
        }
        proof {
            assert(workspaces_view(self.workspaces).take(n as int) =~= workspaces_view(
                self.workspaces,
            ));
        }
        r
    }

    /// Indices of the workspaces owned by no group, ascending.
    pub fn unassigned_indices(&self) -> (r: Vec<usize>)
        ensures
            r@.map_values(|u: usize| u as int) == unassigned_indices_spec(
                self.snapshot().workspaces,
            ),
    {
        let n = self.workspaces.len();
        let mut r: Vec<usize> = Vec::new();
        proof {
            assert(r@.map_values(|u: usize| u as int) =~= unassigned_indices_spec(
                workspaces_view(self.workspaces).take(0),
            ));
        }
        let mut i: usize = 0;
        while i < n
            invariant
                n == self.workspaces@.len(),
                i <= n,
                r@.map_values(|u: usize| u as int) == unassigned_indices_spec(
                    workspaces_view(self.workspaces).take(i as int),
                ),
            decreases n - i,
        {
            let unassigned = match self.workspaces[i].group {
                Some(_) => false,
                None => true,
            };
            proof {
                let v = workspaces_view(self.workspaces);
                assert(v.take(i + 1).drop_last() =~= v.take(i as int));
                assert(v.take(i + 1).last() == v[i as int]);
            }
            if unassigned {
                r.push(i);
                proof {
                    assert(r@.map_values(|u: usize| u as int) =~= unassigned_indices_spec(
                        workspaces_view(self.workspaces).take(i + 1),
                    ));
                }
            }
            i += 1;
        }
        proof {
            assert(workspaces_view(self.workspaces).take(n as int) =~= workspaces_view(
                self.workspaces,
            ));
        }
        r
    }

    /// The JSON-ready grouping: for each group owning at least one
    /// workspace, its index and its members' indices, in order; then
    /// one trailing entry for the unassigned workspaces, when any
    /// exist.
    pub fn render_groups(&self) -> (r: Vec<RenderGroup>)
        ensures
            r@.map_values(|e: RenderGroup| e@) == render_groups_spec(self.snapshot()),
    {
        let ng = self.groups.len();
        let mut out: Vec<RenderGroup> = Vec::new();
        proof {
            assert(out@.map_values(|e: RenderGroup| e@) =~= group_entries_spec(
                groups_view(self.groups).take(0),
                workspaces_view(self.workspaces),
            ));
        }
        let mut gi: usize = 0;
        while gi < ng
            invariant
                ng == self.groups@.len(),
                gi <= ng,
                out@.map_values(|e: RenderGroup| e@) == group_entries_spec(
                    groups_view(self.groups).take(gi as int),
                    workspaces_view(self.workspaces),
                ),
            decreases ng - gi,
        {
            let members = self.member_indices(&self.groups[gi].handle);
            proof {
                let g = groups_view(self.groups);
                assert(g.take(gi + 1).drop_last() =~= g.take(gi as int));
                assert(g.take(gi + 1).last() == g[gi as int]);
            }
            if members.len() > 0 {
                let entry = RenderGroup { group: Some(gi), members };
                out.push(entry);
                proof {
                    assert(out@.map_values(|e: RenderGroup| e@) =~= group_entries_spec(
                        groups_view(self.groups).take(gi + 1),
                        workspaces_view(self.workspaces),
                    ));
                }
            } else {
                proof {
                    assert(member_indices_spec(
                        workspaces_view(self.workspaces),
                        groups_view(self.groups)[gi as int].handle,
                    ).len() == 0);
                }
            }
            gi += 1;
        }
        proof {
            assert(groups_view(self.groups).take(ng as int) =~= groups_view(self.groups));
        }
        let unassigned = self.unassigned_indices();
        if unassigned.len() > 0 {
            let entry = RenderGroup { group: None, members: unassigned };
            out.push(entry);
            proof {
                assert(out@.map_values(|e: RenderGroup| e@) =~= render_groups_spec(
                    self.snapshot(),
                ));
            }
        } else {
            proof {
                assert(out@.map_values(|e: RenderGroup| e@) =~= render_groups_spec(
                    self.snapshot(),
                ));
            }
        }
        out
    }

    /// The whole state as the human-readable text block.
    pub fn display_string(&self) -> (s: String)
        ensures
            s@ == state_text(self.snapshot()),
    {
        proof {
            reveal_strlit("\n");
            reveal_strlit("    ");
            reveal_strlit("workspaces without assigned workspace group\n");
        }
        let mut s = String::new();
        let ng = self.groups.len();
        let nw = self.workspaces.len();
        proof {
            assert(s@ =~= sections_text(
                groups_view(self.groups).take(0),
                workspaces_view(self.workspaces),
            ));
        }
        let mut gi: usize = 0;
        while gi < ng
            invariant
                ng == self.groups@.len(),
                nw == self.workspaces@.len(),
                gi <= ng,
                s@ == sections_text(
                    groups_view(self.groups).take(gi as int),
                    workspaces_view(self.workspaces),
                ),
            decreases ng - gi,
        {
            let ghost before = s@;
            let line = self.groups[gi].display_string();
            s.append(line.as_str());
            s.append("\n");
            let has_output = match &self.groups[gi].output {
                Some(_) => true,
                None => false,
            };
            if has_output {
                let handle = self.groups[gi].handle;
                proof {
                    assert(s@ =~= before + group_line_text(groups_view(self.groups)[gi as int])
                        + "\n"@ + members_text(
                        workspaces_view(self.workspaces).take(0),
                        handle,
                    ));
                }
                let mut wi: usize = 0;
                while wi < nw
                    invariant
                        ng == self.groups@.len(),
                        nw == self.workspaces@.len(),
                        gi < ng,
                        wi <= nw,
                        handle == groups_view(self.groups)[gi as int].handle,
                        s@ == before + group_line_text(groups_view(self.groups)[gi as int])
                            + "\n"@ + members_text(
                            workspaces_view(self.workspaces).take(wi as int),
                            handle,
                        ),
                    decreases nw - wi,
                {
                    let member = match self.workspaces[wi].group {
                        Some(g) => g == handle,
                        None => false,
                    };
                    if member {
                        s.append("    ");
                        let wl = self.workspaces[wi].display_string();
                        s.append(wl.as_str());
                        s.append("\n");
                    }
                    proof {
                        let v = workspaces_view(self.workspaces);
                        assert(v.take(wi + 1).drop_last() =~= v.take(wi as int));
                        assert(v.take(wi + 1).last() == v[wi as int]);
                        assert(s@ =~= before + group_line_text(
                            groups_view(self.groups)[gi as int],
                        ) + "\n"@ + members_text(v.take(wi + 1), handle));
                    }
                    wi += 1;
                }
                proof {
                    assert(workspaces_view(self.workspaces).take(nw as int) =~= workspaces_view(
                        self.workspaces,
                    ));
                }
            }
            proof {
                let g = groups_view(self.groups);
                assert(g.take(gi + 1).drop_last() =~= g.take(gi as int));
                assert(g.take(gi + 1).last() == g[gi as int]);
                assert(s@ =~= sections_text(g.take(gi + 1), workspaces_view(self.workspaces)));
            }
            gi += 1;
        }
        proof {
            assert(groups_view(self.groups).take(ng as int) =~= groups_view(self.groups));
        }
        let ghost body = s@;

        let mut any: bool = false;
        let mut i: usize = 0;
        while i < nw
            invariant
                nw == self.workspaces@.len(),
                i <= nw,
                any ==> exists|j: int|
                    0 <= j < nw && (#[trigger] workspaces_view(self.workspaces)[j]).group
                        is None,
                !any ==> forall|j: int|
                    0 <= j < i ==> !((#[trigger] workspaces_view(self.workspaces)[j]).group
                        is None),
            decreases nw - i,
        {
            let unassigned = match self.workspaces[i].group {
                Some(_) => false,
                None => true,
            };
            if unassigned {
                proof {
                    assert((workspaces_view(self.workspaces)[i as int]).group is None);
                }
                any = true;
            }
            i += 1;
        }
        if any {
            s.append("workspaces without assigned workspace group\n");
            proof {
                assert(s@ =~= body + "workspaces without assigned workspace group\n"@
                    + unassigned_lines_text(workspaces_view(self.workspaces).take(0)));
            }
            let mut wi: usize = 0;
            while wi < nw
                invariant
                    nw == self.workspaces@.len(),
                    wi <= nw,
                    s@ == body + "workspaces without assigned workspace group\n"@
                        + unassigned_lines_text(workspaces_view(self.workspaces).take(wi as int)),
                decreases nw - wi,
            {
                let unassigned = match self.workspaces[wi].group {
                    Some(_) => false,
                    None => true,
                };
                if unassigned {
                    s.append("    ");
                    let wl = self.workspaces[wi].display_string();
                    s.append(wl.as_str());
                    s.append("\n");
                }
                proof {
                    let v = workspaces_view(self.workspaces);
                    assert(v.take(wi + 1).drop_last() =~= v.take(wi as int));
                    assert(v.take(wi + 1).last() == v[wi as int]);
                    assert(s@ =~= body + "workspaces without assigned workspace group\n"@
                        + unassigned_lines_text(v.take(wi + 1)));
                }
                wi += 1;
            }
            proof {
                assert(workspaces_view(self.workspaces).take(nw as int) =~= workspaces_view(
                    self.workspaces,
                ));
                assert(s@ =~= state_text(self.snapshot()));
            }
        } else {
            proof {
                assert(s@ =~= state_text(self.snapshot()));
            }
        }
        s
    }
}

/// Keep only the groups with this handle.
fn retain_groups_with_handle(groups: &mut Vec<WorkspaceGroup>, handle: GroupHandle)
    ensures
        groups_view(*final(groups)) == groups_view(*old(groups)).filter(fn_group_is(handle)),
{
    let ghost orig = groups_view(*groups);
    let mut kept: Vec<WorkspaceGroup> = Vec::new();
    let ghost mut done: int = 0;
    proof {
        assert(orig.take(0).filter(fn_group_is(handle)) =~= Seq::<GroupModel>::empty());
        assert(groups_view(kept) =~= Seq::<GroupModel>::empty());
        assert(groups_view(*groups) =~= orig.skip(0));
    }
    while groups.len() > 0
        invariant
            0 <= done <= orig.len(),
            orig == groups_view(*old(groups)),
            done + groups@.len() == orig.len(),
            groups_view(*groups) == orig.skip(done),
            groups_view(kept) == orig.take(done).filter(fn_group_is(handle)),
        decreases groups@.len(),
    {
        let ghost vec_before = groups@;
        let ghost view_before = groups_view(*groups);
        let g = groups.remove(0);
        proof {
            assert(view_before[0] == g@);
            assert(orig.skip(done)[0] == g@);
            assert(orig.take(done + 1) =~= orig.take(done).push(orig[done]));
            lemma_filter_push(orig.take(done), orig[done], fn_group_is(handle));
        }
        if g.handle == handle {
            kept.push(g);
            proof {
                assert(groups_view(kept) =~= orig.take(done + 1).filter(fn_group_is(handle)));
            }
        } else {
            proof {
                assert(groups_view(kept) =~= orig.take(done + 1).filter(fn_group_is(handle)));
            }
        }
        proof {
            done = done + 1;
            assert forall|k: int| 0 <= k < groups@.len() implies groups_view(*groups)[k]
                == orig.skip(done)[k] by {
                assert(groups@[k] == vec_before[k + 1]);
                assert(view_before[k + 1] == vec_before[k + 1]@);
                assert(view_before[k + 1] == orig.skip(done - 1)[k + 1]);
            }
            assert(groups_view(*groups) =~= orig.skip(done));
        }
    }
    proof {
        assert(orig.take(done) =~= orig);
    }
    *groups = kept;
}

/// Keep only the workspaces this group owns.
fn retain_workspaces_of_group(workspaces: &mut Vec<Workspace>, handle: GroupHandle)
    ensures
        workspaces_view(*final(workspaces)) == workspaces_view(*old(workspaces)).filter(
            fn_ws_of_group(handle),
        ),
{
    let ghost orig = workspaces_view(*workspaces);
    let mut kept: Vec<Workspace> = Vec::new();
    let ghost mut done: int = 0;
    proof {
        assert(orig.take(0).filter(fn_ws_of_group(handle)) =~= Seq::<WorkspaceModel>::empty());
        assert(workspaces_view(kept) =~= Seq::<WorkspaceModel>::empty());
        assert(workspaces_view(*workspaces) =~= orig.skip(0));
    }
    while workspaces.len() > 0
        invariant
            0 <= done <= orig.len(),
            orig == workspaces_view(*old(workspaces)),
            done + workspaces@.len() == orig.len(),
            workspaces_view(*workspaces) == orig.skip(done),
            workspaces_view(kept) == orig.take(done).filter(fn_ws_of_group(handle)),
        decreases workspaces@.len(),
    {
        let ghost vec_before = workspaces@;
        let ghost view_before = workspaces_view(*workspaces);
        let w = workspaces.remove(0);
        proof {
            assert(view_before[0] == w@);
            assert(orig.skip(done)[0] == w@);
            assert(orig.take(done + 1) =~= orig.take(done).push(orig[done]));
            lemma_filter_push(orig.take(done), orig[done], fn_ws_of_group(handle));
        }
        let keep = match w.group {
            Some(g) => g == handle,
            None => false,
        };
        if keep {
            kept.push(w);
            proof {
                assert(workspaces_view(kept) =~= orig.take(done + 1).filter(
                    fn_ws_of_group(handle),
                ));
            }
        } else {
            proof {
                assert(workspaces_view(kept) =~= orig.take(done + 1).filter(
                    fn_ws_of_group(handle),
                ));
            }
        }
        proof {
            done = done + 1;
            assert forall|k: int| 0 <= k < workspaces@.len() implies workspaces_view(
                *workspaces,
            )[k] == orig.skip(done)[k] by {
                assert(workspaces@[k] == vec_before[k + 1]);
                assert(view_before[k + 1] == vec_before[k + 1]@);
                assert(view_before[k + 1] == orig.skip(done - 1)[k + 1]);
            }
            assert(workspaces_view(*workspaces) =~= orig.skip(done));
        }
    }
    proof {
        assert(orig.take(done) =~= orig);
    }
    *workspaces = kept;
}

impl WorkspaceState {
    /// Make the state ready for listing: narrow it to one output's
    /// group when a selector is given, and put groups and workspaces in
    /// display order.  A selector that resolves to no group leaves the
    /// state untouched.
    pub fn prepare_list(&mut self, output: Option<&OutputSelector>) -> (r: Result<
        (),
        SelectorError,
    >)
        ensures
            final(self).manager == old(self).manager,
            final(self).protocol == old(self).protocol,
            final(self).events == old(self).events,
            match r {
                Ok(()) => {
                    &&& sorted_by_coords(workspaces_view(final(self).workspaces))
                    &&& groups_sorted_by_protocol_id(groups_view(final(self).groups))
                    &&& match output {
                        Some(o) => {
                            let gi = resolved_group_idx(
                                old(self).snapshot().groups,
                                o.spec_name(),
                                o.spec_pid(),
                            );
                            &&& gi >= 0
                            &&& groups_view(final(self).groups).to_multiset() == old(
                                self,
                            ).snapshot().groups.filter(
                                fn_group_is(old(self).snapshot().groups[gi].handle),
                            ).to_multiset()
                            &&& workspaces_view(final(self).workspaces).to_multiset() == old(
                                self,
                            ).snapshot().workspaces.filter(
                                fn_ws_of_group(old(self).snapshot().groups[gi].handle),
                            ).to_multiset()
                        },
                        None => {
                            &&& groups_view(final(self).groups).to_multiset() == old(
                                self,
                            ).snapshot().groups.to_multiset()
                            &&& workspaces_view(final(self).workspaces).to_multiset() == old(
                                self,
                            ).snapshot().workspaces.to_multiset()
                        },
                    }
                },
                Err(e) => {
                    &&& final(self).groups == old(self).groups
                    &&& final(self).workspaces == old(self).workspaces
                    &&& match output {
                        Some(o) => {
                            let gi = resolved_group_idx(
                                old(self).snapshot().groups,
                                o.spec_name(),
                                o.spec_pid(),
                            );
                            (gi == -1 && e == SelectorError::OutputNotFound) || (gi == -2 && e
                                == SelectorError::OutputRequired)
                        },
                        None => false,
                    }
                },
            },
    {
        match output {
            Some(o) => {
                match self.group_from_output(o) {
                    Ok(gi) => {
                        let handle = self.groups[gi].handle;
                        retain_workspaces_of_group(&mut self.workspaces, handle);
                        retain_groups_with_handle(&mut self.groups, handle);
                    },
                    Err(e) => {
                        return Err(e);
                    },
                }
            },
            None => {},
        }
        self.sort_workspaces_by_id();
        self.sort_workspaces_by_coords();
        self.sort_groups_by_id();
        Ok(())
    }
}

} // verus!
